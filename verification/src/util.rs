//! Percent-encoding of form parameters.

use crate::params::{lemma_ordered_entries_unique, mapping, strictly_ordered, Params};
use vstd::prelude::*;
use vstd::string::*;
use vstd::utf8::{encode_utf8, is_ascii_chars, is_ascii_chars_encode_utf8};

verus! {

/// Whether a byte passes through the encoder as it is: an ASCII letter or
/// digit, or one of `*`, `.`, `-`, `_`.
pub open spec fn is_unreserved(b: u8) -> bool {
    ||| 0x30 <= b <= 0x39  // 0-9
    ||| 0x41 <= b <= 0x5a  // A-Z
    ||| 0x61 <= b <= 0x7a  // a-z
    ||| b == 0x2a  // *
    ||| b == 0x2e  // .
    ||| b == 0x2d  // -
    ||| b == 0x5f  // _
}

/// The upper-case hexadecimal digit for a value below sixteen.
pub open spec fn hex_digit(n: int) -> char {
    if n < 10 {
        (0x30 + n) as char
    } else {
        (0x41 + n - 10) as char
    }
}

/// The escape of one byte: `%` and its value as two hexadecimal digits.
pub open spec fn escape(b: u8) -> Seq<char> {
    seq!['%', hex_digit(b as int / 16), hex_digit(b as int % 16)]
}

/// What one byte contributes to the encoded text.
pub open spec fn encoded_byte(b: u8) -> Seq<char> {
    if is_unreserved(b) {
        seq![b as char]
    } else {
        escape(b)
    }
}

/// The encoded text of a byte string: the contributions of its bytes, in order.
pub open spec fn encoded_bytes(bytes: Seq<u8>) -> Seq<char>
    decreases bytes.len(),
{
    if bytes.len() == 0 {
        Seq::empty()
    } else {
        encoded_bytes(bytes.drop_last()) + encoded_byte(bytes.last())
    }
}

/// The percent-encoding of a string: that of its UTF-8 bytes.
pub open spec fn percent_encoded(s: Seq<char>) -> Seq<char> {
    encoded_bytes(encode_utf8(s))
}

/// What one parameter contributes to a form body: its encoded key, `=`, and
/// its encoded value.
pub open spec fn encoded_pair(entry: (Seq<char>, Seq<char>)) -> Seq<char> {
    percent_encoded(entry.0) + seq!['='] + percent_encoded(entry.1)
}

/// The form body of a list of parameters: the parameters in the order of the
/// list, with `&` between one and the next.
pub open spec fn encoded_params(entries: Seq<(Seq<char>, Seq<char>)>) -> Seq<char>
    decreases entries.len(),
{
    if entries.len() == 0 {
        Seq::empty()
    } else if entries.len() == 1 {
        encoded_pair(entries[0])
    } else {
        encoded_params(entries.drop_last()) + seq!['&'] + encoded_pair(entries.last())
    }
}

/// Whether a character is one of those that the encoder leaves as they are.
pub open spec fn is_unreserved_char(c: char) -> bool {
    '\0' <= c <= '\u{7f}' && is_unreserved(c as u8)
}

/// How often `c` occurs in `text`.
pub open spec fn occurrences(text: Seq<char>, c: char) -> nat
    decreases text.len(),
{
    if text.len() == 0 {
        0
    } else {
        occurrences(text.drop_last(), c) + if text.last() == c {
            1nat
        } else {
            0nat
        }
    }
}

/// `percent_encoding::percent_encode_byte` looks the byte up in a table of the
/// 256 escapes `%00` to `%FF`, written with upper-case digits.
pub assume_specification[ percent_encoding::percent_encode_byte ](byte: u8) -> (r: &'static str)
    ensures
        r@ == escape(byte),
;

/// `String::push` appends one character.
#[verifier::external_body]
fn push_char(s: &mut String, c: char)
    ensures
        final(s)@ == old(s)@.push(c),
{
    s.push(c)
}

fn unreserved(b: u8) -> (r: bool)
    ensures
        r == is_unreserved(b),
{
    (0x30 <= b && b <= 0x39) || (0x41 <= b && b <= 0x5a) || (0x61 <= b && b <= 0x7a) || b == 0x2a
        || b == 0x2e || b == 0x2d || b == 0x5f
}

/// Percent-encodes the UTF-8 bytes of `s`, leaving only the unreserved bytes
/// as they are.
pub fn percent_encode(s: &str) -> (r: String)
    ensures
        r@ == percent_encoded(s@),
{
    let bytes = s.as_bytes();
    let mut out = String::new();
    let mut i: usize = 0;
    while i < bytes.len()
        invariant
            i <= bytes.len(),
            out@ == encoded_bytes(bytes@.subrange(0, i as int)),
        decreases bytes.len() - i,
    {
        let b = bytes[i];
        if unreserved(b) {
            push_char(&mut out, b as char);
        } else {
            out.append(percent_encoding::percent_encode_byte(b));
        }
        proof {
            let next = bytes@.subrange(0, i + 1);
            assert(next.drop_last() == bytes@.subrange(0, i as int));
            assert(next.last() == b);
        }
        i += 1;
    }
    proof {
        assert(bytes@.subrange(0, bytes.len() as int) == bytes@);
    }
    out
}

/// Encodes the parameters as a form body: `key=value` for each, in the order
/// of the keys, joined with `&`, keys and values percent-encoded.
pub fn encode_params(params: &Params) -> (r: String)
    ensures
        r@ == encoded_params(params@),
        strictly_ordered(params@),
{
    proof {
        use_type_invariant(params);
    }
    let n = params.len();
    let mut out = String::new();
    let mut i: usize = 0;
    while i < n
        invariant
            i <= n,
            n == params@.len(),
            out@ == encoded_params(params@.subrange(0, i as int)),
        decreases n - i,
    {
        if i > 0 {
            push_char(&mut out, '&');
        }
        let key = percent_encode(params.key(i));
        out.append(key.as_str());
        push_char(&mut out, '=');
        let value = percent_encode(params.value(i));
        out.append(value.as_str());
        proof {
            let next = params@.subrange(0, i + 1);
            assert(next.drop_last() == params@.subrange(0, i as int));
            assert(next.last() == params@[i as int]);
            assert(next[0] == params@[0]);
        }
        i += 1;
    }
    proof {
        assert(params@.subrange(0, n as int) == params@);
    }
    out
}

/// The encoded text of a list of unreserved bytes is those bytes as
/// characters.
proof fn lemma_unreserved_bytes(bytes: Seq<u8>)
    requires
        forall|i: int| 0 <= i < bytes.len() ==> is_unreserved(#[trigger] bytes[i]),
    ensures
        encoded_bytes(bytes) == Seq::new(bytes.len(), |i: int| bytes[i] as char),
    decreases bytes.len(),
{
    if bytes.len() > 0 {
        let front = bytes.drop_last();
        assert forall|i: int| 0 <= i < front.len() implies is_unreserved(#[trigger] front[i]) by {
            assert(front[i] == bytes[i]);
        }
        lemma_unreserved_bytes(front);
        assert(is_unreserved(bytes[bytes.len() - 1]));
    }
    assert(encoded_bytes(bytes) =~= Seq::new(bytes.len(), |i: int| bytes[i] as char));
}

/// A string of letters, digits and `*`, `.`, `-`, `_` encodes to itself.
pub proof fn lemma_unreserved_unchanged(s: Seq<char>)
    requires
        forall|i: int| 0 <= i < s.len() ==> is_unreserved_char(#[trigger] s[i]),
    ensures
        percent_encoded(s) == s,
{
    assert(is_ascii_chars(s)) by {
        assert forall|i: int| 0 <= i < s.len() implies '\0' <= #[trigger] s[i] <= '\u{7f}' by {
            assert(is_unreserved_char(s[i]));
        }
    }
    is_ascii_chars_encode_utf8(s);
    let bytes = encode_utf8(s);
    assert forall|i: int| 0 <= i < bytes.len() implies is_unreserved(#[trigger] bytes[i]) by {
        assert(is_unreserved_char(s[i]));
        assert(bytes[i] == s[i] as u8);
    }
    lemma_unreserved_bytes(bytes);
    assert forall|i: int| 0 <= i < s.len() implies bytes[i] as char == s[i] by {
        assert(is_unreserved_char(s[i]));
        assert(bytes[i] == s[i] as u8);
    }
    assert(percent_encoded(s) =~= s);
}

/// What one byte contributes holds unreserved characters and `%`, nothing else.
proof fn lemma_encoded_byte_plain(b: u8)
    ensures
        forall|i: int|
            0 <= i < encoded_byte(b).len() ==> {
                let c = #[trigger] encoded_byte(b)[i];
                is_unreserved_char(c) || c == '%'
            },
{
    let high = hex_digit(b as int / 16);
    let low = hex_digit(b as int % 16);
    assert(is_unreserved_char(high));
    assert(is_unreserved_char(low));
    if is_unreserved(b) {
        assert(is_unreserved_char(b as char));
    }
}

/// Encoded bytes hold unreserved characters and `%`, nothing else.
proof fn lemma_encoded_bytes_plain(bytes: Seq<u8>)
    ensures
        forall|i: int|
            0 <= i < encoded_bytes(bytes).len() ==> {
                let c = #[trigger] encoded_bytes(bytes)[i];
                is_unreserved_char(c) || c == '%'
            },
    decreases bytes.len(),
{
    if bytes.len() > 0 {
        let front = encoded_bytes(bytes.drop_last());
        let last = encoded_byte(bytes.last());
        lemma_encoded_bytes_plain(bytes.drop_last());
        lemma_encoded_byte_plain(bytes.last());
        assert forall|i: int| 0 <= i < encoded_bytes(bytes).len() implies {
            let c = #[trigger] encoded_bytes(bytes)[i];
            is_unreserved_char(c) || c == '%'
        } by {
            if i < front.len() {
                assert(encoded_bytes(bytes)[i] == front[i]);
            } else {
                assert(encoded_bytes(bytes)[i] == last[i - front.len()]);
            }
        }
    }
}

/// Every character of an encoded string is an unreserved character or `%`:
/// no `&`, no `=` and no space is left in it.
pub proof fn lemma_encoded_is_plain(s: Seq<char>)
    ensures
        forall|i: int|
            0 <= i < percent_encoded(s).len() ==> {
                let c = #[trigger] percent_encoded(s)[i];
                is_unreserved_char(c) || c == '%'
            },
        !percent_encoded(s).contains('&'),
        !percent_encoded(s).contains('='),
        !percent_encoded(s).contains(' '),
{
    lemma_encoded_bytes_plain(encode_utf8(s));
}

/// The occurrences in a text made of two parts are those in the parts.
proof fn lemma_occurrences_add(a: Seq<char>, b: Seq<char>, c: char)
    ensures
        occurrences(a + b, c) == occurrences(a, c) + occurrences(b, c),
    decreases b.len(),
{
    if b.len() == 0 {
        assert(a + b =~= a);
    } else {
        assert((a + b).drop_last() =~= a + b.drop_last());
        lemma_occurrences_add(a, b.drop_last(), c);
    }
}

/// A character that a text does not contain occurs in it no times.
proof fn lemma_occurrences_none(text: Seq<char>, c: char)
    requires
        !text.contains(c),
    ensures
        occurrences(text, c) == 0,
    decreases text.len(),
{
    if text.len() > 0 {
        let front = text.drop_last();
        assert(text[text.len() - 1] != c);
        assert(!front.contains(c)) by {
            if front.contains(c) {
                let i = choose|i: int| 0 <= i < front.len() && front[i] == c;
                assert(text[i] == c);
            }
        }
        lemma_occurrences_none(front, c);
    }
}

/// One parameter's text holds one `=`, and neither `&` nor a space.
proof fn lemma_pair_separators(entry: (Seq<char>, Seq<char>))
    ensures
        occurrences(encoded_pair(entry), '=') == 1,
        occurrences(encoded_pair(entry), '&') == 0,
        occurrences(encoded_pair(entry), ' ') == 0,
{
    let key = percent_encoded(entry.0);
    let value = percent_encoded(entry.1);
    lemma_encoded_is_plain(entry.0);
    lemma_encoded_is_plain(entry.1);
    let sign = seq!['='];
    assert(sign.drop_last() =~= Seq::<char>::empty());
    assert(occurrences(sign.drop_last(), '=') == 0);
    assert(occurrences(sign.drop_last(), '&') == 0);
    assert(occurrences(sign.drop_last(), ' ') == 0);
    lemma_occurrences_none(key, '=');
    lemma_occurrences_none(key, '&');
    lemma_occurrences_none(key, ' ');
    lemma_occurrences_none(value, '=');
    lemma_occurrences_none(value, '&');
    lemma_occurrences_none(value, ' ');
    lemma_occurrences_add(key, sign, '=');
    lemma_occurrences_add(key, sign, '&');
    lemma_occurrences_add(key, sign, ' ');
    lemma_occurrences_add(key + sign, value, '=');
    lemma_occurrences_add(key + sign, value, '&');
    lemma_occurrences_add(key + sign, value, ' ');
}

/// In a form body the only `=` and `&` are the separators: one `=` for each
/// parameter, one `&` between each parameter and the next. It holds no space.
pub proof fn lemma_body_separators(entries: Seq<(Seq<char>, Seq<char>)>)
    ensures
        occurrences(encoded_params(entries), '=') == entries.len(),
        occurrences(encoded_params(entries), '&') == if entries.len() == 0 {
            0
        } else {
            entries.len() - 1
        },
        occurrences(encoded_params(entries), ' ') == 0,
    decreases entries.len(),
{
    if entries.len() == 1 {
        lemma_pair_separators(entries[0]);
    } else if entries.len() > 1 {
        let front = encoded_params(entries.drop_last());
        let pair = encoded_pair(entries.last());
        let sign = seq!['&'];
        lemma_body_separators(entries.drop_last());
        lemma_pair_separators(entries.last());
        assert(sign.drop_last() =~= Seq::<char>::empty());
        assert(occurrences(sign.drop_last(), '=') == 0);
        assert(occurrences(sign.drop_last(), '&') == 0);
        assert(occurrences(sign.drop_last(), ' ') == 0);
        lemma_occurrences_add(front, sign, '=');
        lemma_occurrences_add(front, sign, '&');
        lemma_occurrences_add(front, sign, ' ');
        lemma_occurrences_add(front + sign, pair, '=');
        lemma_occurrences_add(front + sign, pair, '&');
        lemma_occurrences_add(front + sign, pair, ' ');
    }
}

/// The form body depends on the mapping alone: ordered lists that stand for
/// the same mapping, however they were filled, encode to the same text.
pub proof fn lemma_body_of_mapping(
    a: Seq<(Seq<char>, Seq<char>)>,
    b: Seq<(Seq<char>, Seq<char>)>,
)
    requires
        strictly_ordered(a),
        strictly_ordered(b),
        mapping(a) == mapping(b),
    ensures
        encoded_params(a) == encoded_params(b),
{
    lemma_ordered_entries_unique(a, b);
}

} // verus!
