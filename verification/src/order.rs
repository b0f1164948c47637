//! The order of keys: the lexicographic order of their UTF-8 bytes, which is
//! the order in which `str` compares.

use vstd::prelude::*;
use vstd::utf8::{
    decode_utf8, encode_utf8, encode_utf8_decode_utf8, is_ascii_chars, is_ascii_chars_encode_utf8,
};

verus! {

/// `a` and `b` agree on their first `k` bytes, and there `a` ends while `b`
/// goes on, or `a` goes on with the smaller byte.
pub open spec fn parts_at(a: Seq<u8>, b: Seq<u8>, k: int) -> bool {
    &&& 0 <= k <= a.len()
    &&& k < b.len()
    &&& a.subrange(0, k) =~= b.subrange(0, k)
    &&& k < a.len() ==> a[k] < b[k]
}

/// The strict lexicographic order of byte strings.
pub open spec fn bytes_before(a: Seq<u8>, b: Seq<u8>) -> bool {
    exists|k: int| parts_at(a, b, k)
}

/// The order of keys: the lexicographic order of their UTF-8 bytes.
pub open spec fn key_before(a: Seq<char>, b: Seq<char>) -> bool {
    bytes_before(encode_utf8(a), encode_utf8(b))
}

/// No byte string comes before itself.
pub proof fn lemma_before_irreflexive(a: Seq<u8>)
    ensures
        !bytes_before(a, a),
{
}

/// The order of byte strings is transitive.
pub proof fn lemma_before_transitive(a: Seq<u8>, b: Seq<u8>, c: Seq<u8>)
    requires
        bytes_before(a, b),
        bytes_before(b, c),
    ensures
        bytes_before(a, c),
{
    let k1 = choose|k: int| parts_at(a, b, k);
    let k2 = choose|k: int| parts_at(b, c, k);
    let k = if k1 <= k2 { k1 } else { k2 };
    assert(a.subrange(0, k) == c.subrange(0, k)) by {
        assert(a.subrange(0, k) == a.subrange(0, k1).subrange(0, k));
        assert(b.subrange(0, k) == b.subrange(0, k1).subrange(0, k));
        assert(b.subrange(0, k) == b.subrange(0, k2).subrange(0, k));
        assert(c.subrange(0, k) == c.subrange(0, k2).subrange(0, k));
    }
    if k1 < k2 {
        assert(b[k1] == b.subrange(0, k2)[k1]);
        assert(c[k1] == c.subrange(0, k2)[k1]);
    } else if k2 < k1 {
        assert(a[k2] == a.subrange(0, k1)[k2]);
        assert(b[k2] == b.subrange(0, k1)[k2]);
    }
    assert(parts_at(a, c, k));
}

/// A byte string that comes before another differs from it and does not come
/// after it.
proof fn lemma_one_way(a: Seq<u8>, b: Seq<u8>)
    requires
        bytes_before(a, b),
    ensures
        a != b,
        !bytes_before(b, a),
{
    lemma_before_irreflexive(a);
    if bytes_before(b, a) {
        lemma_before_transitive(a, b, a);
    }
}

/// Keys with the same UTF-8 bytes are the same key.
pub proof fn lemma_key_of_bytes(a: Seq<char>, b: Seq<char>)
    requires
        encode_utf8(a) == encode_utf8(b),
    ensures
        a == b,
{
    encode_utf8_decode_utf8(a);
    encode_utf8_decode_utf8(b);
    assert(decode_utf8(encode_utf8(a)) == a);
    assert(decode_utf8(encode_utf8(b)) == b);
}

/// Keys of ASCII characters are ordered as their characters are: `a` comes
/// before `b` where they agree on `k` characters and `a` then ends or goes on
/// with the smaller one.
pub proof fn lemma_ascii_key_before(a: Seq<char>, b: Seq<char>, k: int)
    requires
        is_ascii_chars(a),
        is_ascii_chars(b),
        0 <= k <= a.len(),
        k < b.len(),
        a.subrange(0, k) =~= b.subrange(0, k),
        k < a.len() ==> a[k] < b[k],
    ensures
        key_before(a, b),
{
    is_ascii_chars_encode_utf8(a);
    is_ascii_chars_encode_utf8(b);
    let x = encode_utf8(a);
    let y = encode_utf8(b);
    assert forall|i: int| 0 <= i < k implies x.subrange(0, k)[i] == y.subrange(0, k)[i] by {
        assert(a.subrange(0, k)[i] == b.subrange(0, k)[i]);
        assert(x[i] == a[i] as u8);
        assert(y[i] == b[i] as u8);
    }
    if k < a.len() {
        assert(x[k] == a[k] as u8);
        assert(y[k] == b[k] as u8);
        assert('\0' <= a[k] <= '\u{7f}');
        assert('\0' <= b[k] <= '\u{7f}');
    }
    assert(parts_at(x, y, k));
}

/// How one key stands to another in the order of keys.
#[derive(Clone, Copy, PartialEq, Eq, Debug)]
pub enum KeyOrder {
    Before,
    Same,
    After,
}

/// Compares two keys by their UTF-8 bytes.
pub fn compare_keys(a: &str, b: &str) -> (r: KeyOrder)
    ensures
        r == KeyOrder::Before <==> key_before(a@, b@),
        r == KeyOrder::Same <==> a@ == b@,
        r == KeyOrder::After <==> key_before(b@, a@),
{
    let x = a.as_bytes();
    let y = b.as_bytes();
    proof {
        lemma_before_irreflexive(x@);
    }
    let mut i: usize = 0;
    while i < x.len() && i < y.len()
        invariant
            x@ == encode_utf8(a@),
            y@ == encode_utf8(b@),
            i <= x.len(),
            i <= y.len(),
            x@.subrange(0, i as int) =~= y@.subrange(0, i as int),
        decreases x.len() - i,
    {
        if x[i] < y[i] {
            proof {
                assert(parts_at(x@, y@, i as int));
                lemma_one_way(x@, y@);
            }
            return KeyOrder::Before;
        }
        if y[i] < x[i] {
            proof {
                assert(parts_at(y@, x@, i as int));
                lemma_one_way(y@, x@);
            }
            return KeyOrder::After;
        }
        proof {
            assert(x@.subrange(0, i + 1) =~= x@.subrange(0, i as int).push(x@[i as int]));
            assert(y@.subrange(0, i + 1) =~= y@.subrange(0, i as int).push(y@[i as int]));
        }
        i += 1;
    }
    if i < y.len() {
        proof {
            assert(parts_at(x@, y@, i as int));
            lemma_one_way(x@, y@);
        }
        KeyOrder::Before
    } else if i < x.len() {
        proof {
            assert(parts_at(y@, x@, i as int));
            lemma_one_way(y@, x@);
        }
        KeyOrder::After
    } else {
        proof {
            assert(x@ =~= x@.subrange(0, i as int));
            assert(y@ =~= y@.subrange(0, i as int));
            lemma_key_of_bytes(a@, b@);
        }
        KeyOrder::Same
    }
}

} // verus!
