//! Request parameters: a mapping from string keys to string values that keeps
//! its entries in the order of their keys.

use crate::order::{
    compare_keys, key_before, lemma_before_irreflexive, lemma_before_transitive, KeyOrder,
};
use vstd::prelude::*;
use vstd::string::*;
use vstd::utf8::encode_utf8;

verus! {

/// Every entry's key comes before the keys of the entries after it.
pub open spec fn strictly_ordered(entries: Seq<(Seq<char>, Seq<char>)>) -> bool {
    forall|i: int, j: int|
        #![trigger entries[i], entries[j]]
        0 <= i < j < entries.len() ==> key_before(entries[i].0, entries[j].0)
}

/// Whether some entry has the key `k`.
pub open spec fn has_key(entries: Seq<(Seq<char>, Seq<char>)>, k: Seq<char>) -> bool {
    exists|i: int| 0 <= i < entries.len() && (#[trigger] entries[i]).0 == k
}

/// The mapping that a list of entries stands for. Where a key occurs twice,
/// the later entry counts.
pub open spec fn mapping(entries: Seq<(Seq<char>, Seq<char>)>) -> Map<Seq<char>, Seq<char>>
    decreases entries.len(),
{
    if entries.len() == 0 {
        Map::empty()
    } else {
        mapping(entries.drop_last()).insert(entries.last().0, entries.last().1)
    }
}

/// Every key of the list comes before `key`.
pub open spec fn all_before(entries: Seq<(Seq<char>, Seq<char>)>, key: Seq<char>) -> bool {
    forall|i: int| 0 <= i < entries.len() ==> key_before((#[trigger] entries[i]).0, key)
}

/// The list of one entry for a key whose value is set, the empty list for
/// one whose value is not.
pub open spec fn entry_if_set(key: Seq<char>, value: Option<Seq<char>>) -> Seq<
    (Seq<char>, Seq<char>),
> {
    match value {
        Some(v) => seq![(key, v)],
        None => Seq::empty(),
    }
}

/// The mapping with `key` set to the value if there is one.
pub open spec fn set_if(
    m: Map<Seq<char>, Seq<char>>,
    key: Seq<char>,
    value: Option<Seq<char>>,
) -> Map<Seq<char>, Seq<char>> {
    match value {
        Some(v) => m.insert(key, v),
        None => m,
    }
}

/// In an ordered list no key occurs twice.
pub proof fn lemma_ordered_keys_differ(entries: Seq<(Seq<char>, Seq<char>)>, i: int, j: int)
    requires
        strictly_ordered(entries),
        0 <= i < entries.len(),
        0 <= j < entries.len(),
        entries[i].0 == entries[j].0,
    ensures
        i == j,
{
    lemma_before_irreflexive(encode_utf8(entries[i].0));
    if i < j {
        assert(key_before(entries[i].0, entries[j].0));
    } else if j < i {
        assert(key_before(entries[j].0, entries[i].0));
    }
}

/// The mapping of a list holds exactly the keys of its entries.
pub proof fn lemma_mapping_keys(entries: Seq<(Seq<char>, Seq<char>)>, k: Seq<char>)
    ensures
        mapping(entries).contains_key(k) <==> has_key(entries, k),
    decreases entries.len(),
{
    if entries.len() > 0 {
        let front = entries.drop_last();
        lemma_mapping_keys(front, k);
        if has_key(entries, k) {
            let i = choose|i: int| 0 <= i < entries.len() && (#[trigger] entries[i]).0 == k;
            if i < entries.len() - 1 {
                assert(front[i].0 == k);
            }
        }
        if has_key(front, k) {
            let i = choose|i: int| 0 <= i < front.len() && (#[trigger] front[i]).0 == k;
            assert(entries[i].0 == k);
        }
        if entries.last().0 == k {
            assert(entries[entries.len() - 1].0 == k);
        }
    }
}

/// The mapping of an ordered list sends each entry's key to that entry's value.
pub proof fn lemma_mapping_value(entries: Seq<(Seq<char>, Seq<char>)>, i: int)
    requires
        strictly_ordered(entries),
        0 <= i < entries.len(),
    ensures
        mapping(entries).contains_key(entries[i].0),
        mapping(entries)[entries[i].0] == entries[i].1,
    decreases entries.len(),
{
    let front = entries.drop_last();
    if i < entries.len() - 1 {
        assert(strictly_ordered(front)) by {
            assert forall|x: int, y: int| 0 <= x < y < front.len() implies key_before(
                (#[trigger] front[x]).0,
                (#[trigger] front[y]).0,
            ) by {
                assert(key_before(entries[x].0, entries[y].0));
            }
        }
        lemma_mapping_value(front, i);
        assert(front[i] == entries[i]);
        if entries.last().0 == entries[i].0 {
            lemma_ordered_keys_differ(entries, i, entries.len() - 1);
        }
    }
}

/// An ordered list without its last entry is ordered.
proof fn lemma_front_ordered(entries: Seq<(Seq<char>, Seq<char>)>)
    requires
        strictly_ordered(entries),
        entries.len() > 0,
    ensures
        strictly_ordered(entries.drop_last()),
{
    let front = entries.drop_last();
    assert forall|x: int, y: int| 0 <= x < y < front.len() implies key_before(
        (#[trigger] front[x]).0,
        (#[trigger] front[y]).0,
    ) by {
        assert(key_before(entries[x].0, entries[y].0));
    }
}

/// Dropping the last entry of an ordered list removes its key from the mapping.
proof fn lemma_front_mapping(entries: Seq<(Seq<char>, Seq<char>)>)
    requires
        strictly_ordered(entries),
        entries.len() > 0,
    ensures
        mapping(entries.drop_last()) == mapping(entries).remove(entries.last().0),
{
    let front = entries.drop_last();
    let k = entries.last().0;
    lemma_mapping_keys(front, k);
    if has_key(front, k) {
        let i = choose|i: int| 0 <= i < front.len() && (#[trigger] front[i]).0 == k;
        assert(entries[i].0 == k);
        lemma_ordered_keys_differ(entries, i, entries.len() - 1);
    }
    assert(mapping(front) =~= mapping(entries).remove(k));
}

/// Two ordered lists that stand for the same mapping are the same list.
pub proof fn lemma_ordered_entries_unique(
    a: Seq<(Seq<char>, Seq<char>)>,
    b: Seq<(Seq<char>, Seq<char>)>,
)
    requires
        strictly_ordered(a),
        strictly_ordered(b),
        mapping(a) == mapping(b),
    ensures
        a == b,
    decreases a.len(),
{
    if a.len() == 0 {
        if b.len() > 0 {
            lemma_mapping_value(b, 0);
        }
        assert(a =~= b);
    } else if b.len() == 0 {
        lemma_mapping_value(a, 0);
    } else {
        let m = a.len() - 1;
        let n = b.len() - 1;
        // Each list's last key is the greatest key of the mapping.
        lemma_mapping_value(a, m);
        lemma_mapping_value(b, n);
        lemma_mapping_keys(b, a[m].0);
        lemma_mapping_keys(a, b[n].0);
        let j = choose|j: int| 0 <= j < b.len() && (#[trigger] b[j]).0 == a[m].0;
        let i = choose|i: int| 0 <= i < a.len() && (#[trigger] a[i]).0 == b[n].0;
        if j < n && i < m {
            assert(key_before(b[j].0, b[n].0));
            assert(key_before(a[i].0, a[m].0));
            lemma_before_transitive(
                encode_utf8(a[m].0),
                encode_utf8(b[n].0),
                encode_utf8(a[m].0),
            );
            lemma_before_irreflexive(encode_utf8(a[m].0));
        }
        assert(a[m].0 == b[n].0);
        assert(a[m] == b[n]);
        let x = a.drop_last();
        let y = b.drop_last();
        lemma_front_ordered(a);
        lemma_front_ordered(b);
        lemma_front_mapping(a);
        lemma_front_mapping(b);
        lemma_ordered_entries_unique(x, y);
        assert(a =~= x.push(a[m]));
        assert(b =~= y.push(b[n]));
    }
}

/// Putting a new key at its place in an ordered list keeps the list ordered
/// and adds the entry to the mapping.
proof fn lemma_insert_at(entries: Seq<(Seq<char>, Seq<char>)>, at: int, k: Seq<char>, v: Seq<char>)
    requires
        strictly_ordered(entries),
        0 <= at <= entries.len(),
        forall|j: int| 0 <= j < at ==> key_before((#[trigger] entries[j]).0, k),
        forall|j: int| at <= j < entries.len() ==> key_before(k, (#[trigger] entries[j]).0),
    ensures
        strictly_ordered(entries.insert(at, (k, v))),
        mapping(entries.insert(at, (k, v))) == mapping(entries).insert(k, v),
{
    let after = entries.insert(at, (k, v));
    assert forall|x: int, y: int| 0 <= x < y < after.len() implies key_before(
        (#[trigger] after[x]).0,
        (#[trigger] after[y]).0,
    ) by {
        let from_x = if x < at { x } else { x - 1 };
        let from_y = if y < at { y } else { y - 1 };
        if x != at && y != at {
            assert(after[x] == entries[from_x] && after[y] == entries[from_y]);
            assert(key_before(entries[from_x].0, entries[from_y].0));
        } else if x == at {
            assert(after[y] == entries[from_y]);
        } else {
            assert(after[x] == entries[from_x]);
        }
    }
    assert forall|x: Seq<char>| has_key(after, x) <==> x == k || has_key(entries, x) by {
        if has_key(after, x) && x != k {
            let i = choose|i: int| 0 <= i < after.len() && (#[trigger] after[i]).0 == x;
            let from = if i < at { i } else { i - 1 };
            assert(entries[from].0 == x);
        }
        if has_key(entries, x) {
            let i = choose|i: int| 0 <= i < entries.len() && (#[trigger] entries[i]).0 == x;
            let to = if i < at { i } else { i + 1 };
            assert(after[to].0 == x);
        }
        assert(after[at].0 == k);
    }
    assert forall|x: Seq<char>| #[trigger] mapping(after).contains_key(x) implies mapping(after)[x]
        == mapping(entries).insert(k, v)[x] by {
        lemma_mapping_keys(after, x);
        if x == k {
            lemma_mapping_value(after, at);
        } else {
            let i = choose|i: int| 0 <= i < entries.len() && (#[trigger] entries[i]).0 == x;
            let to = if i < at { i } else { i + 1 };
            assert(after[to] == entries[i]);
            lemma_mapping_value(after, to);
            lemma_mapping_value(entries, i);
        }
    }
    assert forall|x: Seq<char>| mapping(after).contains_key(x) <==> mapping(entries).insert(
        k,
        v,
    ).contains_key(x) by {
        lemma_mapping_keys(after, x);
        lemma_mapping_keys(entries, x);
    }
    assert(mapping(after) =~= mapping(entries).insert(k, v));
}

/// Giving the entry of a key a new value keeps an ordered list ordered and
/// changes the mapping at that key alone.
proof fn lemma_replace_at(entries: Seq<(Seq<char>, Seq<char>)>, at: int, v: Seq<char>)
    requires
        strictly_ordered(entries),
        0 <= at < entries.len(),
    ensures
        strictly_ordered(entries.update(at, (entries[at].0, v))),
        mapping(entries.update(at, (entries[at].0, v))) == mapping(entries).insert(
            entries[at].0,
            v,
        ),
{
    let k = entries[at].0;
    let after = entries.update(at, (k, v));
    assert forall|x: int, y: int| 0 <= x < y < after.len() implies key_before(
        (#[trigger] after[x]).0,
        (#[trigger] after[y]).0,
    ) by {
        assert(key_before(entries[x].0, entries[y].0));
    }
    assert forall|x: Seq<char>| has_key(after, x) <==> has_key(entries, x) by {
        if has_key(after, x) {
            let i = choose|i: int| 0 <= i < after.len() && (#[trigger] after[i]).0 == x;
            assert(entries[i].0 == x);
        }
        if has_key(entries, x) {
            let i = choose|i: int| 0 <= i < entries.len() && (#[trigger] entries[i]).0 == x;
            assert(after[i].0 == x);
        }
    }
    assert forall|x: Seq<char>| #[trigger] mapping(after).contains_key(x) implies mapping(after)[x]
        == mapping(entries).insert(k, v)[x] by {
        lemma_mapping_keys(after, x);
        let i = choose|i: int| 0 <= i < entries.len() && (#[trigger] entries[i]).0 == x;
        if x == k {
            lemma_mapping_value(after, at);
        } else {
            assert(after[i] == entries[i]);
            lemma_mapping_value(after, i);
            lemma_mapping_value(entries, i);
        }
    }
    assert forall|x: Seq<char>| mapping(after).contains_key(x) <==> mapping(entries).insert(
        k,
        v,
    ).contains_key(x) by {
        lemma_mapping_keys(after, x);
        lemma_mapping_keys(entries, x);
        assert(entries[at].0 == k);
    }
    assert(mapping(after) =~= mapping(entries).insert(k, v));
}

/// An ordered list stays ordered when a greater key is put behind it, and its
/// mapping gains that key.
pub proof fn lemma_extend_ordered(
    entries: Seq<(Seq<char>, Seq<char>)>,
    key: Seq<char>,
    value: Option<Seq<char>>,
)
    requires
        strictly_ordered(entries),
        all_before(entries, key),
    ensures
        strictly_ordered(entries + entry_if_set(key, value)),
        mapping(entries + entry_if_set(key, value)) == set_if(mapping(entries), key, value),
{
    match value {
        Some(v) => {
            let longer = entries + entry_if_set(key, value);
            assert(longer.drop_last() =~= entries);
            assert(longer.last() == (key, v));
            assert forall|x: int, y: int| 0 <= x < y < longer.len() implies key_before(
                (#[trigger] longer[x]).0,
                (#[trigger] longer[y]).0,
            ) by {
                assert(longer[x] == entries[x]);
                if y < entries.len() {
                    assert(longer[y] == entries[y]);
                }
            }
        },
        None => {
            assert(entries + entry_if_set(key, value) =~= entries);
        },
    }
}

/// What comes before a key comes before every greater key.
pub proof fn lemma_extend_before(
    entries: Seq<(Seq<char>, Seq<char>)>,
    key: Seq<char>,
    value: Option<Seq<char>>,
    next: Seq<char>,
)
    requires
        all_before(entries, key),
        key_before(key, next),
    ensures
        all_before(entries + entry_if_set(key, value), next),
{
    let longer = entries + entry_if_set(key, value);
    assert forall|i: int| 0 <= i < longer.len() implies key_before(
        (#[trigger] longer[i]).0,
        next,
    ) by {
        if i < entries.len() {
            assert(longer[i] == entries[i]);
            lemma_before_transitive(
                encode_utf8(entries[i].0),
                encode_utf8(key),
                encode_utf8(next),
            );
        } else {
            assert(longer[i].0 == key);
        }
    }
}

struct Entry {
    key: String,
    value: String,
}

/// The parameters of a request: string values under string keys, each key
/// once, kept in the order of the keys.
pub struct Params {
    entries: Vec<Entry>,
}

impl View for Params {
    type V = Seq<(Seq<char>, Seq<char>)>;

    /// The entries as pairs of key and value, in the order of their keys.
    closed spec fn view(&self) -> Seq<(Seq<char>, Seq<char>)> {
        Seq::new(self.entries@.len(), |i: int| (self.entries@[i].key@, self.entries@[i].value@))
    }
}

impl Params {
    /// What holds of every value of this type: its entries are in the order
    /// of their keys.
    #[verifier::type_invariant]
    pub open spec fn ordered(&self) -> bool {
        strictly_ordered(self@)
    }

    /// The empty mapping.
    pub fn new() -> (r: Params)
        ensures
            r@ == Seq::<(Seq<char>, Seq<char>)>::empty(),
    {
        let r = Params { entries: Vec::new() };
        assert(r@ =~= Seq::empty());
        r
    }

    /// The number of entries.
    pub fn len(&self) -> (n: usize)
        ensures
            n == self@.len(),
    {
        self.entries.len()
    }

    /// Whether there is no entry.
    pub fn is_empty(&self) -> (r: bool)
        ensures
            r == (self@.len() == 0),
    {
        self.entries.len() == 0
    }

    /// The key of the entry at place `i` in the order of keys.
    pub fn key(&self, i: usize) -> (r: &str)
        requires
            i < self@.len(),
        ensures
            r@ == self@[i as int].0,
    {
        self.entries[i].key.as_str()
    }

    /// The value of the entry at place `i` in the order of keys.
    pub fn value(&self, i: usize) -> (r: &str)
        requires
            i < self@.len(),
        ensures
            r@ == self@[i as int].1,
    {
        self.entries[i].value.as_str()
    }

    /// The place of `key` among the entries, and whether an entry has it: the
    /// entries before that place have smaller keys, those from it on greater
    /// ones, but for the entry that has the key itself.
    fn place(&self, key: &str) -> (r: (usize, bool))
        ensures
            r.0 <= self@.len(),
            forall|j: int| 0 <= j < r.0 ==> key_before((#[trigger] self@[j]).0, key@),
            r.1 ==> r.0 < self@.len() && self@[r.0 as int].0 == key@,
            !r.1 ==> forall|j: int|
                r.0 <= j < self@.len() ==> key_before(key@, (#[trigger] self@[j]).0),
    {
        proof {
            use_type_invariant(self);
        }
        let n = self.entries.len();
        let mut i: usize = 0;
        while i < n
            invariant
                i <= n,
                n == self@.len(),
                n == self.entries@.len(),
                strictly_ordered(self@),
                forall|j: int| 0 <= j < i ==> key_before((#[trigger] self@[j]).0, key@),
            decreases n - i,
        {
            match compare_keys(self.entries[i].key.as_str(), key) {
                KeyOrder::Before => {
                    i += 1;
                },
                KeyOrder::Same => {
                    return (i, true);
                },
                KeyOrder::After => {
                    proof {
                        assert forall|j: int| i <= j < self@.len() implies key_before(
                            key@,
                            (#[trigger] self@[j]).0,
                        ) by {
                            if i < j {
                                assert(key_before(self@[i as int].0, self@[j].0));
                                lemma_before_transitive(
                                    encode_utf8(key@),
                                    encode_utf8(self@[i as int].0),
                                    encode_utf8(self@[j].0),
                                );
                            }
                        }
                    }
                    return (i, false);
                },
            }
        }
        (i, false)
    }

    /// Sets the value under `key`, in place of the one that was there if the
    /// key had an entry.
    pub fn insert(&mut self, key: &str, value: &str)
        ensures
            strictly_ordered(final(self)@),
            mapping(final(self)@) == mapping(old(self)@).insert(key@, value@),
            final(self)@.len() == if has_key(old(self)@, key@) {
                old(self)@.len()
            } else {
                old(self)@.len() + 1
            },
    {
        proof {
            use_type_invariant(&*self);
        }
        let (at, found) = self.place(key);
        let entry = Entry { key: key.to_owned(), value: value.to_owned() };
        let mut entries: Vec<Entry> = Vec::new();
        assert(Params { entries }@ =~= Seq::empty());
        std::mem::swap(&mut self.entries, &mut entries);
        if found {
            entries.set(at, entry);
        } else {
            entries.insert(at, entry);
        }
        proof {
            let after = Params { entries }@;
            if found {
                lemma_replace_at(old(self)@, at as int, value@);
                assert(after =~= old(self)@.update(at as int, (key@, value@)));
                assert(old(self)@[at as int].0 == key@);
            } else {
                lemma_insert_at(old(self)@, at as int, key@, value@);
                assert(after =~= old(self)@.insert(at as int, (key@, value@)));
                lemma_before_irreflexive(encode_utf8(key@));
                assert(!has_key(old(self)@, key@)) by {
                    if has_key(old(self)@, key@) {
                        let i = choose|i: int|
                            0 <= i < old(self)@.len() && (#[trigger] old(self)@[i]).0 == key@;
                        if i < at {
                            assert(key_before(old(self)@[i].0, key@));
                        } else {
                            assert(key_before(key@, old(self)@[i].0));
                        }
                    }
                }
            }
        }
        self.entries = entries;
    }
}

} // verus!
