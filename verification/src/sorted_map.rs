//! A map with text keys that is kept in the order of its keys.

use vstd::prelude::*;
#[allow(unused_imports)]
use vstd::utf8::encode_utf8;

verus! {

/// Lexicographic order of byte strings.
pub open spec fn bytes_before(a: Seq<u8>, b: Seq<u8>) -> bool
    decreases a.len(),
{
    if b.len() == 0 {
        false
    } else if a.len() == 0 {
        true
    } else if a[0] != b[0] {
        a[0] < b[0]
    } else {
        bytes_before(a.skip(1), b.skip(1))
    }
}

/// The order of texts: that of their UTF-8 bytes.
pub open spec fn key_before(a: Seq<char>, b: Seq<char>) -> bool {
    bytes_before(encode_utf8(a), encode_utf8(b))
}

/// The map that these entries spell.
pub open spec fn dict<V>(entries: Seq<(String, V)>) -> Map<Seq<char>, V>
    decreases entries.len(),
{
    if entries.len() == 0 {
        Map::empty()
    } else {
        dict(entries.drop_last()).insert(entries.last().0@, entries.last().1)
    }
}

/// Keys stand in order, each once.
pub open spec fn in_order<V>(entries: Seq<(String, V)>) -> bool {
    forall|i: int, j: int|
        0 <= i < j < entries.len() ==> key_before(
            (#[trigger] entries[i]).0@,
            (#[trigger] entries[j]).0@,
        )
}

/// A map from texts to values. Its entries stand in the order of their keys, and
/// no key occurs twice.
#[derive(Debug, PartialEq, Eq)]
pub struct SortedMap<V> {
    entries: Vec<(String, V)>,
}

impl<V> View for SortedMap<V> {
    type V = Seq<(String, V)>;

    /// The entries, in order.
    closed spec fn view(&self) -> Seq<(String, V)> {
        self.entries@
    }
}

impl<V> SortedMap<V> {
    /// Keys stand in order, each once, at any time.
    #[verifier::type_invariant]
    spec fn inv(self) -> bool {
        in_order(self.entries@)
    }

    /// Keys stand in order, each once.
    pub open spec fn wf(self) -> bool {
        in_order(self@)
    }
}

impl<V: Clone> Clone for SortedMap<V> {
    /// A map with the same keys, each with a clone of its value.
    fn clone(&self) -> (r: Self)
        ensures
            r@.len() == self@.len(),
            forall|i: int|
                0 <= i < self@.len() ==> (#[trigger] r@[i]).0@ == self@[i].0@ && cloned(
                    self@[i].1,
                    r@[i].1,
                ),
    {
        proof {
            use_type_invariant(self);
        }
        let mut entries: Vec<(String, V)> = Vec::new();
        let mut i: usize = 0;
        while i < self.entries.len()
            invariant
                i <= self.entries@.len(),
                entries@.len() == i,
                forall|j: int|
                    0 <= j < i ==> (#[trigger] entries@[j]).0@ == self.entries@[j].0@ && cloned(
                        self.entries@[j].1,
                        entries@[j].1,
                    ),
            decreases self.entries@.len() - i,
        {
            entries.push((self.entries[i].0.clone(), self.entries[i].1.clone()));
            i += 1;
        }
        assert(in_order(entries@)) by {
            assert forall|i: int, j: int| 0 <= i < j < entries@.len() implies key_before(
                (#[trigger] entries@[i]).0@,
                (#[trigger] entries@[j]).0@,
            ) by {
                assert(key_before(self.entries@[i].0@, self.entries@[j].0@));
            }
        }
        SortedMap { entries }
    }
}

/// Entries are smaller than the map that holds them, for recursion over maps of
/// maps.
pub proof fn lemma_entry_is_smaller<V>(map: SortedMap<V>, i: int)
    requires
        0 <= i < map@.len(),
    ensures
        decreases_to!(map => map@[i].1),
{
    let entries = map.entries;
    assert(decreases_to!(map => entries));
    assert(decreases_to!(entries => entries@));
    assert(decreases_to!(entries@ => entries@[i]));
    assert(decreases_to!(entries@[i] => entries@[i].1));
}

proof fn lemma_before_irreflexive(a: Seq<u8>)
    ensures
        !bytes_before(a, a),
    decreases a.len(),
{
    if a.len() > 0 {
        lemma_before_irreflexive(a.skip(1));
    }
}

proof fn lemma_before_transitive(a: Seq<u8>, b: Seq<u8>, c: Seq<u8>)
    requires
        bytes_before(a, b),
        bytes_before(b, c),
    ensures
        bytes_before(a, c),
    decreases a.len(),
{
    if a.len() > 0 && a[0] == b[0] && b[0] == c[0] {
        lemma_before_transitive(a.skip(1), b.skip(1), c.skip(1));
    }
}

proof fn lemma_before_total(a: Seq<u8>, b: Seq<u8>)
    ensures
        a == b || bytes_before(a, b) || bytes_before(b, a),
    decreases a.len(),
{
    if a.len() > 0 && b.len() > 0 && a[0] == b[0] {
        lemma_before_total(a.skip(1), b.skip(1));
        if a.skip(1) == b.skip(1) {
            assert forall|i: int| 0 <= i < a.len() implies a[i] == b[i] by {
                if i > 0 {
                    assert(a.skip(1)[i - 1] == b.skip(1)[i - 1]);
                }
            }
            assert(a.skip(1).len() == b.skip(1).len());
            assert(a =~= b);
        }
    } else if a.len() == 0 && b.len() == 0 {
        assert(a =~= b);
    }
}

/// The order of keys is strict and total: of two different keys exactly one
/// stands before the other.
pub proof fn law_key_order(a: Seq<char>, b: Seq<char>, c: Seq<char>)
    ensures
        !key_before(a, a),
        a != b ==> key_before(a, b) || key_before(b, a),
        !(key_before(a, b) && key_before(b, a)),
        key_before(a, b) && key_before(b, c) ==> key_before(a, c),
{
    let (x, y, z) = (encode_utf8(a), encode_utf8(b), encode_utf8(c));
    vstd::utf8::encode_utf8_decode_utf8(a);
    vstd::utf8::encode_utf8_decode_utf8(b);
    lemma_before_irreflexive(x);
    lemma_before_total(x, y);
    if bytes_before(x, y) && bytes_before(y, x) {
        lemma_before_transitive(x, y, x);
    }
    if bytes_before(x, y) && bytes_before(y, z) {
        lemma_before_transitive(x, y, z);
    }
}

/// Whether one text stands before the other.
fn is_before(a: &str, b: &str) -> (r: bool)
    ensures
        r == key_before(a@, b@),
{
    let x: &[u8] = a.as_bytes();
    let y: &[u8] = b.as_bytes();
    let mut i: usize = 0;
    assert(x@.skip(0) =~= x@ && y@.skip(0) =~= y@);
    while i < x.len() && i < y.len() && x[i] == y[i]
        invariant
            i <= x@.len(),
            i <= y@.len(),
            bytes_before(x@, y@) == bytes_before(x@.skip(i as int), y@.skip(i as int)),
        decreases x@.len() - i,
    {
        assert(x@.skip(i as int).skip(1) =~= x@.skip(i as int + 1));
        assert(y@.skip(i as int).skip(1) =~= y@.skip(i as int + 1));
        i += 1;
    }
    if i == y.len() {
        false
    } else if i == x.len() {
        true
    } else {
        x[i] < y[i]
    }
}

proof fn lemma_dict<V>(entries: Seq<(String, V)>)
    requires
        in_order(entries),
    ensures
        forall|i: int|
            0 <= i < entries.len() ==> dict(entries).contains_pair(
                (#[trigger] entries[i]).0@,
                entries[i].1,
            ),
        forall|k: Seq<char>|
            #[trigger] dict(entries).contains_key(k) ==> exists|i: int|
                0 <= i < entries.len() && (#[trigger] entries[i]).0@ == k,
    decreases entries.len(),
{
    if entries.len() > 0 {
        let init = entries.drop_last();
        lemma_dict(init);
        assert forall|i: int| 0 <= i < entries.len() implies dict(entries).contains_pair(
            (#[trigger] entries[i]).0@,
            entries[i].1,
        ) by {
            if i < entries.len() - 1 {
                assert(init[i] == entries[i]);
                law_key_order(entries[i].0@, entries.last().0@, entries[i].0@);
            }
        }
        assert forall|k: Seq<char>| #[trigger] dict(entries).contains_key(k) implies exists|i: int|
            0 <= i < entries.len() && (#[trigger] entries[i]).0@ == k by {
            if k != entries.last().0@ {
                assert(dict(init).contains_key(k));
                let i = choose|i: int| 0 <= i < init.len() && (#[trigger] init[i]).0@ == k;
                assert(entries[i].0@ == k);
            } else {
                assert(entries[entries.len() - 1].0@ == k);
            }
        }
    }
}

impl<V> SortedMap<V> {
    /// A map without entries.
    pub fn new() -> (r: Self)
        ensures
            r@ == Seq::<(String, V)>::empty(),
            dict(r@) == Map::<Seq<char>, V>::empty(),
    {
        SortedMap { entries: Vec::new() }
    }

    /// The map with these entries, which stand in the order of their keys.
    pub(crate) fn from_ordered(entries: Vec<(String, V)>) -> (r: Self)
        requires
            in_order(entries@),
        ensures
            r@ == entries@,
    {
        SortedMap { entries }
    }

    /// The entries, in the order of their keys.
    pub fn entries(&self) -> (r: &[(String, V)])
        ensures
            r@ == self@,
            in_order(r@),
    {
        proof {
            use_type_invariant(self);
        }
        self.entries.as_slice()
    }

    /// The entries, in the order of their keys.
    pub fn into_entries(self) -> (r: Vec<(String, V)>)
        ensures
            r@ == self@,
            in_order(r@),
    {
        proof {
            use_type_invariant(&self);
        }
        self.entries
    }

    /// Maps `key` to `value`, in place of what it was mapped to before.
    pub fn insert(&mut self, key: String, value: V)
        ensures
            final(self).wf(),
            dict(final(self)@) == dict(old(self)@).insert(key@, value),
    {
        proof {
            use_type_invariant(&*self);
        }
        let mut entries: Vec<(String, V)> = Vec::new();
        std::mem::swap(&mut entries, &mut self.entries);
        let ghost before = entries@;
        let mut at: usize = 0;
        while at < entries.len() && is_before(entries[at].0.as_str(), key.as_str())
            invariant
                at <= entries@.len(),
                entries@ == before,
                forall|i: int| 0 <= i < at ==> key_before((#[trigger] entries@[i]).0@, key@),
            decreases entries@.len() - at,
        {
            at += 1;
        }
        let ghost text = key@;
        if at < entries.len() && entries[at].0 == key {
            entries.set(at, (key, value));
        } else {
            entries.insert(at, (key, value));
        }
        proof {
            let after = entries@;
            let gone: int = if after.len() == before.len() { 1 } else { 0 };
            assert forall|j: int| at + gone <= j < before.len() implies key_before(
                text,
                (#[trigger] before[j]).0@,
            ) by {
                law_key_order(text, before[at as int].0@, before[j].0@);
                if j > at {
                    assert(key_before(before[at as int].0@, before[j].0@));
                }
            }
            assert(in_order(after)) by {
                assert forall|i: int, j: int| 0 <= i < j < after.len() implies key_before(
                    (#[trigger] after[i]).0@,
                    (#[trigger] after[j]).0@,
                ) by {
                    let bi = if i < at { i } else { i - 1 + gone };
                    let bj = if j < at { j } else { j - 1 + gone };
                    if i != at {
                        assert(after[i] == before[bi]);
                    }
                    if j != at {
                        assert(after[j] == before[bj]);
                    }
                    if i != at && j != at {
                        assert(key_before(before[bi].0@, before[bj].0@));
                    }
                }
            }
            lemma_dict(before);
            lemma_dict(after);
            let want = dict(before).insert(text, value);
            assert forall|k: Seq<char>| dict(after).contains_key(k) == want.contains_key(k) by {
                if dict(after).contains_key(k) && k != text {
                    let i = choose|i: int| 0 <= i < after.len() && (#[trigger] after[i]).0@ == k;
                    let b = if i < at { i } else { i - 1 + gone };
                    assert(after[i] == before[b]);
                }
                if dict(before).contains_key(k) && k != text {
                    let b = choose|b: int| 0 <= b < before.len() && (#[trigger] before[b]).0@ == k;
                    let i = if b < at { b } else { b + 1 - gone };
                    assert(after[i] == before[b]);
                }
                assert(after[at as int].0@ == text);
            }
            assert forall|k: Seq<char>| #[trigger] want.contains_key(k) implies dict(after)[k]
                == want[k] by {
                let i = choose|i: int| 0 <= i < after.len() && (#[trigger] after[i]).0@ == k;
                assert(after[at as int].0@ == text);
                if k != text {
                    let b = if i < at { i } else { i - 1 + gone };
                    assert(after[i] == before[b]);
                } else {
                    assert(dict(after).contains_pair(after[at as int].0@, after[at as int].1));
                }
            }
            assert(dict(after) =~= want);
        }
        self.entries = entries;
    }
}

/// Two maps that hold the same values under the same keys have the same entries
/// in the same order.
pub proof fn law_entries_are_determined<V>(a: Seq<(String, V)>, b: Seq<(String, V)>)
    requires
        in_order(a),
        in_order(b),
        dict(a) == dict(b),
    ensures
        a.len() == b.len(),
        forall|i: int|
            0 <= i < a.len() ==> (#[trigger] a[i]).0@ == (#[trigger] b[i]).0@ && a[i].1 == b[i].1,
    decreases a.len(),
{
    lemma_dict(a);
    lemma_dict(b);
    if a.len() == 0 && b.len() > 0 {
        assert(dict(b).contains_key(b[0].0@));
    } else if a.len() > 0 && b.len() == 0 {
        assert(dict(a).contains_key(a[0].0@));
    } else if a.len() > 0 {
        let ka = a.last().0@;
        let kb = b.last().0@;
        assert(dict(a).contains_pair(a[a.len() - 1].0@, a[a.len() - 1].1));
        assert(dict(b).contains_pair(b[b.len() - 1].0@, b[b.len() - 1].1));
        assert(ka == kb) by {
            let i = choose|i: int| 0 <= i < a.len() && (#[trigger] a[i]).0@ == kb;
            let j = choose|j: int| 0 <= j < b.len() && (#[trigger] b[j]).0@ == ka;
            assert(i < a.len() - 1 ==> key_before(a[i].0@, a[a.len() - 1].0@));
            assert(j < b.len() - 1 ==> key_before(b[j].0@, b[b.len() - 1].0@));
            law_key_order(ka, kb, ka);
        }
        lemma_dict_init(a);
        lemma_dict_init(b);
        law_entries_are_determined(a.drop_last(), b.drop_last());
        assert forall|i: int| 0 <= i < a.len() implies (#[trigger] a[i]).0@ == (
        #[trigger] b[i]).0@ && a[i].1 == b[i].1 by {
            if i < a.len() - 1 {
                assert(a.drop_last()[i] == a[i]);
                assert(b.drop_last()[i] == b[i]);
            }
        }
    }
}

proof fn lemma_dict_init<V>(entries: Seq<(String, V)>)
    requires
        in_order(entries),
        entries.len() > 0,
    ensures
        in_order(entries.drop_last()),
        dict(entries.drop_last()) == dict(entries).remove(entries.last().0@),
{
    let init = entries.drop_last();
    let last = entries.last().0@;
    assert(in_order(init)) by {
        assert forall|i: int, j: int| 0 <= i < j < init.len() implies key_before(
            (#[trigger] init[i]).0@,
            (#[trigger] init[j]).0@,
        ) by {
            assert(key_before(entries[i].0@, entries[j].0@));
        }
    }
    lemma_dict(init);
    if dict(init).contains_key(last) {
        let i = choose|i: int| 0 <= i < init.len() && (#[trigger] init[i]).0@ == last;
        assert(key_before(entries[i].0@, entries[entries.len() - 1].0@));
        law_key_order(last, last, last);
    }
    assert(dict(init) =~= dict(entries).remove(last));
}

} // verus!
