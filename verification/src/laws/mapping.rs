//! Field values, and maps that keep their keys in order.

use std::borrow::Cow;
use vstd::prelude::*;
#[allow(unused_imports)]
use vstd::std_specs::convert::FromSpec;
#[allow(unused_imports)]
use vstd::utf8::encode_utf8;

#[allow(unused_imports)]
use crate::outside::json_number;
#[allow(unused_imports)]
use crate::sorted_map::{bytes_before, dict, in_order, key_before, SortedMap};
#[allow(unused_imports)]
use crate::value::Value;

verus! {

/// Some entry has this key and this value.
pub open spec fn maps<V>(entries: Seq<(String, V)>, key: Seq<char>, value: V) -> bool {
    exists|i: int| 0 <= i < entries.len() && (#[trigger] entries[i]).0@ == key && entries[i].1
        == value
}

proof fn lemma_before(a: Seq<u8>, b: Seq<u8>, k: int)
    requires
        0 <= k < b.len(),
        k <= a.len(),
        forall|i: int| 0 <= i < k ==> #[trigger] a[i] == b[i],
        k < a.len() ==> a[k] < b[k],
    ensures
        bytes_before(a, b),
    decreases k,
{
    if k > 0 {
        assert(a[0] == b[0]);
        let (x, y) = (a.skip(1), b.skip(1));
        assert forall|i: int| 0 <= i < k - 1 implies #[trigger] x[i] == y[i] by {
            assert(a[i + 1] == b[i + 1]);
        }
        lemma_before(x, y, k - 1);
    }
}

/// The first byte in which the UTF-8 forms of two keys differ decides their
/// order, and a key stands before all that only continue it.
pub proof fn law_first_difference_decides(a: Seq<char>, b: Seq<char>, k: int)
    requires
        0 <= k < encode_utf8(b).len(),
        k <= encode_utf8(a).len(),
        forall|i: int| 0 <= i < k ==> #[trigger] encode_utf8(a)[i] == encode_utf8(b)[i],
        k < encode_utf8(a).len() ==> encode_utf8(a)[k] < encode_utf8(b)[k],
    ensures
        key_before(a, b),
        !key_before(b, a),
{
    lemma_before(encode_utf8(a), encode_utf8(b), k);
    crate::sorted_map::law_key_order(a, b, a);
}

proof fn lemma_dict_entries<V>(entries: Seq<(String, V)>, key: Seq<char>, value: V)
    requires
        in_order(entries),
    ensures
        dict(entries).contains_pair(key, value) <==> maps(entries, key, value),
    decreases entries.len(),
{
    if entries.len() > 0 {
        let init = entries.drop_last();
        let last = entries[entries.len() - 1];
        assert(in_order(init)) by {
            assert forall|i: int, j: int| 0 <= i < j < init.len() implies key_before(
                (#[trigger] init[i]).0@,
                (#[trigger] init[j]).0@,
            ) by {
                assert(key_before(entries[i].0@, entries[j].0@));
            }
        }
        lemma_dict_entries(init, key, value);
        if maps(entries, key, value) {
            let i = choose|i: int|
                0 <= i < entries.len() && (#[trigger] entries[i]).0@ == key && entries[i].1
                    == value;
            if i < entries.len() - 1 {
                assert(init[i] == entries[i]);
                assert(key_before(entries[i].0@, last.0@));
                crate::sorted_map::law_key_order(key, key, key);
            }
        }
        if dict(entries).contains_pair(key, value) {
            if key == last.0@ {
                assert(entries[entries.len() - 1].0@ == key);
            } else {
                assert(maps(init, key, value));
                let i = choose|i: int|
                    0 <= i < init.len() && (#[trigger] init[i]).0@ == key && init[i].1 == value;
                assert(entries[i].0@ == key && entries[i].1 == value);
            }
        }
    }
}

/// A new map has no entry.
pub proof fn law_new_map_is_empty<V>(r: SortedMap<V>)
    requires
        call_ensures(SortedMap::<V>::new, (), r),
    ensures
        r@.len() == 0,
{
}

/// Inserting maps the key to the value and leaves every other key as it was; no
/// key occurs twice, and keys stand in order.
pub proof fn law_insert_changes_one_key<V>(
    map: &mut SortedMap<V>,
    key: String,
    value: V,
    k: Seq<char>,
    v: V,
)
    requires
        old(map).wf(),
        call_ensures(SortedMap::<V>::insert, (map, key, value), ()),
    ensures
        maps(final(map)@, key@, value),
        maps(final(map)@, k, v) <==> (k == key@ && v == value) || (k != key@ && maps(
            old(map)@,
            k,
            v,
        )),
        forall|i: int, j: int|
            0 <= i < j < final(map)@.len() ==> key_before(
                (#[trigger] final(map)@[i]).0@,
                (#[trigger] final(map)@[j]).0@,
            ),
{
    lemma_dict_entries(old(map)@, k, v);
    lemma_dict_entries(final(map)@, k, v);
    lemma_dict_entries(final(map)@, key@, value);
}

/// The entries that a map hands out are its own, all of them, in order.
pub proof fn law_entries_are_handed_out<V>(
    map: SortedMap<V>,
    r: &[(String, V)],
    own: Vec<(String, V)>,
)
    requires
        call_ensures(SortedMap::<V>::entries, (&map,), r),
        call_ensures(SortedMap::<V>::into_entries, (map,), own),
    ensures
        r@ == map@,
        own@ == map@,
        forall|i: int, j: int|
            0 <= i < j < map@.len() ==> key_before(
                (#[trigger] map@[i]).0@,
                (#[trigger] map@[j]).0@,
            ),
{
}

/// A cloned map has the same keys in the same order, each with a clone of its
/// value.
pub proof fn law_cloned_map<V: Clone>(map: SortedMap<V>, r: SortedMap<V>)
    requires
        call_ensures(<SortedMap<V> as Clone>::clone, (&map,), r),
    ensures
        r@.len() == map@.len(),
        forall|i: int|
            0 <= i < map@.len() ==> (#[trigger] r@[i]).0@ == map@[i].0@ && cloned(
                map@[i].1,
                r@[i].1,
            ),
{
}

/// Integers of every width become the JSON number of the same integer.
pub proof fn law_integers_become_their_number()
    ensures
        forall|n: i8| <Value as FromSpec<i8>>::from_spec(n) == Value::Number(json_number(n as int)),
        forall|n: i16|
            <Value as FromSpec<i16>>::from_spec(n) == Value::Number(json_number(n as int)),
        forall|n: i32|
            <Value as FromSpec<i32>>::from_spec(n) == Value::Number(json_number(n as int)),
        forall|n: i64|
            <Value as FromSpec<i64>>::from_spec(n) == Value::Number(json_number(n as int)),
        forall|n: isize|
            <Value as FromSpec<isize>>::from_spec(n) == Value::Number(json_number(n as int)),
        forall|n: u8| <Value as FromSpec<u8>>::from_spec(n) == Value::Number(json_number(n as int)),
        forall|n: u16|
            <Value as FromSpec<u16>>::from_spec(n) == Value::Number(json_number(n as int)),
        forall|n: u32|
            <Value as FromSpec<u32>>::from_spec(n) == Value::Number(json_number(n as int)),
        forall|n: u64|
            <Value as FromSpec<u64>>::from_spec(n) == Value::Number(json_number(n as int)),
        forall|n: usize|
            <Value as FromSpec<usize>>::from_spec(n) == Value::Number(json_number(n as int)),
        <Value as FromSpec<i8>>::obeys_from_spec(),
        <Value as FromSpec<i16>>::obeys_from_spec(),
        <Value as FromSpec<i32>>::obeys_from_spec(),
        <Value as FromSpec<i64>>::obeys_from_spec(),
        <Value as FromSpec<isize>>::obeys_from_spec(),
        <Value as FromSpec<u8>>::obeys_from_spec(),
        <Value as FromSpec<u16>>::obeys_from_spec(),
        <Value as FromSpec<u32>>::obeys_from_spec(),
        <Value as FromSpec<u64>>::obeys_from_spec(),
        <Value as FromSpec<usize>>::obeys_from_spec(),
{
}

/// A truth value becomes itself.
pub proof fn law_bool_becomes_itself(b: bool, r: Value)
    requires
        call_ensures(<Value as From<bool>>::from, (b,), r),
    ensures
        r == Value::Bool(b),
{
}

/// Texts become the same text, whoever owns them.
pub proof fn law_texts_become_themselves(
    owned: String,
    borrowed: &str,
    either: Cow<'static, str>,
    a: Value,
    b: Value,
    c: Value,
)
    requires
        call_ensures(<Value as From<String>>::from, (owned,), a),
        call_ensures(<Value as From<&str>>::from, (borrowed,), b),
        call_ensures(<Value as From<Cow<'static, str>>>::from, (either,), c),
    ensures
        a matches Value::String(s) && s@ == owned@,
        b matches Value::String(s) && s@ == borrowed@,
        c matches Value::String(s) && s@ == either@,
{
}

/// A JSON number becomes itself. A floating-point number becomes its JSON number
/// if it has one, and its text if it has none.
pub proof fn law_numbers_become_themselves(
    n: serde_json::Number,
    number: Option<serde_json::Number>,
    text: String,
    a: Value,
    b: Value,
)
    requires
        call_ensures(<Value as From<serde_json::Number>>::from, (n,), a),
        call_ensures(Value::from_float, (number, text), b),
    ensures
        a == Value::Number(n),
        number matches Some(x) ==> b == Value::Number(x),
        number is None ==> (b matches Value::String(s) && s@ == text@),
{
}

/// A copy of a map has the same keys in the same order, with values that stand
/// for the same.
pub proof fn law_copied_map(map: SortedMap<Value>, r: Value)
    requires
        call_ensures(Value::object_copy, (&map,), r),
    ensures
        r matches Value::Object(m) && m@.len() == map@.len() && forall|i: int|
            0 <= i < map@.len() ==> (#[trigger] m@[i]).0@ == map@[i].0@ && m@[i].1@ == map@[i].1@,
{
    crate::laws::recording::law_view_tells_values_apart(Value::Object(map), r);
}

/// A cloned value is of the same kind and holds the same.
pub proof fn law_cloned_value(v: Value, r: Value)
    requires
        call_ensures(<Value as Clone>::clone, (&v,), r),
    ensures
        match v {
            Value::Bool(b) => r == Value::Bool(b),
            Value::Number(n) => r == Value::Number(n),
            Value::String(s) => r matches Value::String(t) && t@ == s@,
            Value::Object(x) => r matches Value::Object(y) && y@.len() == x@.len() && forall|i: int|
                0 <= i < x@.len() ==> (#[trigger] y@[i]).0@ == x@[i].0@ && y@[i].1@ == x@[i].1@,
        },
{
    crate::laws::recording::law_view_tells_values_apart(v, r);
}

} // verus!
