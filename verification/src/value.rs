//! Field values.

use std::borrow::Cow;
use vstd::prelude::*;

#[allow(unused_imports)]
use crate::outside::json_number;
use crate::outside::{number_from_i64, number_from_u64};
#[allow(unused_imports)]
use crate::sorted_map::{in_order, key_before, lemma_entry_is_smaller};
use crate::sorted_map::SortedMap;
use crate::text::clone_cow;

verus! {

/// A value with no values.
#[derive(Clone, Copy, Debug, PartialEq)]
pub enum Never {
    Impossible(std::convert::Infallible),
}

/// The value of a field. There is no null, since a field that is null counts as
/// absent, and there are no arrays.
#[derive(Debug, PartialEq, Eq)]
pub enum Value {
    Bool(bool),
    Number(serde_json::Number),
    String(Cow<'static, str>),
    Object(SortedMap<Value>),
}

/// What a value stands for.
#[verifier::ext_equal]
pub enum ValueView {
    Bool(bool),
    Number(serde_json::Number),
    Text(Seq<char>),
    Object(Seq<(Seq<char>, ValueView)>),
}

/// What `v` stands for.
pub open spec fn value_view(v: Value) -> ValueView
    decreases v,
{
    match v {
        Value::Bool(b) => ValueView::Bool(b),
        Value::Number(n) => ValueView::Number(n),
        Value::String(s) => ValueView::Text(s@),
        Value::Object(map) => {
            proof {
                assert forall|i: int| 0 <= i < map@.len() implies #[trigger] decreases_to!(
                    map => map@[i].1
                ) by {
                    lemma_entry_is_smaller(map, i);
                }
            }
            ValueView::Object(
                Seq::new(
                    map@.len(),
                    |i: int|
                        if 0 <= i < map@.len() {
                            (map@[i].0@, value_view(map@[i].1))
                        } else {
                            arbitrary()
                        },
                ),
            )
        },
    }
}

impl View for Value {
    type V = ValueView;

    open spec fn view(&self) -> ValueView {
        value_view(*self)
    }
}

impl ValueView {
    /// In every object, at any depth, keys stand in order, each once.
    pub open spec fn wf(self) -> bool
        decreases self,
    {
        self matches ValueView::Object(entries) ==> {
            &&& forall|i: int, j: int|
                0 <= i < j < entries.len() ==> key_before(
                    (#[trigger] entries[i]).0,
                    (#[trigger] entries[j]).0,
                )
            &&& forall|i: int| 0 <= i < entries.len() ==> (#[trigger] entries[i]).1.wf()
        }
    }
}

impl Clone for Value {
    /// A copy that stands for the same.
    fn clone(&self) -> (r: Self)
        ensures
            r@ == self@,
            r@.wf(),
        decreases self,
    {
        match self {
            Value::Bool(b) => Value::Bool(*b),
            Value::Number(n) => Value::Number(n.clone()),
            Value::String(s) => Value::String(clone_cow(s)),
            Value::Object(map) => Value::object_copy(map),
        }
    }
}

impl Value {
    /// An object with a copy of the entries of `map`.
    pub fn object_copy(map: &SortedMap<Value>) -> (r: Value)
        ensures
            r@ == Value::Object(*map)@,
            r@.wf(),
        decreases map,
    {
        let source = map.entries();
        let mut entries: Vec<(String, Value)> = Vec::new();
        let mut i: usize = 0;
        while i < source.len()
            invariant
                i <= source@.len(),
                source@ == map@,
                entries@.len() == i,
                forall|j: int|
                    0 <= j < i ==> (#[trigger] entries@[j]).0@ == source@[j].0@
                        && entries@[j].1@ == source@[j].1@ && entries@[j].1@.wf(),
            decreases source@.len() - i,
        {
            proof {
                lemma_entry_is_smaller(*map, i as int);
            }
            let value = source[i].1.clone();
            entries.push((source[i].0.clone(), value));
            i += 1;
        }
        assert(in_order(entries@)) by {
            assert forall|i: int, j: int| 0 <= i < j < entries@.len() implies key_before(
                (#[trigger] entries@[i]).0@,
                (#[trigger] entries@[j]).0@,
            ) by {
                assert(key_before(source@[i].0@, source@[j].0@));
            }
        }
        let r = Value::Object(SortedMap::from_ordered(entries));
        assert(r@->Object_0 =~= Value::Object(*map)@->Object_0);
        assert(r@.wf()) by {
            let view = r@->Object_0;
            assert forall|i: int, j: int| 0 <= i < j < view.len() implies key_before(
                (#[trigger] view[i]).0,
                (#[trigger] view[j]).0,
            ) by {
                assert(key_before(entries@[i].0@, entries@[j].0@));
            }
            assert forall|i: int| 0 <= i < view.len() implies (#[trigger] view[i]).1.wf() by {
                assert(entries@[i].1@.wf());
            }
        }
        r
    }

    /// The value of a floating-point number: `number` if it can be written as a
    /// JSON number, and otherwise, for an infinity or a NaN, its text.
    pub fn from_float(number: Option<serde_json::Number>, text: String) -> (r: Value)
        ensures
            r == match number {
                Some(n) => Value::Number(n),
                None => Value::String(Cow::Owned(text)),
            },
    {
        match number {
            Some(n) => Value::Number(n),
            None => Value::String(Cow::Owned(text)),
        }
    }
}

impl From<bool> for Value {
    fn from(value: bool) -> (r: Self) {
        Value::Bool(value)
    }
}

impl vstd::std_specs::convert::FromSpecImpl<bool> for Value {
    open spec fn obeys_from_spec() -> bool {
        true
    }

    open spec fn from_spec(value: bool) -> Self {
        Value::Bool(value)
    }
}

impl From<i8> for Value {
    fn from(n: i8) -> (r: Self) {
        Value::Number(number_from_i64(n as i64))
    }
}

impl vstd::std_specs::convert::FromSpecImpl<i8> for Value {
    open spec fn obeys_from_spec() -> bool {
        true
    }

    open spec fn from_spec(n: i8) -> Self {
        Value::Number(json_number(n as int))
    }
}

impl From<i16> for Value {
    fn from(n: i16) -> (r: Self) {
        Value::Number(number_from_i64(n as i64))
    }
}

impl vstd::std_specs::convert::FromSpecImpl<i16> for Value {
    open spec fn obeys_from_spec() -> bool {
        true
    }

    open spec fn from_spec(n: i16) -> Self {
        Value::Number(json_number(n as int))
    }
}

impl From<i32> for Value {
    fn from(n: i32) -> (r: Self) {
        Value::Number(number_from_i64(n as i64))
    }
}

impl vstd::std_specs::convert::FromSpecImpl<i32> for Value {
    open spec fn obeys_from_spec() -> bool {
        true
    }

    open spec fn from_spec(n: i32) -> Self {
        Value::Number(json_number(n as int))
    }
}

impl From<i64> for Value {
    fn from(n: i64) -> (r: Self) {
        Value::Number(number_from_i64(n))
    }
}

impl vstd::std_specs::convert::FromSpecImpl<i64> for Value {
    open spec fn obeys_from_spec() -> bool {
        true
    }

    open spec fn from_spec(n: i64) -> Self {
        Value::Number(json_number(n as int))
    }
}

impl From<isize> for Value {
    fn from(n: isize) -> (r: Self) {
        Value::Number(number_from_i64(n as i64))
    }
}

impl vstd::std_specs::convert::FromSpecImpl<isize> for Value {
    open spec fn obeys_from_spec() -> bool {
        true
    }

    open spec fn from_spec(n: isize) -> Self {
        Value::Number(json_number(n as int))
    }
}

impl From<u8> for Value {
    fn from(n: u8) -> (r: Self) {
        Value::Number(number_from_u64(n as u64))
    }
}

impl vstd::std_specs::convert::FromSpecImpl<u8> for Value {
    open spec fn obeys_from_spec() -> bool {
        true
    }

    open spec fn from_spec(n: u8) -> Self {
        Value::Number(json_number(n as int))
    }
}

impl From<u16> for Value {
    fn from(n: u16) -> (r: Self) {
        Value::Number(number_from_u64(n as u64))
    }
}

impl vstd::std_specs::convert::FromSpecImpl<u16> for Value {
    open spec fn obeys_from_spec() -> bool {
        true
    }

    open spec fn from_spec(n: u16) -> Self {
        Value::Number(json_number(n as int))
    }
}

impl From<u32> for Value {
    fn from(n: u32) -> (r: Self) {
        Value::Number(number_from_u64(n as u64))
    }
}

impl vstd::std_specs::convert::FromSpecImpl<u32> for Value {
    open spec fn obeys_from_spec() -> bool {
        true
    }

    open spec fn from_spec(n: u32) -> Self {
        Value::Number(json_number(n as int))
    }
}

impl From<u64> for Value {
    fn from(n: u64) -> (r: Self) {
        Value::Number(number_from_u64(n))
    }
}

impl vstd::std_specs::convert::FromSpecImpl<u64> for Value {
    open spec fn obeys_from_spec() -> bool {
        true
    }

    open spec fn from_spec(n: u64) -> Self {
        Value::Number(json_number(n as int))
    }
}

impl From<usize> for Value {
    fn from(n: usize) -> (r: Self) {
        Value::Number(number_from_u64(n as u64))
    }
}

impl vstd::std_specs::convert::FromSpecImpl<usize> for Value {
    open spec fn obeys_from_spec() -> bool {
        true
    }

    open spec fn from_spec(n: usize) -> Self {
        Value::Number(json_number(n as int))
    }
}

impl From<String> for Value {
    fn from(f: String) -> (r: Self) {
        Value::String(Cow::Owned(f))
    }
}

impl vstd::std_specs::convert::FromSpecImpl<String> for Value {
    open spec fn obeys_from_spec() -> bool {
        true
    }

    open spec fn from_spec(f: String) -> Self {
        Value::String(Cow::Owned(f))
    }
}

impl From<&str> for Value {
    /// An owned copy of the text.
    fn from(f: &str) -> (r: Self)
        ensures
            r matches Value::String(Cow::Owned(s)) && s@ == f@,
    {
        Value::String(Cow::Owned(f.to_owned()))
    }
}

impl vstd::std_specs::convert::FromSpecImpl<&str> for Value {
    open spec fn obeys_from_spec() -> bool {
        false
    }

    open spec fn from_spec(f: &str) -> Self {
        arbitrary()
    }
}

impl From<Cow<'static, str>> for Value {
    fn from(f: Cow<'static, str>) -> (r: Self) {
        Value::String(f)
    }
}

impl vstd::std_specs::convert::FromSpecImpl<Cow<'static, str>> for Value {
    open spec fn obeys_from_spec() -> bool {
        true
    }

    open spec fn from_spec(f: Cow<'static, str>) -> Self {
        Value::String(f)
    }
}

impl From<serde_json::Number> for Value {
    fn from(f: serde_json::Number) -> (r: Self) {
        Value::Number(f)
    }
}

impl vstd::std_specs::convert::FromSpecImpl<serde_json::Number> for Value {
    open spec fn obeys_from_spec() -> bool {
        true
    }

    open spec fn from_spec(f: serde_json::Number) -> Self {
        Value::Number(f)
    }
}

/// The width of an integer's type leaves no trace: a signed and an unsigned
/// integer that are equal become the same value.
pub proof fn law_integer_width_leaves_no_trace(a: i64, b: u64)
    requires
        a == b,
    ensures
        <Value as vstd::std_specs::convert::FromSpec<i64>>::from_spec(a)
            == <Value as vstd::std_specs::convert::FromSpec<u64>>::from_spec(b),
{
}

} // verus!
