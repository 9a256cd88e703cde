//! Field values and sorted maps.

use std::borrow::Cow;

use serde_json::Number;
use tracing_axiom::sorted_map::SortedMap;
use tracing_axiom::value::Value;

#[test]
fn integers_of_every_width_become_numbers() {
    assert_eq!(Value::from(-5i8), Value::Number(Number::from(-5)));
    assert_eq!(Value::from(i8::MIN), Value::Number(Number::from(-128)));
    assert_eq!(Value::from(-300i16), Value::Number(Number::from(-300)));
    assert_eq!(Value::from(-70_000i32), Value::Number(Number::from(-70_000)));
    assert_eq!(Value::from(i64::MIN), Value::Number(Number::from(i64::MIN)));
    assert_eq!(Value::from(-1isize), Value::Number(Number::from(-1)));
    assert_eq!(Value::from(200u8), Value::Number(Number::from(200)));
    assert_eq!(Value::from(60_000u16), Value::Number(Number::from(60_000)));
    assert_eq!(Value::from(4_000_000_000u32), Value::Number(Number::from(4_000_000_000u64)));
    assert_eq!(Value::from(u64::MAX), Value::Number(Number::from(u64::MAX)));
    assert_eq!(Value::from(7usize), Value::Number(Number::from(7)));
}

#[test]
fn integer_width_leaves_no_trace() {
    assert_eq!(Value::from(7i8), Value::from(7u64));
    assert_eq!(Value::from(i64::MAX), Value::from(i64::MAX as u64));
    assert_ne!(Value::from(-1i64), Value::from(u64::MAX));
}

#[test]
fn texts_keep_being_borrowed_or_owned() {
    assert!(matches!(Value::from("abc"), Value::String(Cow::Owned(s)) if s == "abc"));
    assert!(matches!(Value::from(String::from("x")), Value::String(Cow::Owned(s)) if s == "x"));
    assert!(matches!(
        Value::from(Cow::Borrowed("static")),
        Value::String(Cow::Borrowed("static"))
    ));
}

#[test]
fn booleans_and_numbers_are_wrapped() {
    assert_eq!(Value::from(true), Value::Bool(true));
    assert_eq!(Value::from(false), Value::Bool(false));
    let n = Number::from(7);
    assert_eq!(Value::from(n.clone()), Value::Number(n));
}

#[test]
fn floats_become_numbers_where_json_has_them() {
    let half = Number::from_f64(0.5);
    assert_eq!(
        Value::from_float(half.clone(), format!("{}", 0.5f64)),
        Value::Number(half.unwrap())
    );
    for f in [f64::INFINITY, f64::NEG_INFINITY, f64::NAN] {
        let text = format!("{}", f);
        assert_eq!(
            Value::from_float(Number::from_f64(f), text.clone()),
            Value::String(Cow::Owned(text))
        );
    }
}

fn nested() -> Value {
    let mut inner = SortedMap::new();
    inner.insert(String::from("n"), Value::from(1u8));
    let mut outer = SortedMap::new();
    outer.insert(String::from("z"), Value::Object(inner));
    outer.insert(String::from("a"), Value::from("text"));
    outer.insert(String::from("b"), Value::from(true));
    Value::Object(outer)
}

#[test]
fn clone_is_equal() {
    let value = nested();
    assert_eq!(value.clone(), value);
    assert!(matches!(
        Value::from(Cow::Borrowed("s")).clone(),
        Value::String(Cow::Borrowed("s"))
    ));
}

fn keys(map: &SortedMap<u32>) -> Vec<&str> {
    map.entries().iter().map(|(k, _)| k.as_str()).collect()
}

#[test]
fn keys_stand_in_byte_order() {
    let mut map = SortedMap::new();
    for (i, key) in ["b", "", "a", "ab", "\u{e9}", "B", "aa", "\u{1f600}"].iter().enumerate() {
        map.insert(String::from(*key), i as u32);
    }
    let mut expected = vec!["b", "", "a", "ab", "\u{e9}", "B", "aa", "\u{1f600}"];
    expected.sort();
    assert_eq!(keys(&map), expected);
}

#[test]
fn inserting_again_replaces_the_value() {
    let mut map = SortedMap::new();
    map.insert(String::from("k"), 1);
    map.insert(String::from("l"), 2);
    map.insert(String::from("k"), 3);
    assert_eq!(keys(&map), vec!["k", "l"]);
    assert_eq!(map.entries()[0].1, 3);
    assert_eq!(map.entries()[1].1, 2);
}

#[test]
fn entries_survive_cloning_and_taking_apart() {
    let mut map = SortedMap::new();
    map.insert(String::from("l"), 2);
    map.insert(String::from("k"), 1);
    assert_eq!(map.clone(), map);
    assert_eq!(map.into_entries(), vec![(String::from("k"), 1), (String::from("l"), 2)]);
}

#[test]
fn order_of_insertion_leaves_no_trace() {
    let mut a = SortedMap::new();
    let mut b = SortedMap::new();
    for i in 0..20u32 {
        a.insert(format!("key{}", i), i);
        b.insert(format!("key{}", 19 - i), 19 - i);
    }
    assert_eq!(a, b);
}
