//! Events and the records that are sent for them.

use std::borrow::Cow;

use tracing_axiom::event::{
    BogusKind, Event, Fields, InexpressibleTime, Level, Record, SpanInfo, Timestamp,
};
use tracing_axiom::sorted_map::SortedMap;
use tracing_axiom::text::ser_hex;
use tracing_axiom::value::{Never, Value};

const NEW_YEAR_2019: Timestamp =
    Timestamp { unix_nanos: 1_546_300_800_000_000_000, offset_seconds: 0 };

fn data() -> SortedMap<Value> {
    let mut map = SortedMap::new();
    map.insert(String::from("value"), Value::from(42u8));
    map
}

fn log(time: Timestamp) -> Event<Never> {
    Event::Log {
        message: Some(Cow::Borrowed("start")),
        module: Some(Cow::Borrowed("app::main")),
        target: Cow::Borrowed("app"),
        level: Level::Info,
        name: Cow::Borrowed("event main.rs:1"),
        data: data(),
        time,
        trace_id: Some([0xab; 16]),
        parent_span_id: Some([0x01; 8]),
        kind: BogusKind,
    }
}

fn fields<X>(event: &Event<X>) -> Fields {
    match event.record("svc") {
        Ok(Record::Fields(fields)) => fields,
        Ok(Record::Extra { .. }) => panic!("extra"),
        Err(e) => panic!("{:?}", e),
    }
}

fn keys(fields: &Fields) -> Vec<&'static str> {
    fields.iter().map(|(k, _)| *k).collect()
}

fn get<'a>(fields: &'a Fields, key: &str) -> &'a Value {
    &fields.iter().find(|(k, _)| *k == key).unwrap().1
}

fn service() -> Value {
    let mut map = SortedMap::new();
    map.insert(String::from("name"), Value::from("svc"));
    Value::Object(map)
}

#[test]
fn full_log() {
    let fields = fields(&log(NEW_YEAR_2019));
    assert_eq!(
        keys(&fields),
        vec![
            "service",
            "message",
            "module_path",
            "target",
            "level",
            "name",
            "data",
            "_time",
            "trace_id",
            "parent_span_id",
            "kind"
        ]
    );
    assert_eq!(get(&fields, "service"), &service());
    assert_eq!(get(&fields, "message"), &Value::from("start"));
    assert_eq!(get(&fields, "module_path"), &Value::from("app::main"));
    assert_eq!(get(&fields, "target"), &Value::from("app"));
    assert_eq!(get(&fields, "level"), &Value::from("info"));
    assert_eq!(get(&fields, "name"), &Value::from("event main.rs:1"));
    assert_eq!(get(&fields, "data"), &Value::Object(data()));
    assert_eq!(get(&fields, "_time"), &Value::from("2019-01-01T00:00:00Z"));
    assert_eq!(get(&fields, "trace_id"), &Value::from("abababababababababababababababab"));
    assert_eq!(get(&fields, "parent_span_id"), &Value::from(ser_hex(&[0x01u8; 8])));
    assert_eq!(get(&fields, "kind"), &Value::from("server"));
}

#[test]
fn absent_parts_leave_no_field() {
    let event: Event<Never> = Event::Log {
        message: None,
        module: None,
        target: Cow::Borrowed("t"),
        level: Level::Error,
        name: Cow::Owned(String::from("n")),
        data: SortedMap::new(),
        time: NEW_YEAR_2019,
        trace_id: None,
        parent_span_id: None,
        kind: BogusKind,
    };
    let fields = fields(&event);
    assert_eq!(
        keys(&fields),
        vec!["service", "target", "level", "name", "data", "_time", "kind"]
    );
    assert_eq!(get(&fields, "data"), &Value::Object(SortedMap::new()));
}

fn span(data: Option<SortedMap<Value>>, span_info: Option<SpanInfo>) -> Event<Never> {
    Event::Span {
        module: None,
        target: Cow::Borrowed("t"),
        level: Level::Debug,
        name: Cow::Borrowed("parent span"),
        data,
        time: NEW_YEAR_2019,
        span_info,
        parent_span_id: Some([0xff; 8]),
        kind: BogusKind,
    }
}

#[test]
fn full_span() {
    let info = SpanInfo {
        span_id: [0x12; 8],
        trace_id: [0x34; 16],
        duration_ns: 300,
        idle_ns: 100,
        busy_ns: 200,
    };
    let fields = fields(&span(Some(data()), Some(info)));
    assert_eq!(
        keys(&fields),
        vec![
            "service",
            "target",
            "level",
            "name",
            "data",
            "_time",
            "span_id",
            "trace_id",
            "duration",
            "idle_ns",
            "busy_ns",
            "parent_span_id",
            "kind"
        ]
    );
    assert_eq!(get(&fields, "span_id"), &Value::from(ser_hex(&[0x12u8; 8])));
    assert_eq!(get(&fields, "trace_id"), &Value::from("34343434343434343434343434343434"));
    assert_eq!(get(&fields, "duration"), &Value::from(300u64));
    assert_eq!(get(&fields, "idle_ns"), &Value::from(100u64));
    assert_eq!(get(&fields, "busy_ns"), &Value::from(200u64));
}

#[test]
fn bare_span() {
    assert_eq!(
        keys(&fields(&span(None, None))),
        vec!["service", "target", "level", "name", "_time", "parent_span_id", "kind"]
    );
}

#[test]
fn extra_follows_the_service() {
    let event: Event<u32> = Event::Extra(99);
    match event.record("svc") {
        Ok(Record::Extra { service: head, extra }) => {
            assert_eq!(head, vec![("service", service())]);
            assert_eq!(*extra, 99);
        }
        _ => panic!("no extra record"),
    }
}

#[test]
fn no_field_twice() {
    for event in [log(NEW_YEAR_2019), span(None, None)] {
        let mut keys = keys(&fields(&event));
        let n = keys.len();
        keys.sort();
        keys.dedup();
        assert_eq!(keys.len(), n);
    }
}

fn time_text(unix_nanos: i128, offset_seconds: i32) -> Result<Value, InexpressibleTime> {
    match log(Timestamp { unix_nanos, offset_seconds }).record("svc") {
        Ok(Record::Fields(fields)) => Ok(get(&fields, "_time").clone()),
        Ok(Record::Extra { .. }) => panic!("extra"),
        Err(e) => Err(e),
    }
}

#[test]
fn times_are_told_at_their_offset() {
    assert_eq!(time_text(0, 0), Ok(Value::from("1970-01-01T00:00:00Z")));
    assert_eq!(time_text(1_500_000_000, 0), Ok(Value::from("1970-01-01T00:00:01.5Z")));
    assert_eq!(time_text(0, 5_400), Ok(Value::from("1970-01-01T01:30:00+01:30")));
    assert_eq!(time_text(0, -3_600), Ok(Value::from("1969-12-31T23:00:00-01:00")));
}

#[test]
fn inexpressible_times_fail() {
    const YEAR_0: i128 = -62_167_219_200_000_000_000;
    const YEAR_10000: i128 = 253_402_300_800_000_000_000;
    const YEAR_MINUS_9999: i128 = -377_705_116_800_000_000_000;
    assert_eq!(time_text(YEAR_0, 0), Ok(Value::from("0000-01-01T00:00:00Z")));
    assert_eq!(time_text(YEAR_0 - 1, 0), Err(InexpressibleTime));
    assert!(time_text(YEAR_0 - 1, 60).is_ok());
    assert_eq!(time_text(YEAR_0, -60), Err(InexpressibleTime));
    assert_eq!(
        time_text(YEAR_10000 - 1, 0),
        Ok(Value::from("9999-12-31T23:59:59.999999999Z"))
    );
    assert_eq!(time_text(YEAR_10000, 0), Err(InexpressibleTime));
    assert_eq!(
        time_text(YEAR_10000, -3_600),
        Ok(Value::from("9999-12-31T23:00:00-01:00"))
    );
    assert_eq!(time_text(YEAR_10000 + 3_600_000_000_000, -3_600), Err(InexpressibleTime));
    assert_eq!(time_text(YEAR_10000 - 1, 60), Err(InexpressibleTime));
    assert_eq!(time_text(YEAR_MINUS_9999, 0), Err(InexpressibleTime));
    assert_eq!(time_text(i128::MAX, 0), Err(InexpressibleTime));
    assert_eq!(time_text(i128::MIN, 0), Err(InexpressibleTime));
    assert_eq!(time_text(i128::MAX, 60), Err(InexpressibleTime));
    assert_eq!(time_text(i128::MIN, -60), Err(InexpressibleTime));
    assert_eq!(time_text(0, 1), Err(InexpressibleTime));
    assert!(time_text(0, 86_340).is_ok());
    assert!(time_text(0, -86_340).is_ok());
    assert_eq!(time_text(0, 86_400), Err(InexpressibleTime));
    assert_eq!(time_text(0, -86_400), Err(InexpressibleTime));
    assert_eq!(time_text(0, i32::MAX), Err(InexpressibleTime));
}

#[test]
fn local_dates_may_lie_before_or_after_the_utc_years() {
    const YEAR_10000: i128 = 253_402_300_800_000_000_000;
    const YEAR_0: i128 = -62_167_219_200_000_000_000;
    const HOUR: i128 = 3_600_000_000_000;
    assert_eq!(
        time_text(YEAR_10000 + HOUR / 2, -3_600),
        Ok(Value::from("9999-12-31T23:30:00-01:00"))
    );
    assert_eq!(time_text(YEAR_0 - HOUR, 3_600), Ok(Value::from("0000-01-01T00:00:00+01:00")));
}

#[test]
fn levels_match_tracing() {
    assert_eq!(Level::from(tracing::Level::TRACE), Level::Trace);
    assert_eq!(Level::from(tracing::Level::DEBUG), Level::Debug);
    assert_eq!(Level::from(tracing::Level::INFO), Level::Info);
    assert_eq!(Level::from(tracing::Level::WARN), Level::Warn);
    assert_eq!(Level::from(tracing::Level::ERROR), Level::Error);
}

#[test]
fn level_names() {
    assert_eq!(Level::from_name("WARN"), Some(Level::Warn));
    assert_eq!(Level::from_name("warn"), None);
    assert_eq!(Level::from_name(""), None);
    let all = [Level::Trace, Level::Debug, Level::Info, Level::Warn, Level::Error];
    let texts: Vec<&str> = all.iter().map(|l| l.as_str()).collect();
    assert_eq!(texts, vec!["trace", "debug", "info", "warn", "error"]);
}

#[test]
fn every_record_has_the_same_kind() {
    assert_eq!(BogusKind.as_str(), "server");
}
