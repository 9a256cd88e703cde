//! Records: what is sent for an event.

use vstd::prelude::*;

#[allow(unused_imports)]
use crate::event::{fields_view, rank, Event, InexpressibleTime, Level, Record};
#[allow(unused_imports)]
use crate::outside::{json_number, rfc3339_text};
#[allow(unused_imports)]
use crate::sorted_map::SortedMap;
#[allow(unused_imports)]
use crate::text::hex_field;
#[allow(unused_imports)]
use crate::value::{value_view, Value, ValueView};

verus! {

/// Field `i` has this key and holds this text.
pub open spec fn text_at(
    fields: Seq<(&'static str, Value)>,
    i: int,
    key: Seq<char>,
    text: Seq<char>,
) -> bool {
    &&& 0 <= i < fields.len()
    &&& fields[i].0@ == key
    &&& fields[i].1 matches Value::String(s) && s@ == text
}

/// Field `i` has this key and holds the JSON number of this integer.
pub open spec fn number_at(
    fields: Seq<(&'static str, Value)>,
    i: int,
    key: Seq<char>,
    n: int,
) -> bool {
    &&& 0 <= i < fields.len()
    &&& fields[i].0@ == key
    &&& fields[i].1 matches Value::Number(x) && x == json_number(n)
}

/// Field `i` has this key and holds an object with the entries of this map.
pub open spec fn map_at(
    fields: Seq<(&'static str, Value)>,
    i: int,
    key: Seq<char>,
    map: SortedMap<Value>,
) -> bool {
    &&& 0 <= i < fields.len()
    &&& fields[i].0@ == key
    &&& fields[i].1 matches Value::Object(m) && m@.len() == map@.len() && forall|j: int|
        0 <= j < map@.len() ==> (#[trigger] m@[j]).0@ == map@[j].0@ && m@[j].1@ == map@[j].1@
}

/// The first field names the service: an object that holds the name alone.
pub open spec fn service_first(
    fields: Seq<(&'static str, Value)>,
    service_name: Seq<char>,
) -> bool {
    &&& fields.len() > 0
    &&& fields[0].0@ == "service"@
    &&& fields[0].1 matches Value::Object(m)
    &&& m@.len() == 1
    &&& m@[0].0@ == "name"@
    &&& m@[0].1 matches Value::String(s)
    &&& s@ == service_name
}

/// Some field has this key and holds this text.
pub open spec fn has_text(
    fields: Seq<(&'static str, Value)>,
    key: Seq<char>,
    text: Seq<char>,
) -> bool {
    exists|i: int| #[trigger] text_at(fields, i, key, text)
}

/// Some field has this key and holds the JSON number of this integer.
pub open spec fn has_number(
    fields: Seq<(&'static str, Value)>,
    key: Seq<char>,
    n: int,
) -> bool {
    exists|i: int| #[trigger] number_at(fields, i, key, n)
}

/// Some field has this key and holds an object with the entries of this map.
pub open spec fn has_map(
    fields: Seq<(&'static str, Value)>,
    key: Seq<char>,
    map: SortedMap<Value>,
) -> bool {
    exists|i: int| #[trigger] map_at(fields, i, key, map)
}

/// No field has this key.
pub open spec fn lacks(fields: Seq<(&'static str, Value)>, key: Seq<char>) -> bool {
    forall|i: int| 0 <= i < fields.len() ==> (#[trigger] fields[i]).0@ != key
}

/// What stands for a value tells what it holds: equal views mean the same
/// variant, the same truth value, number or text, and in an object the same keys
/// with values of equal views.
pub proof fn law_view_tells_values_apart(a: Value, b: Value)
    requires
        a@ == b@,
    ensures
        match a {
            Value::Bool(x) => b == Value::Bool(x),
            Value::Number(x) => b == Value::Number(x),
            Value::String(x) => b matches Value::String(y) && y@ == x@,
            Value::Object(x) => b matches Value::Object(y) && y@.len() == x@.len() && forall|j: int|
                0 <= j < x@.len() ==> (#[trigger] y@[j]).0@ == x@[j].0@ && y@[j].1@ == x@[j].1@,
        },
{
    let (va, vb) = (value_view(a), value_view(b));
    assert(va == vb);
    match a {
        Value::Bool(_) => assert(va is Bool && b is Bool),
        Value::Number(_) => assert(va is Number && b is Number),
        Value::String(_) => assert(va is Text && b is String),
        Value::Object(x) => {
            assert(va is Object && b is Object);
            let y = b->Object_0;
            assert(va->Object_0.len() == x@.len() && vb->Object_0.len() == y@.len());
            assert forall|j: int| 0 <= j < x@.len() implies (#[trigger] y@[j]).0@ == x@[j].0@
                && y@[j].1@ == x@[j].1@ by {
                assert(va->Object_0[j].0 == x@[j].0@ && va->Object_0[j].1 == value_view(x@[j].1));
                assert(vb->Object_0[j].0 == y@[j].0@ && vb->Object_0[j].1 == value_view(y@[j].1));
            }
        },
    }
}

/// A log can be sent exactly if its offset is a whole number of minutes and less
/// than a day, and its local date lies in the years 0 to 9999. Its record then
/// holds, in this order and without anything else: the service, the message and
/// the module path if there are any, target, level, name, data and time, the trace
/// id and the parent's span id if there are any, and the kind, each with the value
/// that the log has for it.
pub proof fn law_log_fields<X>(
    event: Event<X>,
    service_name: &str,
    r: Result<Record<'_, X>, InexpressibleTime>,
)
    requires
        call_ensures(Event::<X>::record, (&event, service_name), r),
        event is Log,
    ensures
        match event {
            Event::Log {
                message,
                module,
                target,
                level,
                name,
                data,
                time,
                trace_id,
                parent_span_id,
                ..
            } => {
                let local = time.unix_nanos + time.offset_seconds * 1_000_000_000;
                let m: int = if message is Some { 1 } else { 0 };
                let p: int = if module is Some { 1 } else { 0 };
                let t: int = if trace_id is Some { 1 } else { 0 };
                let s: int = if parent_span_id is Some { 1 } else { 0 };
                let at = 1 + m + p;
                &&& r is Ok <==> -86_400 < time.offset_seconds < 86_400 && time.offset_seconds % 60
                    == 0 && -62_167_219_200_000_000_000 <= local < 253_402_300_800_000_000_000
                &&& r matches Ok(record) ==> record matches Record::Fields(fields) && {
                    &&& fields@.len() == 7 + m + p + t + s
                    &&& service_first(fields@, service_name@)
                    &&& message matches Some(x) ==> text_at(fields@, 1, "message"@, x@)
                    &&& module matches Some(x) ==> text_at(fields@, 1 + m, "module_path"@, x@)
                    &&& text_at(fields@, at, "target"@, target@)
                    &&& text_at(
                        fields@,
                        at + 1,
                        "level"@,
                        match level {
                            Level::Trace => "trace"@,
                            Level::Debug => "debug"@,
                            Level::Info => "info"@,
                            Level::Warn => "warn"@,
                            Level::Error => "error"@,
                        },
                    )
                    &&& text_at(fields@, at + 2, "name"@, name@)
                    &&& map_at(fields@, at + 3, "data"@, data)
                    &&& text_at(
                        fields@,
                        at + 4,
                        "_time"@,
                        rfc3339_text(local, time.offset_seconds as int),
                    )
                    &&& trace_id matches Some(x) ==> text_at(
                        fields@,
                        at + 5,
                        "trace_id"@,
                        hex_field(x@),
                    )
                    &&& parent_span_id matches Some(x) ==> text_at(
                        fields@,
                        at + 5 + t,
                        "parent_span_id"@,
                        hex_field(x@),
                    )
                    &&& text_at(fields@, at + 5 + t + s, "kind"@, "server"@)
                }
            },
            _ => true,
        },
{
    if let Ok(Record::Fields(fields)) = r {
        if let Event::Log { data, .. } = event {
            let want = event.fields(service_name@);
            assert(fields_view(fields@) == want);
            assert forall|i: int| 0 <= i < fields@.len() implies (#[trigger] fields@[i]).0@
                == want[i].0 && fields@[i].1@ == want[i].1 by {
                assert(fields_view(fields@)[i] == want[i]);
            }
            lemma_service_first(fields@, service_name@);
            assert forall|i: int| 0 <= i < fields@.len() && fields@[i].1@ == Value::Object(data)@
                && fields@[i].0@ == "data"@ implies #[trigger] map_at(
                fields@,
                i,
                "data"@,
                data,
            ) by {
                law_view_tells_values_apart(Value::Object(data), fields@[i].1);
            }
        }
    }
}

proof fn lemma_service_first(fields: Seq<(&'static str, Value)>, service_name: Seq<char>)
    requires
        fields.len() > 0,
        fields[0].0@ == "service"@,
        fields[0].1@ == ValueView::Object(seq![("name"@, ValueView::Text(service_name))]),
    ensures
        service_first(fields, service_name),
{
    let m = fields[0].1->Object_0;
    let entries = value_view(fields[0].1)->Object_0;
    assert(fields[0].1 is Object && entries.len() == 1 && m@.len() == 1);
    assert(entries[0].0 == m@[0].0@ && entries[0].1 == value_view(m@[0].1));
}

/// A span can be sent on the same terms as a log. Its record then holds, in this
/// order and without anything else: the service, the module path if there is one,
/// target, level, name, the data if there are any, the time, span id, trace id,
/// duration, idle and busy time if they are known, the parent's span id if there
/// is one, and the kind, each with the value that the span has for it.
pub proof fn law_span_fields<X>(
    event: Event<X>,
    service_name: &str,
    r: Result<Record<'_, X>, InexpressibleTime>,
)
    requires
        call_ensures(Event::<X>::record, (&event, service_name), r),
        event is Span,
    ensures
        match event {
            Event::Span {
                module,
                target,
                level,
                name,
                data,
                time,
                span_info,
                parent_span_id,
                ..
            } => {
                let local = time.unix_nanos + time.offset_seconds * 1_000_000_000;
                let p: int = if module is Some { 1 } else { 0 };
                let d: int = if data is Some { 1 } else { 0 };
                let k: int = if span_info is Some { 5 } else { 0 };
                let s: int = if parent_span_id is Some { 1 } else { 0 };
                let at = 1 + p;
                &&& r is Ok <==> -86_400 < time.offset_seconds < 86_400 && time.offset_seconds % 60
                    == 0 && -62_167_219_200_000_000_000 <= local < 253_402_300_800_000_000_000
                &&& r matches Ok(record) ==> record matches Record::Fields(fields) && {
                    &&& fields@.len() == 6 + p + d + k + s
                    &&& service_first(fields@, service_name@)
                    &&& module matches Some(x) ==> text_at(fields@, 1, "module_path"@, x@)
                    &&& text_at(fields@, at, "target"@, target@)
                    &&& text_at(
                        fields@,
                        at + 1,
                        "level"@,
                        match level {
                            Level::Trace => "trace"@,
                            Level::Debug => "debug"@,
                            Level::Info => "info"@,
                            Level::Warn => "warn"@,
                            Level::Error => "error"@,
                        },
                    )
                    &&& text_at(fields@, at + 2, "name"@, name@)
                    &&& data matches Some(x) ==> map_at(fields@, at + 3, "data"@, x)
                    &&& text_at(
                        fields@,
                        at + 3 + d,
                        "_time"@,
                        rfc3339_text(local, time.offset_seconds as int),
                    )
                    &&& span_info matches Some(x) ==> {
                        &&& text_at(fields@, at + 4 + d, "span_id"@, hex_field(x.span_id@))
                        &&& text_at(fields@, at + 5 + d, "trace_id"@, hex_field(x.trace_id@))
                        &&& number_at(fields@, at + 6 + d, "duration"@, x.duration_ns as int)
                        &&& number_at(fields@, at + 7 + d, "idle_ns"@, x.idle_ns as int)
                        &&& number_at(fields@, at + 8 + d, "busy_ns"@, x.busy_ns as int)
                    }
                    &&& parent_span_id matches Some(x) ==> text_at(
                        fields@,
                        at + 4 + d + k,
                        "parent_span_id"@,
                        hex_field(x@),
                    )
                    &&& text_at(fields@, at + 4 + d + k + s, "kind"@, "server"@)
                }
            },
            _ => true,
        },
{
    if let Ok(Record::Fields(fields)) = r {
        if let Event::Span { data, .. } = event {
            let want = event.fields(service_name@);
            assert(fields_view(fields@) == want);
            assert forall|i: int| 0 <= i < fields@.len() implies (#[trigger] fields@[i]).0@
                == want[i].0 && fields@[i].1@ == want[i].1 by {
                assert(fields_view(fields@)[i] == want[i]);
            }
            lemma_service_first(fields@, service_name@);
            if let Some(x) = data {
                assert forall|i: int| 0 <= i < fields@.len() && fields@[i].1@ == Value::Object(x)@
                    && fields@[i].0@ == "data"@ implies #[trigger] map_at(
                    fields@,
                    i,
                    "data"@,
                    x,
                ) by {
                    law_view_tells_values_apart(Value::Object(x), fields@[i].1);
                }
            }
        }
    }
}

/// Every part of a log is found under its own key, an absent part under none, and
/// no key occurs twice.
pub proof fn law_log_by_key<X>(
    event: Event<X>,
    service_name: &str,
    r: Result<Record<'_, X>, InexpressibleTime>,
)
    requires
        call_ensures(Event::<X>::record, (&event, service_name), r),
        event is Log,
        r is Ok,
    ensures
        match (event, r) {
            (
                Event::Log {
                    message,
                    module,
                    target,
                    name,
                    data,
                    trace_id,
                    parent_span_id,
                    ..
                },
                Ok(Record::Fields(fields)),
            ) => {
                &&& forall|i: int, j: int|
                    0 <= i < j < fields@.len() ==> (#[trigger] fields@[i]).0@ != (
                    #[trigger] fields@[j]).0@
                &&& match message {
                    Some(x) => has_text(fields@, "message"@, x@),
                    None => lacks(fields@, "message"@),
                }
                &&& match module {
                    Some(x) => has_text(fields@, "module_path"@, x@),
                    None => lacks(fields@, "module_path"@),
                }
                &&& has_text(fields@, "target"@, target@)
                &&& has_text(fields@, "name"@, name@)
                &&& has_map(fields@, "data"@, data)
                &&& match trace_id {
                    Some(x) => has_text(fields@, "trace_id"@, hex_field(x@)),
                    None => lacks(fields@, "trace_id"@),
                }
                &&& match parent_span_id {
                    Some(x) => has_text(fields@, "parent_span_id"@, hex_field(x@)),
                    None => lacks(fields@, "parent_span_id"@),
                }
                &&& has_text(fields@, "kind"@, "server"@)
                &&& lacks(fields@, "span_id"@)
                &&& lacks(fields@, "duration"@)
            },
            _ => false,
        },
{
    crate::event::lemma_ranks();
    law_log_fields(event, service_name, r);
    if let Ok(Record::Fields(fields)) = r {
        if let Event::Log { message, module, trace_id, parent_span_id, target, name, data, .. } =
            event {
            let m: int = if message is Some { 1 } else { 0 };
            let p: int = if module is Some { 1 } else { 0 };
            let t: int = if trace_id is Some { 1 } else { 0 };
            let s: int = if parent_span_id is Some { 1 } else { 0 };
            let at = 1 + m + p;
            assert forall|i: int, j: int| 0 <= i < j < fields@.len() implies rank(
                (#[trigger] fields@[i]).0@,
            ) < rank((#[trigger] fields@[j]).0@) by {}
            assert(text_at(fields@, at, "target"@, target@));
            assert(text_at(fields@, at + 2, "name"@, name@));
            assert(map_at(fields@, at + 3, "data"@, data));
            assert(text_at(fields@, at + 5 + t + s, "kind"@, "server"@));
            if let Some(x) = message {
                assert(text_at(fields@, 1, "message"@, x@));
            }
            if let Some(x) = module {
                assert(text_at(fields@, 1 + m, "module_path"@, x@));
            }
            if let Some(x) = trace_id {
                assert(text_at(fields@, at + 5, "trace_id"@, hex_field(x@)));
            }
            if let Some(x) = parent_span_id {
                assert(text_at(fields@, at + 5 + t, "parent_span_id"@, hex_field(x@)));
            }
        }
    }
}

/// Every part of a span is found under its own key, an absent part under none,
/// and no key occurs twice.
pub proof fn law_span_by_key<X>(
    event: Event<X>,
    service_name: &str,
    r: Result<Record<'_, X>, InexpressibleTime>,
)
    requires
        call_ensures(Event::<X>::record, (&event, service_name), r),
        event is Span,
        r is Ok,
    ensures
        match (event, r) {
            (
                Event::Span { module, target, name, data, span_info, parent_span_id, .. },
                Ok(Record::Fields(fields)),
            ) => {
                &&& forall|i: int, j: int|
                    0 <= i < j < fields@.len() ==> (#[trigger] fields@[i]).0@ != (
                    #[trigger] fields@[j]).0@
                &&& lacks(fields@, "message"@)
                &&& match module {
                    Some(x) => has_text(fields@, "module_path"@, x@),
                    None => lacks(fields@, "module_path"@),
                }
                &&& has_text(fields@, "target"@, target@)
                &&& has_text(fields@, "name"@, name@)
                &&& match data {
                    Some(x) => has_map(fields@, "data"@, x),
                    None => lacks(fields@, "data"@),
                }
                &&& match span_info {
                    Some(x) => {
                        &&& has_text(fields@, "span_id"@, hex_field(x.span_id@))
                        &&& has_text(fields@, "trace_id"@, hex_field(x.trace_id@))
                        &&& has_number(fields@, "duration"@, x.duration_ns as int)
                        &&& has_number(fields@, "idle_ns"@, x.idle_ns as int)
                        &&& has_number(fields@, "busy_ns"@, x.busy_ns as int)
                    },
                    None => {
                        &&& lacks(fields@, "span_id"@)
                        &&& lacks(fields@, "trace_id"@)
                        &&& lacks(fields@, "duration"@)
                        &&& lacks(fields@, "idle_ns"@)
                        &&& lacks(fields@, "busy_ns"@)
                    },
                }
                &&& match parent_span_id {
                    Some(x) => has_text(fields@, "parent_span_id"@, hex_field(x@)),
                    None => lacks(fields@, "parent_span_id"@),
                }
                &&& has_text(fields@, "kind"@, "server"@)
            },
            _ => false,
        },
{
    crate::event::lemma_ranks();
    law_span_fields(event, service_name, r);
    if let Ok(Record::Fields(fields)) = r {
        if let Event::Span { module, span_info, parent_span_id, target, name, data, .. } = event {
            let p: int = if module is Some { 1 } else { 0 };
            let d: int = if data is Some { 1 } else { 0 };
            let k: int = if span_info is Some { 5 } else { 0 };
            let s: int = if parent_span_id is Some { 1 } else { 0 };
            let at = 1 + p;
            assert forall|i: int, j: int| 0 <= i < j < fields@.len() implies rank(
                (#[trigger] fields@[i]).0@,
            ) < rank((#[trigger] fields@[j]).0@) by {}
            assert(text_at(fields@, at, "target"@, target@));
            assert(text_at(fields@, at + 2, "name"@, name@));
            assert(text_at(fields@, at + 4 + d + k + s, "kind"@, "server"@));
            if let Some(x) = module {
                assert(text_at(fields@, 1, "module_path"@, x@));
            }
            if let Some(x) = data {
                assert(map_at(fields@, at + 3, "data"@, x));
            }
            if let Some(x) = span_info {
                assert(text_at(fields@, at + 4 + d, "span_id"@, hex_field(x.span_id@)));
                assert(text_at(fields@, at + 5 + d, "trace_id"@, hex_field(x.trace_id@)));
                assert(number_at(fields@, at + 6 + d, "duration"@, x.duration_ns as int));
                assert(number_at(fields@, at + 7 + d, "idle_ns"@, x.idle_ns as int));
                assert(number_at(fields@, at + 8 + d, "busy_ns"@, x.busy_ns as int));
            }
            if let Some(x) = parent_span_id {
                assert(text_at(fields@, at + 4 + d + k, "parent_span_id"@, hex_field(x@)));
            }
        }
    }
}

/// A custom event can always be sent: the record holds the service and the event
/// itself.
pub proof fn law_extra_fields<X>(
    event: Event<X>,
    service_name: &str,
    r: Result<Record<'_, X>, InexpressibleTime>,
)
    requires
        call_ensures(Event::<X>::record, (&event, service_name), r),
        event is Extra,
    ensures
        ({
            &&& r matches Ok(record)
            &&& record matches Record::Extra { service, extra }
            &&& service@.len() == 1
            &&& service_first(service@, service_name@)
            &&& Event::Extra(*extra) == event
        }),
{
    if let Ok(Record::Extra { service, extra }) = r {
        let want = event.fields(service_name@);
        assert(fields_view(service@) == want);
        assert(fields_view(service@)[0] == want[0]);
        lemma_service_first(service@, service_name@);
    }
}

} // verus!
