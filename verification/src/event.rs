//! Events and the records that are sent for them.

use std::borrow::Cow;
use vstd::prelude::*;

use crate::outside::rfc3339;
#[allow(unused_imports)]
use crate::outside::{json_number, rfc3339_expressible, rfc3339_text, tracing_level_name};
use crate::sorted_map::SortedMap;
#[allow(unused_imports)]
use crate::text::hex_field;
use crate::text::{clone_cow, ser_hex, ser_opt_hex};
#[allow(unused_imports)]
use crate::value::{Never, Value, ValueView};

verus! {

/// Severity of an event or span.
#[derive(Clone, Copy, PartialEq, Eq, Structural, Debug)]
pub enum Level {
    Trace,
    Debug,
    Info,
    Warn,
    Error,
}

/// The level with this name, as `tracing` spells it.
pub open spec fn level_named(name: Seq<char>) -> Option<Level> {
    if name == "TRACE"@ {
        Some(Level::Trace)
    } else if name == "DEBUG"@ {
        Some(Level::Debug)
    } else if name == "INFO"@ {
        Some(Level::Info)
    } else if name == "WARN"@ {
        Some(Level::Warn)
    } else if name == "ERROR"@ {
        Some(Level::Error)
    } else {
        None
    }
}

/// Whether two texts are the same.
fn same_text(a: &str, b: &str) -> (r: bool)
    ensures
        r == (a@ == b@),
{
    a.to_owned() == b.to_owned()
}

impl Level {
    /// The level with this name, as `tracing` spells it.
    pub fn from_name(name: &str) -> (r: Option<Level>)
        ensures
            r == level_named(name@),
    {
        if same_text(name, "TRACE") {
            Some(Level::Trace)
        } else if same_text(name, "DEBUG") {
            Some(Level::Debug)
        } else if same_text(name, "INFO") {
            Some(Level::Info)
        } else if same_text(name, "WARN") {
            Some(Level::Warn)
        } else if same_text(name, "ERROR") {
            Some(Level::Error)
        } else {
            None
        }
    }

    /// How the level is spelled in a record.
    pub open spec fn text(self) -> Seq<char> {
        match self {
            Level::Trace => "trace"@,
            Level::Debug => "debug"@,
            Level::Info => "info"@,
            Level::Warn => "warn"@,
            Level::Error => "error"@,
        }
    }

    /// How the level is spelled in a record.
    pub fn as_str(self) -> (r: &'static str)
        ensures
            r@ == self.text(),
    {
        match self {
            Level::Trace => "trace",
            Level::Debug => "debug",
            Level::Info => "info",
            Level::Warn => "warn",
            Level::Error => "error",
        }
    }
}

impl From<tracing::Level> for Level {
    /// The level of the same name.
    fn from(value: tracing::Level) -> (r: Self) {
        Level::from_name(value.as_str()).unwrap()
    }
}

impl vstd::std_specs::convert::FromSpecImpl<tracing::Level> for Level {
    open spec fn obeys_from_spec() -> bool {
        true
    }

    open spec fn from_spec(value: tracing::Level) -> Self {
        level_named(tracing_level_name(value)).unwrap()
    }
}

/// The span kind of every record. Axiom wants one to recognize traces.
#[derive(Clone, Copy, PartialEq, Eq, Structural, Debug)]
pub struct BogusKind;

impl BogusKind {
    /// How the kind is spelled in a record.
    pub fn as_str(&self) -> (r: &'static str)
        ensures
            r@ == "server"@,
    {
        "server"
    }
}

/// Identity and timing of a span.
#[derive(Clone, Debug)]
pub struct SpanInfo {
    pub span_id: [u8; 8],
    pub trace_id: [u8; 16],
    pub duration_ns: u64,
    pub idle_ns: u64,
    pub busy_ns: u64,
}

/// A moment, and the offset from UTC at which it is told.
#[derive(Clone, Copy, PartialEq, Eq, Structural, Debug)]
pub struct Timestamp {
    /// Nanoseconds since the Unix epoch.
    pub unix_nanos: i128,
    pub offset_seconds: i32,
}

/// Something to report to Axiom.
#[allow(inconsistent_fields)]
pub enum Event<Extra = Never> {
    Log {
        message: Option<Cow<'static, str>>,
        module: Option<Cow<'static, str>>,
        target: Cow<'static, str>,
        level: Level,
        name: Cow<'static, str>,
        /// A map field in the dataset.
        data: SortedMap<Value>,
        time: Timestamp,
        trace_id: Option<[u8; 16]>,
        parent_span_id: Option<[u8; 8]>,
        kind: BogusKind,
    },
    Span {
        module: Option<Cow<'static, str>>,
        target: Cow<'static, str>,
        level: Level,
        name: Cow<'static, str>,
        /// A map field in the dataset.
        data: Option<SortedMap<Value>>,
        time: Timestamp,
        span_info: Option<SpanInfo>,
        parent_span_id: Option<[u8; 8]>,
        kind: BogusKind,
    },
    Extra(Extra),
}

/// A time that RFC 3339 cannot express.
#[derive(Clone, Copy, PartialEq, Eq, Structural, Debug)]
pub struct InexpressibleTime;

/// The key under which a custom event stands that is not a map of fields.
pub const EXTRA_KEY: &'static str = "extra";

/// The fields of a record, in the order in which they are sent.
pub type Fields = Vec<(&'static str, Value)>;

/// What is sent for an event.
pub enum Record<'a, Extra> {
    /// These fields.
    Fields(Fields),
    /// The service field, followed by the fields of `extra`, or by `extra` as one
    /// field under [`EXTRA_KEY`] if it has no fields of its own.
    Extra { service: Fields, extra: &'a Extra },
}

/// The keys and contents of fields.
pub open spec fn fields_view(fields: Seq<(&'static str, Value)>) -> Seq<(Seq<char>, ValueView)> {
    fields.map_values(|f: (&'static str, Value)| (f.0@, f.1@))
}

/// In every object that the fields hold, at any depth, keys stand in order, each
/// once.
pub open spec fn values_wf(fields: Seq<(&'static str, Value)>) -> bool {
    forall|i: int| 0 <= i < fields.len() ==> (#[trigger] fields[i]).1@.wf()
}

/// A text field, if there is a text.
pub open spec fn text_field(key: Seq<char>, text: Option<Cow<'static, str>>) -> Seq<
    (Seq<char>, ValueView),
> {
    match text {
        Some(t) => seq![(key, ValueView::Text(t@))],
        None => Seq::empty(),
    }
}

/// An identifier field, if there is an identifier.
pub open spec fn id_field<const N: usize>(key: Seq<char>, id: Option<[u8; N]>) -> Seq<
    (Seq<char>, ValueView),
> {
    match id {
        Some(bytes) => seq![(key, ValueView::Text(hex_field(bytes@)))],
        None => Seq::empty(),
    }
}

/// The field that names the service.
pub open spec fn service_fields(service_name: Seq<char>) -> Seq<(Seq<char>, ValueView)> {
    seq![("service"@, ValueView::Object(seq![("name"@, ValueView::Text(service_name))]))]
}

/// The fields that logs and spans have in common.
pub open spec fn common_fields(
    target: Seq<char>,
    level: Level,
    name: Seq<char>,
) -> Seq<(Seq<char>, ValueView)> {
    seq![
        ("target"@, ValueView::Text(target)),
        ("level"@, ValueView::Text(level.text())),
        ("name"@, ValueView::Text(name)),
    ]
}

/// The data field, if there is data.
pub open spec fn data_field(data: Option<SortedMap<Value>>) -> Seq<(Seq<char>, ValueView)> {
    match data {
        Some(d) => seq![("data"@, Value::Object(d)@)],
        None => Seq::empty(),
    }
}

/// The time field.
pub open spec fn time_field(time: Timestamp) -> Seq<(Seq<char>, ValueView)> {
    seq![
        (
            "_time"@,
            ValueView::Text(rfc3339_text(time.local_nanos(), time.offset_seconds as int)),
        ),
    ]
}

/// The fields of a span's identity and timing, if they are known.
pub open spec fn span_fields(info: Option<SpanInfo>) -> Seq<(Seq<char>, ValueView)> {
    match info {
        Some(i) => seq![
            ("span_id"@, ValueView::Text(hex_field(i.span_id@))),
            ("trace_id"@, ValueView::Text(hex_field(i.trace_id@))),
            ("duration"@, ValueView::Number(json_number(i.duration_ns as int))),
            ("idle_ns"@, ValueView::Number(json_number(i.idle_ns as int))),
            ("busy_ns"@, ValueView::Number(json_number(i.busy_ns as int))),
        ],
        None => Seq::empty(),
    }
}

impl Timestamp {
    /// The local date and time, in nanoseconds since the first of January 1970
    /// began there.
    pub open spec fn local_nanos(self) -> int {
        self.unix_nanos + self.offset_seconds * 1_000_000_000
    }

    /// RFC 3339 can express the time: its local date and its offset.
    pub open spec fn expressible(self) -> bool {
        rfc3339_expressible(self.local_nanos(), self.offset_seconds as int)
    }
}

impl<Extra> Event<Extra> {
    /// The fields of the record that is sent for the event, in order: the
    /// service field, then the event's own. Absent parts leave no field behind.
    pub open spec fn fields(self, service_name: Seq<char>) -> Seq<(Seq<char>, ValueView)> {
        let service = service_fields(service_name);
        match self {
            Event::Log {
                message,
                module,
                target,
                level,
                name,
                data,
                time,
                trace_id,
                parent_span_id,
                ..
            } => service + text_field("message"@, message) + text_field("module_path"@, module)
                + common_fields(target@, level, name@) + seq![("data"@, Value::Object(data)@)]
                + time_field(time) + id_field("trace_id"@, trace_id) + id_field(
                "parent_span_id"@,
                parent_span_id,
            ) + seq![("kind"@, ValueView::Text("server"@))],
            Event::Span {
                module,
                target,
                level,
                name,
                data,
                time,
                span_info,
                parent_span_id,
                ..
            } => service + text_field("module_path"@, module) + common_fields(
                target@,
                level,
                name@,
            ) + data_field(data) + time_field(time) + span_fields(span_info) + id_field(
                "parent_span_id"@,
                parent_span_id,
            ) + seq![("kind"@, ValueView::Text("server"@))],
            Event::Extra(_) => service,
        }
    }

    /// The event can be sent: its time, if it has one, can be expressed.
    pub open spec fn sendable(self) -> bool {
        match self {
            Event::Log { time, .. } => time.expressible(),
            Event::Span { time, .. } => time.expressible(),
            Event::Extra(_) => true,
        }
    }
}

/// The time as RFC 3339 text, told at its offset.
fn time_text(time: &Timestamp) -> (r: Option<String>)
    ensures
        r is Some <==> time.expressible(),
        r matches Some(text) ==> text@ == rfc3339_text(
            time.local_nanos(),
            time.offset_seconds as int,
        ),
{
    let offset_nanos: i128 = time.offset_seconds as i128 * 1_000_000_000;
    match time.unix_nanos.checked_add(offset_nanos) {
        Some(local_nanos) => rfc3339(local_nanos, time.offset_seconds),
        None => None,
    }
}

/// Appends a field.
fn push(out: &mut Fields, key: &'static str, value: Value)
    requires
        values_wf(old(out)@),
        value@.wf(),
    ensures
        values_wf(final(out)@),
        fields_view(final(out)@) == fields_view(old(out)@) + seq![(key@, value@)],
{
    out.push((key, value));
    assert(fields_view(out@) =~= fields_view(old(out)@) + seq![(key@, value@)]);
}

/// Appends a text field, if there is a text.
fn push_text(out: &mut Fields, key: &'static str, text: &Option<Cow<'static, str>>)
    requires
        values_wf(old(out)@),
    ensures
        values_wf(final(out)@),
        fields_view(final(out)@) == fields_view(old(out)@) + text_field(key@, *text),
{
    if let Some(t) = text {
        push(out, key, Value::from(clone_cow(t)));
    }
    assert(fields_view(out@) =~= fields_view(old(out)@) + text_field(key@, *text));
}

/// Appends an identifier field, if there is an identifier.
fn push_id<const N: usize>(out: &mut Fields, key: &'static str, id: Option<[u8; N]>)
    requires
        N * 2 <= crate::text::HEX_LEN,
        values_wf(old(out)@),
    ensures
        values_wf(final(out)@),
        fields_view(final(out)@) == fields_view(old(out)@) + id_field(key@, id),
{
    if let Some(text) = ser_opt_hex(&id) {
        push(out, key, Value::from(text));
    }
    assert(fields_view(out@) =~= fields_view(old(out)@) + id_field(key@, id));
}

/// Appends the fields that logs and spans have in common.
fn push_common(
    out: &mut Fields,
    target: &Cow<'static, str>,
    level: Level,
    name: &Cow<'static, str>,
)
    requires
        values_wf(old(out)@),
    ensures
        values_wf(final(out)@),
        fields_view(final(out)@) == fields_view(old(out)@) + common_fields(target@, level, name@),
{
    push(out, "target", Value::from(clone_cow(target)));
    push(out, "level", Value::String(Cow::Borrowed(level.as_str())));
    push(out, "name", Value::from(clone_cow(name)));
    assert(fields_view(out@) =~= fields_view(old(out)@) + common_fields(target@, level, name@));
}

/// Appends the fields of a span's identity and timing, if they are known.
fn push_span(out: &mut Fields, info: &Option<SpanInfo>)
    requires
        values_wf(old(out)@),
    ensures
        values_wf(final(out)@),
        fields_view(final(out)@) == fields_view(old(out)@) + span_fields(*info),
{
    if let Some(i) = info {
        push(out, "span_id", Value::from(ser_hex(&i.span_id)));
        push(out, "trace_id", Value::from(ser_hex(&i.trace_id)));
        push(out, "duration", Value::from(i.duration_ns));
        push(out, "idle_ns", Value::from(i.idle_ns));
        push(out, "busy_ns", Value::from(i.busy_ns));
    }
    assert(fields_view(out@) =~= fields_view(old(out)@) + span_fields(*info));
}

/// Appends the data field, if there is data.
fn push_data(out: &mut Fields, data: &Option<SortedMap<Value>>)
    requires
        values_wf(old(out)@),
    ensures
        values_wf(final(out)@),
        fields_view(final(out)@) == fields_view(old(out)@) + data_field(*data),
{
    if let Some(d) = data {
        push(out, "data", Value::object_copy(d));
    }
    assert(fields_view(out@) =~= fields_view(old(out)@) + data_field(*data));
}

/// The field that names the service.
fn service(service_name: &str) -> (r: Fields)
    ensures
        values_wf(r@),
        fields_view(r@) == service_fields(service_name@),
{
    let name = Value::from(service_name);
    assert(name@ == ValueView::Text(service_name@));
    let mut entries: Vec<(String, Value)> = Vec::new();
    entries.push(("name".to_owned(), name));
    let value = Value::Object(SortedMap::from_ordered(entries));
    assert(value@->Object_0 =~= seq![("name"@, ValueView::Text(service_name@))]);
    assert(name@.wf() && value@.wf());
    let mut out: Fields = Vec::new();
    push(&mut out, "service", value);
    assert(fields_view(out@) =~= service_fields(service_name@));
    out
}

impl<Extra> Event<Extra> {
    /// The record to send for the event: the service field, then the event's
    /// own fields. Fails if the event's time cannot be expressed.
    pub fn record<'a>(&'a self, service_name: &str) -> (r: Result<
        Record<'a, Extra>,
        InexpressibleTime,
    >)
        ensures
            r is Ok <==> self.sendable(),
            r matches Ok(record) ==> match *self {
                Event::Extra(e) => record matches Record::Extra { service, extra } && *extra == e
                    && fields_view(service@) == self.fields(service_name@) && values_wf(service@),
                _ => record matches Record::Fields(fields) && fields_view(fields@) == self.fields(
                    service_name@,
                ) && values_wf(fields@),
            },
    {
        let mut out = service(service_name);
        match self {
            Event::Log {
                message,
                module,
                target,
                level,
                name,
                data,
                time,
                trace_id,
                parent_span_id,
                kind,
            } => {
                let when = match time_text(time) {
                    Some(text) => text,
                    None => return Err(InexpressibleTime),
                };
                push_text(&mut out, "message", message);
                push_text(&mut out, "module_path", module);
                push_common(&mut out, target, *level, name);
                push(&mut out, "data", Value::object_copy(data));
                push(&mut out, "_time", Value::from(when));
                push_id(&mut out, "trace_id", *trace_id);
                push_id(&mut out, "parent_span_id", *parent_span_id);
                push(&mut out, "kind", Value::String(Cow::Borrowed(kind.as_str())));
                Ok(Record::Fields(out))
            },
            Event::Span {
                module,
                target,
                level,
                name,
                data,
                time,
                span_info,
                parent_span_id,
                kind,
            } => {
                let when = match time_text(time) {
                    Some(text) => text,
                    None => return Err(InexpressibleTime),
                };
                push_text(&mut out, "module_path", module);
                push_common(&mut out, target, *level, name);
                push_data(&mut out, data);
                push(&mut out, "_time", Value::from(when));
                push_span(&mut out, span_info);
                push_id(&mut out, "parent_span_id", *parent_span_id);
                push(&mut out, "kind", Value::String(Cow::Borrowed(kind.as_str())));
                Ok(Record::Fields(out))
            },
            Event::Extra(extra) => Ok(Record::Extra { service: out, extra }),
        }
    }
}

/// The place of a key in the order in which fields are sent.
pub(crate) closed spec fn rank(key: Seq<char>) -> int {
    if key == "service"@ {
        0
    } else if key == "message"@ {
        1
    } else if key == "module_path"@ {
        2
    } else if key == "target"@ {
        3
    } else if key == "level"@ {
        4
    } else if key == "name"@ {
        5
    } else if key == "data"@ {
        6
    } else if key == "_time"@ {
        7
    } else if key == "span_id"@ {
        8
    } else if key == "trace_id"@ {
        9
    } else if key == "duration"@ {
        10
    } else if key == "idle_ns"@ {
        11
    } else if key == "busy_ns"@ {
        12
    } else if key == "parent_span_id"@ {
        13
    } else if key == "kind"@ {
        14
    } else {
        15
    }
}

/// Keys stand in the order of their ranks, from `lo` on and before `hi`.
spec fn ranked(fields: Seq<(Seq<char>, ValueView)>, lo: int, hi: int) -> bool {
    &&& forall|i: int| 0 <= i < fields.len() ==> lo <= rank((#[trigger] fields[i]).0) < hi
    &&& forall|i: int, j: int|
        0 <= i < j < fields.len() ==> rank((#[trigger] fields[i]).0) < rank(
            (#[trigger] fields[j]).0,
        )
}

/// Every key has its own place.
pub(crate) proof fn lemma_ranks()
    ensures
        rank("service"@) == 0,
        rank("message"@) == 1,
        rank("module_path"@) == 2,
        rank("target"@) == 3,
        rank("level"@) == 4,
        rank("name"@) == 5,
        rank("data"@) == 6,
        rank("_time"@) == 7,
        rank("span_id"@) == 8,
        rank("trace_id"@) == 9,
        rank("duration"@) == 10,
        rank("idle_ns"@) == 11,
        rank("busy_ns"@) == 12,
        rank("parent_span_id"@) == 13,
        rank("kind"@) == 14,
{
    reveal_strlit("service");
    assert("service"@.len() == 7);
    reveal_strlit("message");
    assert("message"@.len() == 7);
    reveal_strlit("module_path");
    assert("module_path"@.len() == 11);
    reveal_strlit("target");
    assert("target"@.len() == 6);
    reveal_strlit("level");
    assert("level"@.len() == 5);
    reveal_strlit("name");
    assert("name"@.len() == 4);
    reveal_strlit("data");
    assert("data"@.len() == 4);
    reveal_strlit("_time");
    assert("_time"@.len() == 5);
    reveal_strlit("span_id");
    assert("span_id"@.len() == 7);
    reveal_strlit("trace_id");
    assert("trace_id"@.len() == 8);
    reveal_strlit("duration");
    assert("duration"@.len() == 8);
    reveal_strlit("idle_ns");
    assert("idle_ns"@.len() == 7);
    reveal_strlit("busy_ns");
    assert("busy_ns"@.len() == 7);
    reveal_strlit("parent_span_id");
    assert("parent_span_id"@.len() == 14);
    reveal_strlit("kind");
    assert("kind"@.len() == 4);
    assert("service"@[0] != "message"@[0]);
    assert("name"@[0] != "data"@[0]);
    assert("level"@[0] != "_time"@[0]);
    assert("service"@[1] != "span_id"@[1]);
    assert("message"@[0] != "span_id"@[0]);
    assert("trace_id"@[0] != "duration"@[0]);
    assert("service"@[0] != "idle_ns"@[0]);
    assert("message"@[0] != "idle_ns"@[0]);
    assert("span_id"@[0] != "idle_ns"@[0]);
    assert("service"@[0] != "busy_ns"@[0]);
    assert("message"@[0] != "busy_ns"@[0]);
    assert("span_id"@[0] != "busy_ns"@[0]);
    assert("idle_ns"@[0] != "busy_ns"@[0]);
    assert("name"@[0] != "kind"@[0]);
    assert("data"@[0] != "kind"@[0]);
}

proof fn lemma_ranked_join(
    a: Seq<(Seq<char>, ValueView)>,
    b: Seq<(Seq<char>, ValueView)>,
    lo: int,
    mid: int,
    hi: int,
)
    requires
        ranked(a, lo, mid),
        ranked(b, mid, hi),
        lo <= mid <= hi,
    ensures
        ranked(a + b, lo, hi),
{
    let all = a + b;
    assert forall|i: int| 0 <= i < all.len() implies lo <= rank((#[trigger] all[i]).0) < hi by {
        if i < a.len() {
            assert(all[i] == a[i]);
        } else {
            assert(all[i] == b[i - a.len()]);
        }
    }
    assert forall|i: int, j: int| 0 <= i < j < all.len() implies rank((#[trigger] all[i]).0) < rank(
        (#[trigger] all[j]).0,
    ) by {
        if j < a.len() {
            assert(all[i] == a[i] && all[j] == a[j]);
        } else if i < a.len() {
            assert(all[i] == a[i] && all[j] == b[j - a.len()]);
        } else {
            assert(all[i] == b[i - a.len()] && all[j] == b[j - a.len()]);
        }
    }
}

/// No field occurs twice in a record.
pub proof fn law_no_field_twice<Extra>(event: Event<Extra>, service_name: Seq<char>)
    ensures
        forall|i: int, j: int|
            0 <= i < j < event.fields(service_name).len() ==> (#[trigger] event.fields(
                service_name,
            )[i]).0 != (#[trigger] event.fields(service_name)[j]).0,
{
    lemma_ranks();
    let a = service_fields(service_name);
    assert(ranked(a, 0, 1));
    match event {
        Event::Log {
            message,
            module,
            target,
            level,
            name,
            data,
            time,
            trace_id,
            parent_span_id,
            ..
        } => {
            let b = text_field("message"@, message);
            let c = text_field("module_path"@, module);
            let d = common_fields(target@, level, name@);
            let e = seq![("data"@, Value::Object(data)@)];
            let f = time_field(time);
            let g = id_field("trace_id"@, trace_id);
            let h = id_field("parent_span_id"@, parent_span_id);
            let k = seq![("kind"@, ValueView::Text("server"@))];
            lemma_ranked_join(a, b, 0, 1, 2);
            lemma_ranked_join(a + b, c, 0, 2, 3);
            lemma_ranked_join(a + b + c, d, 0, 3, 6);
            lemma_ranked_join(a + b + c + d, e, 0, 6, 7);
            lemma_ranked_join(a + b + c + d + e, f, 0, 7, 8);
            lemma_ranked_join(a + b + c + d + e + f, g, 0, 8, 10);
            lemma_ranked_join(a + b + c + d + e + f + g, h, 0, 10, 14);
            lemma_ranked_join(a + b + c + d + e + f + g + h, k, 0, 14, 15);
        },
        Event::Span {
            module,
            target,
            level,
            name,
            data,
            time,
            span_info,
            parent_span_id,
            ..
        } => {
            let c = text_field("module_path"@, module);
            let d = common_fields(target@, level, name@);
            let e = data_field(data);
            let f = time_field(time);
            let g = span_fields(span_info);
            let h = id_field("parent_span_id"@, parent_span_id);
            let k = seq![("kind"@, ValueView::Text("server"@))];
            lemma_ranked_join(a, c, 0, 1, 3);
            lemma_ranked_join(a + c, d, 0, 3, 6);
            lemma_ranked_join(a + c + d, e, 0, 6, 7);
            lemma_ranked_join(a + c + d + e, f, 0, 7, 8);
            lemma_ranked_join(a + c + d + e + f, g, 0, 8, 13);
            lemma_ranked_join(a + c + d + e + f + g, h, 0, 13, 14);
            lemma_ranked_join(a + c + d + e + f + g + h, k, 0, 14, 15);
        },
        Event::Extra(_) => {},
    }
}

/// Every record names the service first, and every log or span ends with the
/// kind that Axiom wants.
pub proof fn law_service_first_kind_last<Extra>(event: Event<Extra>, service_name: Seq<char>)
    ensures
        event.fields(service_name)[0] == service_fields(service_name)[0],
        !(event is Extra) ==> event.fields(service_name).last() == (
            "kind"@,
            ValueView::Text("server"@),
        ),
{
}

} // verus!
