//! Metrics, and their form in the OpenTelemetry protocol.

use vstd::prelude::*;

use crate::proto;
use crate::proto::any_value;
use crate::proto::metric;
use crate::proto::number_data_point;
use crate::proto::Double;
#[allow(unused_imports)]
use crate::sorted_map::key_before;
use crate::sorted_map::SortedMap;

verus! {

/// The scope under which metrics are exported.
pub const SCOPE_NAME: &'static str = "tracing-axiom/spanmetrics";

/// The version of this crate.
pub const PKG_VERSION: &'static str = "0.1.0";

/// A measurement.
#[derive(Debug, Clone, PartialEq)]
pub struct Metric {
    pub name: String,
    pub description: String,
    pub unit: MetricUnit,
    pub data: MetricData,
    pub attrs: SortedMap<AttrValue>,
}

/// What was measured.
#[derive(Debug, Clone, PartialEq)]
pub enum MetricData {
    Gauge { value: MetricValue },
    Sum { temporality: AggregationTemporality, monotonic: bool, value: MetricValue },
    Histogram {
        temporality: AggregationTemporality,
        count: u64,
        sum: Option<Double>,
        bucket_counts: Vec<u64>,
        explicit_bounds: Vec<Double>,
        min: Option<Double>,
        max: Option<Double>,
    },
}

/// The value of an attribute.
#[derive(Debug, Clone, PartialEq)]
pub enum AttrValue {
    Str(String),
    I64(i64),
    F(Double),
    Bool(bool),
}

/// How a series of values adds up over time.
#[derive(Debug, Clone, Copy, PartialEq, Eq, Structural, PartialOrd, Ord, Hash)]
pub enum AggregationTemporality {
    Delta,
    Cumulative,
}

/// A measured number.
#[derive(Debug, Clone, Copy, PartialEq)]
pub enum MetricValue {
    F64(Double),
    I64(i64),
}

impl AttrValue {
    /// The value in the protocol.
    pub open spec fn proto(self) -> proto::AnyValue {
        proto::AnyValue {
            value: Some(
                match self {
                    AttrValue::Str(s) => any_value::Value::StringValue(s),
                    AttrValue::I64(i) => any_value::Value::IntValue(i),
                    AttrValue::F(f) => any_value::Value::DoubleValue(f),
                    AttrValue::Bool(b) => any_value::Value::BoolValue(b),
                },
            ),
        }
    }

    /// The value in the protocol.
    pub fn as_proto(self) -> (r: proto::AnyValue)
        ensures
            r == self.proto(),
    {
        match self {
            AttrValue::Str(s) => proto::AnyValue {
                value: Some(any_value::Value::StringValue(s)),
            },
            AttrValue::I64(i) => proto::AnyValue { value: Some(any_value::Value::IntValue(i)) },
            AttrValue::F(f) => proto::AnyValue { value: Some(any_value::Value::DoubleValue(f)) },
            AttrValue::Bool(b) => proto::AnyValue { value: Some(any_value::Value::BoolValue(b)) },
        }
    }
}

impl MetricValue {
    /// The number in the protocol.
    pub open spec fn proto(self) -> number_data_point::Value {
        match self {
            MetricValue::F64(f) => number_data_point::Value::AsDouble(f),
            MetricValue::I64(i) => number_data_point::Value::AsInt(i),
        }
    }

    /// The number in the protocol.
    pub fn as_proto(self) -> (r: number_data_point::Value)
        ensures
            r == self.proto(),
    {
        match self {
            MetricValue::F64(f) => number_data_point::Value::AsDouble(f),
            MetricValue::I64(i) => number_data_point::Value::AsInt(i),
        }
    }
}

impl AggregationTemporality {
    /// The temporality in the protocol.
    pub open spec fn proto(self) -> proto::AggregationTemporality {
        match self {
            AggregationTemporality::Delta => proto::AggregationTemporality::Delta,
            AggregationTemporality::Cumulative => proto::AggregationTemporality::Cumulative,
        }
    }

    /// The temporality in the protocol.
    pub fn as_proto(self) -> (r: proto::AggregationTemporality)
        ensures
            r == self.proto(),
    {
        match self {
            AggregationTemporality::Delta => proto::AggregationTemporality::Delta,
            AggregationTemporality::Cumulative => proto::AggregationTemporality::Cumulative,
        }
    }
}

/// The attributes in the protocol, in the order of their keys.
pub open spec fn key_values(entries: Seq<(String, AttrValue)>) -> Seq<proto::KeyValue> {
    entries.map_values(
        |e: (String, AttrValue)| proto::KeyValue { key: e.0, value: Some(e.1.proto()) },
    )
}

/// Keys stand in order, each once.
pub open spec fn keys_in_order(attributes: Seq<proto::KeyValue>) -> bool {
    forall|i: int, j: int|
        0 <= i < j < attributes.len() ==> key_before(
            (#[trigger] attributes[i]).key@,
            (#[trigger] attributes[j]).key@,
        )
}

/// The attributes in the protocol, in the order of their keys.
fn attrs_to_proto(attrs: SortedMap<AttrValue>) -> (r: Vec<proto::KeyValue>)
    ensures
        r@ == key_values(attrs@),
        keys_in_order(r@),
{
    let mut out: Vec<proto::KeyValue> = Vec::new();
    let ghost entries = attrs@;
    let source = attrs.into_entries();
    assert(attrs.wf());
    for entry in iter: source
        invariant
            iter.seq() == entries,
            out@ == key_values(entries.take(iter.index() as int)),
    {
        let (key, value) = entry;
        out.push(proto::KeyValue { key, value: Some(value.as_proto()) });
        assert(out@ =~= key_values(entries.take(iter.index() as int + 1)));
    }
    assert(entries.take(entries.len() as int) =~= entries);
    proof {
        law_attributes_in_order(attrs);
    }
    out
}

/// The unit of a metric.
#[derive(Debug, Clone, Copy, PartialEq, Eq, Structural, PartialOrd, Ord, Hash)]
pub enum MetricUnit {
    KibibytesPerSecond,
    KilobytesPerSecond,
    KilobitsPerSecond,
    BytesPerSecond,
    Kibibytes,
    Kilobytes,
    Kilobits,
    Bytes,
    Bits,
    Seconds,
    Milliseconds,
    Microseconds,
    Nanoseconds,
    Count,
    CountPerSecond,
    Percent,
    Ratio,
    Packets,
    PacketsPerSecond,
    Requests,
    RequestsPerSecond,
    Bool,
    Unknown,
}

impl MetricUnit {
    /// The unit's symbol.
    pub open spec fn symbol(self) -> Seq<char> {
        match self {
            MetricUnit::KibibytesPerSecond => "KiB/s"@,
            MetricUnit::KilobytesPerSecond => "KB/s"@,
            MetricUnit::KilobitsPerSecond => "Kbit/s"@,
            MetricUnit::BytesPerSecond => "B/s"@,
            MetricUnit::Kibibytes => "KiB"@,
            MetricUnit::Kilobytes => "KB"@,
            MetricUnit::Kilobits => "Kbit"@,
            MetricUnit::Bytes => "B"@,
            MetricUnit::Bits => "bit"@,
            MetricUnit::Seconds => "s"@,
            MetricUnit::Milliseconds => "ms"@,
            MetricUnit::Microseconds => "us"@,
            MetricUnit::Nanoseconds => "ns"@,
            MetricUnit::Count => "1"@,
            MetricUnit::CountPerSecond => "1/s"@,
            MetricUnit::Percent => "%"@,
            MetricUnit::Ratio => "1"@,
            MetricUnit::Packets => "{packet}"@,
            MetricUnit::PacketsPerSecond => "{packet}/s"@,
            MetricUnit::Requests => "{request}"@,
            MetricUnit::RequestsPerSecond => "{request}/s"@,
            MetricUnit::Bool => "1"@,
            MetricUnit::Unknown => ""@,
        }
    }

    /// The unit's symbol.
    pub fn as_str(self) -> (r: &'static str)
        ensures
            r@ == self.symbol(),
    {
        match self {
            MetricUnit::KibibytesPerSecond => "KiB/s",
            MetricUnit::KilobytesPerSecond => "KB/s",
            MetricUnit::KilobitsPerSecond => "Kbit/s",
            MetricUnit::BytesPerSecond => "B/s",
            MetricUnit::Kibibytes => "KiB",
            MetricUnit::Kilobytes => "KB",
            MetricUnit::Kilobits => "Kbit",
            MetricUnit::Bytes => "B",
            MetricUnit::Bits => "bit",
            MetricUnit::Seconds => "s",
            MetricUnit::Milliseconds => "ms",
            MetricUnit::Microseconds => "us",
            MetricUnit::Nanoseconds => "ns",
            MetricUnit::Count => "1",
            MetricUnit::CountPerSecond => "1/s",
            MetricUnit::Percent => "%",
            MetricUnit::Ratio => "1",
            MetricUnit::Packets => "{packet}",
            MetricUnit::PacketsPerSecond => "{packet}/s",
            MetricUnit::Requests => "{request}",
            MetricUnit::RequestsPerSecond => "{request}/s",
            MetricUnit::Bool => "1",
            MetricUnit::Unknown => "",
        }
    }
}

/// The data of a metric in the protocol: one point, with the metric's
/// attributes.
pub open spec fn data_converted(
    data: MetricData,
    attrs: Seq<(String, AttrValue)>,
    time_unix_nano: u64,
    r: metric::Data,
) -> bool {
    match data {
        MetricData::Gauge { value } => {
            &&& r matches metric::Data::Gauge(gauge)
            &&& gauge.data_points@.len() == 1
            &&& number_converted(value, attrs, time_unix_nano, gauge.data_points@[0])
        },
        MetricData::Sum { temporality, monotonic, value } => {
            &&& r matches metric::Data::Sum(sum)
            &&& sum.data_points@.len() == 1
            &&& number_converted(value, attrs, time_unix_nano, sum.data_points@[0])
            &&& sum.aggregation_temporality == temporality.proto().number()
            &&& sum.is_monotonic == monotonic
        },
        MetricData::Histogram {
            temporality,
            count,
            sum,
            bucket_counts,
            explicit_bounds,
            min,
            max,
        } => {
            &&& r matches metric::Data::Histogram(histogram)
            &&& histogram.data_points@.len() == 1
            &&& histogram.data_points@[0].attributes@ == key_values(attrs)
            &&& histogram.data_points@[0] == (proto::HistogramDataPoint {
                attributes: histogram.data_points@[0].attributes,
                time_unix_nano,
                count,
                sum,
                bucket_counts,
                explicit_bounds,
                min,
                max,
            })
            &&& histogram.aggregation_temporality == temporality.proto().number()
        },
    }
}

/// A point that holds a measured number.
pub open spec fn number_converted(
    value: MetricValue,
    attrs: Seq<(String, AttrValue)>,
    time_unix_nano: u64,
    r: proto::NumberDataPoint,
) -> bool {
    &&& r.attributes@ == key_values(attrs)
    &&& r.time_unix_nano == time_unix_nano
    &&& r.value == Some(value.proto())
}

/// The attributes of a metric's point in the protocol.
pub open spec fn point_attributes(m: proto::Metric) -> Seq<proto::KeyValue> {
    match m.data->0 {
        metric::Data::Gauge(gauge) => gauge.data_points@[0].attributes@,
        metric::Data::Sum(sum) => sum.data_points@[0].attributes@,
        metric::Data::Histogram(histogram) => histogram.data_points@[0].attributes@,
    }
}

impl Metric {
    /// `r` is the metric in the protocol, measured at the given time.
    pub open spec fn converted(self, time_unix_nano: u64, r: proto::Metric) -> bool {
        &&& r.name == self.name
        &&& r.description == self.description
        &&& r.unit@ == self.unit.symbol()
        &&& r.data matches Some(data)
        &&& data_converted(self.data, self.attrs@, time_unix_nano, data)
    }

    /// The metric in the protocol, measured at the given time.
    pub fn as_proto(self, time_unix_nano: u64) -> (r: proto::Metric)
        ensures
            self.converted(time_unix_nano, r),
            keys_in_order(point_attributes(r)),
            self.data matches MetricData::Sum { temporality, .. } ==> (
            r.data matches Some(metric::Data::Sum(sum)) && sum.aggregation_temporality == (
            match temporality {
                AggregationTemporality::Delta => 1i32,
                AggregationTemporality::Cumulative => 2i32,
            })),
            self.data matches MetricData::Histogram { temporality, .. } ==> (
            r.data matches Some(metric::Data::Histogram(histogram))
                && histogram.aggregation_temporality == (match temporality {
                AggregationTemporality::Delta => 1i32,
                AggregationTemporality::Cumulative => 2i32,
            })),
    {
        let attributes = attrs_to_proto(self.attrs);
        let data = match self.data {
            MetricData::Gauge { value } => {
                let point = proto::NumberDataPoint {
                    attributes,
                    time_unix_nano,
                    value: Some(value.as_proto()),
                };
                metric::Data::Gauge(proto::Gauge { data_points: vec![point] })
            },
            MetricData::Sum { temporality, monotonic, value } => {
                let point = proto::NumberDataPoint {
                    attributes,
                    time_unix_nano,
                    value: Some(value.as_proto()),
                };
                metric::Data::Sum(
                    proto::Sum {
                        data_points: vec![point],
                        aggregation_temporality: temporality.as_proto().as_i32(),
                        is_monotonic: monotonic,
                    },
                )
            },
            MetricData::Histogram {
                temporality,
                count,
                sum,
                bucket_counts,
                explicit_bounds,
                min,
                max,
            } => {
                let point = proto::HistogramDataPoint {
                    attributes,
                    time_unix_nano,
                    count,
                    sum,
                    bucket_counts,
                    explicit_bounds,
                    min,
                    max,
                };
                metric::Data::Histogram(
                    proto::Histogram {
                        data_points: vec![point],
                        aggregation_temporality: temporality.as_proto().as_i32(),
                    },
                )
            },
        };
        proto::Metric {
            name: self.name,
            description: self.description,
            unit: self.unit.as_str().to_owned(),
            data: Some(data),
        }
    }
}

/// `r` holds the metrics in the protocol, in order.
pub open spec fn all_converted(
    metrics: Seq<Metric>,
    time_unix_nano: u64,
    r: Seq<proto::Metric>,
) -> bool {
    &&& r.len() == metrics.len()
    &&& forall|i: int|
        0 <= i < metrics.len() ==> (#[trigger] metrics[i]).converted(time_unix_nano, r[i])
}

/// A request to take the metrics in, all measured at the given time: one
/// resource with the given attributes, one scope, and the metrics in order.
pub fn metrics_to_proto(
    metrics: Vec<Metric>,
    time_unix_nano: u64,
    resource_attrs: Option<SortedMap<AttrValue>>,
) -> (r: proto::ExportMetricsServiceRequest)
    ensures
        r.resource_metrics@.len() == 1,
        match resource_attrs {
            Some(attrs) => r.resource_metrics@[0].resource matches Some(resource)
                && resource.attributes@ == key_values(attrs@) && keys_in_order(
                resource.attributes@,
            ),
            None => r.resource_metrics@[0].resource is None,
        },
        r.resource_metrics@[0].scope_metrics@.len() == 1,
        r.resource_metrics@[0].scope_metrics@[0].scope matches Some(scope) && scope.name@
            == "tracing-axiom/spanmetrics"@ && scope.version@ == "0.1.0"@,
        all_converted(
            metrics@,
            time_unix_nano,
            r.resource_metrics@[0].scope_metrics@[0].metrics@,
        ),
        forall|i: int|
            0 <= i < metrics@.len() ==> keys_in_order(
                point_attributes(
                    #[trigger] r.resource_metrics@[0].scope_metrics@[0].metrics@[i],
                ),
            ),
{
    let mut converted: Vec<proto::Metric> = Vec::new();
    let ghost all = metrics@;
    for m in iter: metrics
        invariant
            iter.seq() == all,
            converted@.len() == iter.index(),
            forall|i: int|
                0 <= i < iter.index() ==> (#[trigger] all[i]).converted(
                    time_unix_nano,
                    converted@[i],
                ),
            forall|i: int|
                0 <= i < converted@.len() ==> keys_in_order(
                    point_attributes(#[trigger] converted@[i]),
                ),
    {
        converted.push(m.as_proto(time_unix_nano));
    }
    let scope = proto::InstrumentationScope {
        name: SCOPE_NAME.to_owned(),
        version: PKG_VERSION.to_owned(),
    };
    let scope_metrics = proto::ScopeMetrics { scope: Some(scope), metrics: converted };
    let resource = match resource_attrs {
        Some(attrs) => Some(proto::Resource { attributes: attrs_to_proto(attrs) }),
        None => None,
    };
    let resource_metrics = proto::ResourceMetrics { resource, scope_metrics: vec![scope_metrics] };
    proto::ExportMetricsServiceRequest { resource_metrics: vec![resource_metrics] }
}

/// Attributes come out in the order of their keys, each once.
pub proof fn law_attributes_in_order(attrs: SortedMap<AttrValue>)
    requires
        attrs.wf(),
    ensures
        key_values(attrs@).len() == attrs@.len(),
        keys_in_order(key_values(attrs@)),
{
    assert forall|i: int, j: int| 0 <= i < j < attrs@.len() implies key_before(
        (#[trigger] key_values(attrs@)[i]).key@,
        (#[trigger] key_values(attrs@)[j]).key@,
    ) by {
        assert(key_before(attrs@[i].0@, attrs@[j].0@));
    }
}

/// Conversion keeps apart what is different: attributes, numbers and
/// temporalities can be told from their form in the protocol.
pub proof fn law_conversion_is_injective(
    a: AttrValue,
    b: AttrValue,
    v: MetricValue,
    w: MetricValue,
    s: AggregationTemporality,
    t: AggregationTemporality,
)
    ensures
        a.proto() == b.proto() ==> a == b,
        v.proto() == w.proto() ==> v == w,
        s.proto().number() == t.proto().number() ==> s == t,
{
}

} // verus!
