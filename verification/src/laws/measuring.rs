//! Metrics in the OpenTelemetry protocol.

use vstd::prelude::*;

#[allow(unused_imports)]
use crate::metrics::{
    key_values, metrics_to_proto, AggregationTemporality, AttrValue, Metric, MetricData,
    MetricUnit, MetricValue,
};
#[allow(unused_imports)]
use crate::proto;
#[allow(unused_imports)]
use crate::proto::any_value;
#[allow(unused_imports)]
use crate::proto::metric;
#[allow(unused_imports)]
use crate::proto::number_data_point;
#[allow(unused_imports)]
use crate::proto::Double;
#[allow(unused_imports)]
use crate::sorted_map::{key_before, SortedMap};

verus! {

/// An attribute value comes out as the alternative of its own type, with the
/// same content.
pub proof fn law_attribute_keeps_type_and_content(v: AttrValue, r: proto::AnyValue)
    requires
        call_ensures(AttrValue::as_proto, (v,), r),
    ensures
        r.value matches Some(x) && match v {
            AttrValue::Str(s) => x == any_value::Value::StringValue(s),
            AttrValue::I64(i) => x == any_value::Value::IntValue(i),
            AttrValue::F(f) => x == any_value::Value::DoubleValue(f),
            AttrValue::Bool(b) => x == any_value::Value::BoolValue(b),
        },
{
}

/// A measured number comes out as the alternative of its own type, with the same
/// content.
pub proof fn law_number_keeps_type_and_content(v: MetricValue, r: number_data_point::Value)
    requires
        call_ensures(MetricValue::as_proto, (v,), r),
    ensures
        match v {
            MetricValue::F64(f) => r == number_data_point::Value::AsDouble(f),
            MetricValue::I64(i) => r == number_data_point::Value::AsInt(i),
        },
{
}

/// A temporality comes out under its own name, and by its number: 1 for delta, 2
/// for cumulative.
pub proof fn law_temporality_numbers(
    t: AggregationTemporality,
    r: proto::AggregationTemporality,
    n: i32,
)
    requires
        call_ensures(AggregationTemporality::as_proto, (t,), r),
        call_ensures(proto::AggregationTemporality::as_i32, (r,), n),
    ensures
        match t {
            AggregationTemporality::Delta => r is Delta && n == 1,
            AggregationTemporality::Cumulative => r is Cumulative && n == 2,
        },
{
}

/// These attributes spell those entries: one each, in the same order, with the
/// same key and a value of the same type and content.
pub open spec fn spells(
    attributes: Seq<proto::KeyValue>,
    entries: Seq<(String, AttrValue)>,
) -> bool {
    &&& attributes.len() == entries.len()
    &&& forall|i: int|
        0 <= i < entries.len() ==> {
            &&& (#[trigger] attributes[i]).key@ == entries[i].0@
            &&& attributes[i].value matches Some(any)
            &&& any.value matches Some(x)
            &&& match entries[i].1 {
                AttrValue::Str(s) => x matches any_value::Value::StringValue(y) && y@ == s@,
                AttrValue::I64(n) => x == any_value::Value::IntValue(n),
                AttrValue::F(f) => x == any_value::Value::DoubleValue(f),
                AttrValue::Bool(b) => x == any_value::Value::BoolValue(b),
            }
        }
}

proof fn lemma_spells(entries: Seq<(String, AttrValue)>)
    ensures
        spells(key_values(entries), entries),
{
}

/// The point holds this number, taken at this time, with these attributes.
pub open spec fn measures(
    point: proto::NumberDataPoint,
    value: MetricValue,
    time_unix_nano: u64,
    entries: Seq<(String, AttrValue)>,
) -> bool {
    &&& spells(point.attributes@, entries)
    &&& point.time_unix_nano == time_unix_nano
    &&& point.value matches Some(x)
    &&& match value {
        MetricValue::F64(f) => x == number_data_point::Value::AsDouble(f),
        MetricValue::I64(i) => x == number_data_point::Value::AsInt(i),
    }
}

/// The number of a temporality in the protocol.
pub open spec fn numbered(t: AggregationTemporality, n: i32) -> bool {
    match t {
        AggregationTemporality::Delta => n == 1,
        AggregationTemporality::Cumulative => n == 2,
    }
}

/// A metric and its form in the protocol agree in every part.
proof fn lemma_converted(m: Metric, time_unix_nano: u64, r: proto::Metric)
    requires
        m.converted(time_unix_nano, r),
    ensures
        r.name == m.name,
        r.description == m.description,
        r.unit@ == m.unit.symbol(),
        match m.data {
            MetricData::Gauge { value } => {
                &&& r.data matches Some(metric::Data::Gauge(x))
                &&& x.data_points@.len() == 1
                &&& measures(x.data_points@[0], value, time_unix_nano, m.attrs@)
            },
            MetricData::Sum { temporality, monotonic, value } => {
                &&& r.data matches Some(metric::Data::Sum(x))
                &&& x.data_points@.len() == 1
                &&& measures(x.data_points@[0], value, time_unix_nano, m.attrs@)
                &&& numbered(temporality, x.aggregation_temporality)
                &&& x.is_monotonic == monotonic
            },
            MetricData::Histogram {
                temporality,
                count,
                sum,
                bucket_counts,
                explicit_bounds,
                min,
                max,
            } => {
                &&& r.data matches Some(metric::Data::Histogram(x))
                &&& x.data_points@.len() == 1
                &&& spells(x.data_points@[0].attributes@, m.attrs@)
                &&& x.data_points@[0].time_unix_nano == time_unix_nano
                &&& x.data_points@[0].count == count
                &&& x.data_points@[0].sum == sum
                &&& x.data_points@[0].bucket_counts@ == bucket_counts@
                &&& x.data_points@[0].explicit_bounds@ == explicit_bounds@
                &&& x.data_points@[0].min == min
                &&& x.data_points@[0].max == max
                &&& numbered(temporality, x.aggregation_temporality)
            },
        },
{
    lemma_spells(m.attrs@);
}

/// A gauge comes out as a gauge, under its own name, description and unit, with one
/// point that holds its value, the time and its attributes.
pub proof fn law_gauge(m: Metric, time_unix_nano: u64, r: proto::Metric, unit: &'static str)
    requires
        call_ensures(MetricUnit::as_str, (m.unit,), unit),
        call_ensures(Metric::as_proto, (m, time_unix_nano), r),
        m.data is Gauge,
    ensures
        r.name@ == m.name@,
        r.description@ == m.description@,
        r.unit@ == unit@,
        ({
            &&& r.data matches Some(metric::Data::Gauge(x))
            &&& x.data_points@.len() == 1
            &&& measures(x.data_points@[0], m.data->Gauge_value, time_unix_nano, m.attrs@)
        }),
{
    lemma_converted(m, time_unix_nano, r);
}

/// A sum comes out as a sum, under its own name, description and unit, with one
/// point that holds its value, the time and its attributes; it is monotonic if it
/// was, and delta comes out as 1, cumulative as 2.
pub proof fn law_sum(m: Metric, time_unix_nano: u64, r: proto::Metric, unit: &'static str)
    requires
        call_ensures(MetricUnit::as_str, (m.unit,), unit),
        call_ensures(Metric::as_proto, (m, time_unix_nano), r),
        m.data is Sum,
    ensures
        r.name@ == m.name@,
        r.description@ == m.description@,
        r.unit@ == unit@,
        ({
            &&& r.data matches Some(metric::Data::Sum(x))
            &&& x.data_points@.len() == 1
            &&& measures(x.data_points@[0], m.data->Sum_value, time_unix_nano, m.attrs@)
            &&& x.is_monotonic == m.data->monotonic
            &&& m.data->Sum_temporality is Delta <==> x.aggregation_temporality == 1
            &&& m.data->Sum_temporality is Cumulative <==> x.aggregation_temporality == 2
        }),
{
    lemma_converted(m, time_unix_nano, r);
}

/// A histogram comes out as a histogram, under its own name, description and unit,
/// with one point that holds its count, sum, buckets, bounds and extremes, the
/// time and its attributes; delta comes out as 1, cumulative as 2.
pub proof fn law_histogram(m: Metric, time_unix_nano: u64, r: proto::Metric, unit: &'static str)
    requires
        call_ensures(MetricUnit::as_str, (m.unit,), unit),
        call_ensures(Metric::as_proto, (m, time_unix_nano), r),
        m.data is Histogram,
    ensures
        r.name@ == m.name@,
        r.description@ == m.description@,
        r.unit@ == unit@,
        ({
            &&& r.data matches Some(metric::Data::Histogram(x))
            &&& x.data_points@.len() == 1
            &&& spells(x.data_points@[0].attributes@, m.attrs@)
            &&& x.data_points@[0].time_unix_nano == time_unix_nano
            &&& x.data_points@[0].count == m.data->count
            &&& x.data_points@[0].sum == m.data->sum
            &&& x.data_points@[0].bucket_counts@ == m.data->bucket_counts@
            &&& x.data_points@[0].explicit_bounds@ == m.data->explicit_bounds@
            &&& x.data_points@[0].min == m.data->min
            &&& x.data_points@[0].max == m.data->max
            &&& m.data->Histogram_temporality is Delta <==> x.aggregation_temporality == 1
            &&& m.data->Histogram_temporality is Cumulative <==> x.aggregation_temporality == 2
        }),
{
    lemma_converted(m, time_unix_nano, r);
}

/// Two metrics that come out the same are the same, but for units that share a
/// symbol, and were measured at the same time: name, description, data and
/// attributes can all be told from the form in the protocol.
pub proof fn law_metric_can_be_told_from_its_form(
    a: Metric,
    b: Metric,
    s: u64,
    t: u64,
    r: proto::Metric,
)
    requires
        call_ensures(Metric::as_proto, (a, s), r),
        call_ensures(Metric::as_proto, (b, t), r),
    ensures
        s == t,
        a.name == b.name,
        a.description == b.description,
        a.unit.symbol() == b.unit.symbol(),
        match (a.data, b.data) {
            (MetricData::Gauge { value: v }, MetricData::Gauge { value: w }) => v == w,
            (
                MetricData::Sum { temporality: x, monotonic: m, value: v },
                MetricData::Sum { temporality: y, monotonic: n, value: w },
            ) => x == y && m == n && v == w,
            (
                MetricData::Histogram { temporality: x, .. },
                MetricData::Histogram { temporality: y, .. },
            ) => {
                &&& x == y
                &&& a.data->count == b.data->count
                &&& a.data->sum == b.data->sum
                &&& a.data->bucket_counts@ == b.data->bucket_counts@
                &&& a.data->explicit_bounds@ == b.data->explicit_bounds@
                &&& a.data->min == b.data->min
                &&& a.data->max == b.data->max
            },
            _ => false,
        },
        a.attrs@.len() == b.attrs@.len(),
        forall|i: int|
            0 <= i < a.attrs@.len() ==> (#[trigger] a.attrs@[i]).0@ == b.attrs@[i].0@ && match (
                a.attrs@[i].1,
                b.attrs@[i].1,
            ) {
                (AttrValue::Str(x), AttrValue::Str(y)) => x@ == y@,
                (x, y) => x == y,
            },
{
    lemma_converted(a, s, r);
    lemma_converted(b, t, r);
    let attributes = crate::metrics::point_attributes(r);
    assert(spells(attributes, a.attrs@) && spells(attributes, b.attrs@));
    assert forall|i: int| 0 <= i < a.attrs@.len() implies (#[trigger] a.attrs@[i]).0@
        == b.attrs@[i].0@ && match (a.attrs@[i].1, b.attrs@[i].1) {
        (AttrValue::Str(x), AttrValue::Str(y)) => x@ == y@,
        (x, y) => x == y,
    } by {
        assert(attributes[i].key@ == a.attrs@[i].0@);
    }
}

/// A request holds every metric once, in order, under one scope of one resource,
/// whose attributes are those given; without any there is no resource.
pub proof fn law_request_holds_every_metric(
    metrics: Vec<Metric>,
    time_unix_nano: u64,
    resource_attrs: Option<SortedMap<AttrValue>>,
    r: proto::ExportMetricsServiceRequest,
    i: int,
    unit: &'static str,
)
    requires
        call_ensures(metrics_to_proto, (metrics, time_unix_nano, resource_attrs), r),
        0 <= i < metrics@.len(),
        call_ensures(MetricUnit::as_str, (metrics@[i].unit,), unit),
    ensures
        r.resource_metrics@.len() == 1,
        r.resource_metrics@[0].scope_metrics@.len() == 1,
        r.resource_metrics@[0].scope_metrics@[0].metrics@.len() == metrics@.len(),
        ({
            let m = metrics@[i];
            let x = r.resource_metrics@[0].scope_metrics@[0].metrics@[i];
            &&& x.name@ == m.name@
            &&& x.description@ == m.description@
            &&& x.unit@ == unit@
            &&& match m.data {
                MetricData::Gauge { value } => {
                    &&& x.data matches Some(metric::Data::Gauge(g))
                    &&& g.data_points@.len() == 1
                    &&& measures(g.data_points@[0], value, time_unix_nano, m.attrs@)
                },
                MetricData::Sum { temporality, monotonic, value } => {
                    &&& x.data matches Some(metric::Data::Sum(s))
                    &&& s.data_points@.len() == 1
                    &&& measures(s.data_points@[0], value, time_unix_nano, m.attrs@)
                    &&& numbered(temporality, s.aggregation_temporality)
                    &&& s.is_monotonic == monotonic
                },
                MetricData::Histogram {
                    temporality,
                    count,
                    sum,
                    bucket_counts,
                    explicit_bounds,
                    min,
                    max,
                } => {
                    &&& x.data matches Some(metric::Data::Histogram(h))
                    &&& h.data_points@.len() == 1
                    &&& spells(h.data_points@[0].attributes@, m.attrs@)
                    &&& h.data_points@[0].time_unix_nano == time_unix_nano
                    &&& h.data_points@[0].count == count
                    &&& h.data_points@[0].sum == sum
                    &&& h.data_points@[0].bucket_counts@ == bucket_counts@
                    &&& h.data_points@[0].explicit_bounds@ == explicit_bounds@
                    &&& h.data_points@[0].min == min
                    &&& h.data_points@[0].max == max
                    &&& numbered(temporality, h.aggregation_temporality)
                },
            }
        }),
{
    assert(metrics@[i].converted(
        time_unix_nano,
        r.resource_metrics@[0].scope_metrics@[0].metrics@[i],
    ));
    lemma_converted(
        metrics@[i],
        time_unix_nano,
        r.resource_metrics@[0].scope_metrics@[0].metrics@[i],
    );
}

/// A request names this crate and its version as the scope, and holds the
/// attributes of the resource, if there are any, each once and in the order of
/// their keys. It has as many metrics as were given.
pub proof fn law_request_names_scope_and_resource(
    metrics: Vec<Metric>,
    time_unix_nano: u64,
    resource_attrs: Option<SortedMap<AttrValue>>,
    r: proto::ExportMetricsServiceRequest,
)
    requires
        call_ensures(metrics_to_proto, (metrics, time_unix_nano, resource_attrs), r),
    ensures
        r.resource_metrics@.len() == 1,
        r.resource_metrics@[0].scope_metrics@.len() == 1,
        r.resource_metrics@[0].scope_metrics@[0].metrics@.len() == metrics@.len(),
        r.resource_metrics@[0].scope_metrics@[0].scope matches Some(scope) && scope.name@
            == "tracing-axiom/spanmetrics"@ && scope.version@ == "0.1.0"@,
        match resource_attrs {
            Some(attrs) => r.resource_metrics@[0].resource matches Some(x) && spells(
                x.attributes@,
                attrs@,
            ) && forall|i: int, j: int|
                0 <= i < j < x.attributes@.len() ==> key_before(
                    (#[trigger] x.attributes@[i]).key@,
                    (#[trigger] x.attributes@[j]).key@,
                ),
            None => r.resource_metrics@[0].resource is None,
        },
{
    if let Some(attrs) = resource_attrs {
        lemma_spells(attrs@);
    }
}

/// Two doubles are equal exactly if neither is a NaN, of either sign, and they
/// have the same bits or are both zeros, of either sign.
pub proof fn law_double_equality(a: Double, b: Double, r: bool)
    requires
        call_ensures(<Double as PartialEq>::eq, (&a, &b), r),
    ensures
        0x7ff0_0000_0000_0000 < a.bits < 0x8000_0000_0000_0000 || 0xfff0_0000_0000_0000 < a.bits
            ==> !r,
        0x7ff0_0000_0000_0000 < b.bits < 0x8000_0000_0000_0000 || 0xfff0_0000_0000_0000 < b.bits
            ==> !r,
        r && a.bits != b.bits ==> (a.bits == 0 && b.bits == 0x8000_0000_0000_0000) || (a.bits
            == 0x8000_0000_0000_0000 && b.bits == 0),
        a.bits == b.bits && (a.bits <= 0x7ff0_0000_0000_0000 || 0x8000_0000_0000_0000 <= a.bits
            <= 0xfff0_0000_0000_0000) ==> r,
        a.bits == 0 && b.bits == 0x8000_0000_0000_0000 ==> r,
        a.bits == 0x8000_0000_0000_0000 && b.bits == 0 ==> r,
{
}

} // verus!
