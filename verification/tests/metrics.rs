//! Metrics in the OpenTelemetry protocol.

use tracing_axiom::metrics::{
    metrics_to_proto, AggregationTemporality, AttrValue, Metric, MetricData, MetricUnit,
    MetricValue,
};
use tracing_axiom::proto;
use tracing_axiom::proto::any_value;
use tracing_axiom::proto::metric::Data;
use tracing_axiom::proto::number_data_point;
use tracing_axiom::proto::Double;
use tracing_axiom::sorted_map::SortedMap;

fn double(f: f64) -> Double {
    Double { bits: f.to_bits() }
}

fn attrs() -> SortedMap<AttrValue> {
    let mut map = SortedMap::new();
    map.insert(String::from("z"), AttrValue::Bool(true));
    map.insert(String::from("a"), AttrValue::Str(String::from("text")));
    map.insert(String::from("m"), AttrValue::I64(-3));
    map.insert(String::from("n"), AttrValue::F(double(0.25)));
    map
}

fn key_value(key: &str, value: any_value::Value) -> proto::KeyValue {
    proto::KeyValue {
        key: String::from(key),
        value: Some(proto::AnyValue { value: Some(value) }),
    }
}

fn attrs_in_order() -> Vec<proto::KeyValue> {
    vec![
        key_value("a", any_value::Value::StringValue(String::from("text"))),
        key_value("m", any_value::Value::IntValue(-3)),
        key_value("n", any_value::Value::DoubleValue(double(0.25))),
        key_value("z", any_value::Value::BoolValue(true)),
    ]
}

fn metric(data: MetricData) -> Metric {
    Metric {
        name: String::from("latency"),
        description: String::from("time spent"),
        unit: MetricUnit::Milliseconds,
        data,
        attrs: attrs(),
    }
}

#[test]
fn doubles_are_equal_as_numbers() {
    let samples = [
        0.0,
        -0.0,
        1.0,
        -1.0,
        f64::MIN_POSITIVE,
        5e-324,
        f64::MAX,
        f64::INFINITY,
        f64::NEG_INFINITY,
        f64::NAN,
        -f64::NAN,
        f64::from_bits(0x7ff0_0000_0000_0001),
        f64::from_bits(u64::MAX),
    ];
    for a in samples {
        for b in samples {
            assert_eq!(double(a) == double(b), a == b);
            assert_eq!(MetricValue::F64(double(a)) == MetricValue::F64(double(b)), a == b);
            assert_eq!(AttrValue::F(double(a)) == AttrValue::F(double(b)), a == b);
        }
    }
}

#[test]
fn gauge() {
    let m = metric(MetricData::Gauge { value: MetricValue::F64(double(1.5)) }).as_proto(77);
    assert_eq!(m.name, "latency");
    assert_eq!(m.description, "time spent");
    assert_eq!(m.unit, "ms");
    assert_eq!(
        m.data,
        Some(Data::Gauge(proto::Gauge {
            data_points: vec![proto::NumberDataPoint {
                attributes: attrs_in_order(),
                time_unix_nano: 77,
                value: Some(number_data_point::Value::AsDouble(double(1.5))),
            }]
        }))
    );
}

#[test]
fn sum() {
    for (temporality, number) in
        [(AggregationTemporality::Delta, 1), (AggregationTemporality::Cumulative, 2)]
    {
        for monotonic in [true, false] {
            let value = MetricValue::I64(12);
            let m = metric(MetricData::Sum { temporality, monotonic, value }).as_proto(5);
            assert_eq!(
                m.data,
                Some(Data::Sum(proto::Sum {
                    data_points: vec![proto::NumberDataPoint {
                        attributes: attrs_in_order(),
                        time_unix_nano: 5,
                        value: Some(number_data_point::Value::AsInt(12)),
                    }],
                    aggregation_temporality: number,
                    is_monotonic: monotonic,
                }))
            );
        }
    }
}

#[test]
fn histogram() {
    let m = metric(MetricData::Histogram {
        temporality: AggregationTemporality::Cumulative,
        count: 6,
        sum: Some(double(10.0)),
        bucket_counts: vec![1, 2, 3],
        explicit_bounds: vec![double(0.5), double(2.0)],
        min: None,
        max: Some(double(4.0)),
    })
    .as_proto(u64::MAX);
    assert_eq!(
        m.data,
        Some(Data::Histogram(proto::Histogram {
            data_points: vec![proto::HistogramDataPoint {
                attributes: attrs_in_order(),
                time_unix_nano: u64::MAX,
                count: 6,
                sum: Some(double(10.0)),
                bucket_counts: vec![1, 2, 3],
                explicit_bounds: vec![double(0.5), double(2.0)],
                min: None,
                max: Some(double(4.0)),
            }],
            aggregation_temporality: 2,
        }))
    );
}

#[test]
fn request_holds_all_metrics_in_order() {
    let metrics: Vec<Metric> = (0..3)
        .map(|i| Metric {
            name: format!("m{}", i),
            description: String::new(),
            unit: MetricUnit::Count,
            data: MetricData::Gauge { value: MetricValue::I64(i) },
            attrs: SortedMap::new(),
        })
        .collect();
    let request = metrics_to_proto(metrics, 9, Some(attrs()));
    assert_eq!(request.resource_metrics.len(), 1);
    let resource_metrics = &request.resource_metrics[0];
    assert_eq!(
        resource_metrics.resource,
        Some(proto::Resource { attributes: attrs_in_order() })
    );
    assert_eq!(resource_metrics.scope_metrics.len(), 1);
    let scope_metrics = &resource_metrics.scope_metrics[0];
    let scope = scope_metrics.scope.as_ref().unwrap();
    assert_eq!(scope.name, "tracing-axiom/spanmetrics");
    assert_eq!(scope.version, "0.1.0");
    let names: Vec<&str> = scope_metrics.metrics.iter().map(|m| m.name.as_str()).collect();
    assert_eq!(names, vec!["m0", "m1", "m2"]);
}

#[test]
fn empty_request() {
    let request = metrics_to_proto(Vec::new(), 0, None);
    assert_eq!(request.resource_metrics[0].resource, None);
    assert!(request.resource_metrics[0].scope_metrics[0].metrics.is_empty());
}

#[test]
fn temporalities() {
    assert_eq!(
        AggregationTemporality::Delta.as_proto(),
        proto::AggregationTemporality::Delta
    );
    assert_eq!(
        AggregationTemporality::Cumulative.as_proto(),
        proto::AggregationTemporality::Cumulative
    );
    assert_eq!(proto::AggregationTemporality::Unspecified.as_i32(), 0);
}

#[test]
fn unit_symbols() {
    let symbols = [
        (MetricUnit::KibibytesPerSecond, "KiB/s"),
        (MetricUnit::KilobytesPerSecond, "KB/s"),
        (MetricUnit::KilobitsPerSecond, "Kbit/s"),
        (MetricUnit::BytesPerSecond, "B/s"),
        (MetricUnit::Kibibytes, "KiB"),
        (MetricUnit::Kilobytes, "KB"),
        (MetricUnit::Kilobits, "Kbit"),
        (MetricUnit::Bytes, "B"),
        (MetricUnit::Bits, "bit"),
        (MetricUnit::Seconds, "s"),
        (MetricUnit::Milliseconds, "ms"),
        (MetricUnit::Microseconds, "us"),
        (MetricUnit::Nanoseconds, "ns"),
        (MetricUnit::Count, "1"),
        (MetricUnit::CountPerSecond, "1/s"),
        (MetricUnit::Percent, "%"),
        (MetricUnit::Ratio, "1"),
        (MetricUnit::Packets, "{packet}"),
        (MetricUnit::PacketsPerSecond, "{packet}/s"),
        (MetricUnit::Requests, "{request}"),
        (MetricUnit::RequestsPerSecond, "{request}/s"),
        (MetricUnit::Bool, "1"),
        (MetricUnit::Unknown, ""),
    ];
    for (unit, symbol) in symbols {
        assert_eq!(unit.as_str(), symbol);
    }
}
