//! The part of the OpenTelemetry metrics protocol that is sent: the messages,
//! with the fields that are ever set. All others keep their defaults, which the
//! wire format leaves out.

use vstd::prelude::*;

pub mod any_value;
pub mod metric;
pub mod number_data_point;

verus! {

/// A double-precision floating-point number, by its IEEE 754 bits.
#[derive(Clone, Copy, Debug)]
pub struct Double {
    pub bits: u64,
}

impl Double {
    /// The bits without the sign.
    pub open spec fn magnitude(self) -> int {
        self.bits as int % 0x8000_0000_0000_0000
    }

    /// Not a number: all exponent bits are set, and some bit of the fraction.
    pub open spec fn is_nan(self) -> bool {
        self.magnitude() > 0x7ff0_0000_0000_0000
    }

    /// Zero, of either sign.
    pub open spec fn is_zero(self) -> bool {
        self.magnitude() == 0
    }
}

impl PartialEq for Double {
    /// Whether the two are the same number. The zeros are equal, and what is not
    /// a number equals nothing.
    fn eq(&self, other: &Self) -> (r: bool) {
        let a: u64 = self.bits % 0x8000_0000_0000_0000;
        let b: u64 = other.bits % 0x8000_0000_0000_0000;
        a <= 0x7ff0_0000_0000_0000 && b <= 0x7ff0_0000_0000_0000 && (self.bits == other.bits || (a
            == 0 && b == 0))
    }
}

impl vstd::std_specs::cmp::PartialEqSpecImpl for Double {
    open spec fn obeys_eq_spec() -> bool {
        true
    }

    open spec fn eq_spec(&self, other: &Self) -> bool {
        &&& !self.is_nan()
        &&& !other.is_nan()
        &&& self.bits == other.bits || (self.is_zero() && other.is_zero())
    }
}

/// The value of an attribute.
#[derive(Debug, PartialEq)]
pub struct AnyValue {
    pub value: Option<any_value::Value>,
}

/// An attribute.
#[derive(Debug, PartialEq)]
pub struct KeyValue {
    pub key: String,
    pub value: Option<AnyValue>,
}

/// How a series of values adds up over time.
#[derive(Clone, Copy, PartialEq, Eq, Structural, Debug)]
pub enum AggregationTemporality {
    Unspecified,
    Delta,
    Cumulative,
}

impl AggregationTemporality {
    /// The number of the enum value in the protocol.
    pub open spec fn number(self) -> i32 {
        match self {
            AggregationTemporality::Unspecified => 0,
            AggregationTemporality::Delta => 1,
            AggregationTemporality::Cumulative => 2,
        }
    }

    /// The number of the enum value in the protocol.
    pub fn as_i32(self) -> (r: i32)
        ensures
            r == self.number(),
    {
        match self {
            AggregationTemporality::Unspecified => 0,
            AggregationTemporality::Delta => 1,
            AggregationTemporality::Cumulative => 2,
        }
    }
}

/// One measurement of a number.
#[derive(Debug, PartialEq)]
pub struct NumberDataPoint {
    pub attributes: Vec<KeyValue>,
    pub time_unix_nano: u64,
    pub value: Option<number_data_point::Value>,
}

/// One measurement of a distribution.
#[derive(Debug, PartialEq)]
pub struct HistogramDataPoint {
    pub attributes: Vec<KeyValue>,
    pub time_unix_nano: u64,
    pub count: u64,
    pub sum: Option<Double>,
    pub bucket_counts: Vec<u64>,
    pub explicit_bounds: Vec<Double>,
    pub min: Option<Double>,
    pub max: Option<Double>,
}

/// Values that stand for themselves.
#[derive(Debug, PartialEq)]
pub struct Gauge {
    pub data_points: Vec<NumberDataPoint>,
}

/// Values that add up.
#[derive(Debug, PartialEq)]
pub struct Sum {
    pub data_points: Vec<NumberDataPoint>,
    pub aggregation_temporality: i32,
    pub is_monotonic: bool,
}

/// Distributions.
#[derive(Debug, PartialEq)]
pub struct Histogram {
    pub data_points: Vec<HistogramDataPoint>,
    pub aggregation_temporality: i32,
}

/// A metric.
#[derive(Debug, PartialEq)]
pub struct Metric {
    pub name: String,
    pub description: String,
    pub unit: String,
    pub data: Option<metric::Data>,
}

/// What recorded the metrics.
#[derive(Debug, PartialEq, Eq)]
pub struct InstrumentationScope {
    pub name: String,
    pub version: String,
}

/// Metrics of one scope.
#[derive(Debug, PartialEq)]
pub struct ScopeMetrics {
    pub scope: Option<InstrumentationScope>,
    pub metrics: Vec<Metric>,
}

/// What the metrics are about.
#[derive(Debug, PartialEq)]
pub struct Resource {
    pub attributes: Vec<KeyValue>,
}

/// Metrics of one resource.
#[derive(Debug, PartialEq)]
pub struct ResourceMetrics {
    pub resource: Option<Resource>,
    pub scope_metrics: Vec<ScopeMetrics>,
}

/// A request to take metrics in.
#[derive(Debug, PartialEq)]
pub struct ExportMetricsServiceRequest {
    pub resource_metrics: Vec<ResourceMetrics>,
}

} // verus!
