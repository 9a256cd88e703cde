//! The alternatives of a metric's data.

use vstd::prelude::*;

use super::{Gauge, Histogram, Sum};

verus! {

/// The data of a metric.
#[derive(Debug, PartialEq)]
pub enum Data {
    Gauge(Gauge),
    Sum(Sum),
    Histogram(Histogram),
}

} // verus!
