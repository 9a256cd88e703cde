//! The alternatives of an attribute's value.

use vstd::prelude::*;

use super::Double;

verus! {

/// The value of an attribute.
#[derive(Debug, PartialEq)]
pub enum Value {
    StringValue(String),
    BoolValue(bool),
    IntValue(i64),
    DoubleValue(Double),
}

} // verus!
