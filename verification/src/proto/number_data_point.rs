//! The alternatives of a measured number.

use vstd::prelude::*;

use super::Double;

verus! {

/// A measured number.
#[derive(Clone, Copy, PartialEq, Debug)]
pub enum Value {
    AsDouble(Double),
    AsInt(i64),
}

} // verus!
