//! The seal on the containment trait: only the record type implements it.

use crate::model::Record;
use vstd::prelude::*;

verus! {

/// Implemented by the record type alone.
pub trait Sealed {
    /// The record that the value stands for.
    spec fn record(&self) -> Record;
}

} // verus!
