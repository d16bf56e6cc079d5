//! The validation failures this library can report.

use crate::duration::Duration;
use crate::interval::{IntervalSize, Quality};
use vstd::prelude::*;

verus! {

/// Every failure is a deterministic validation error; none is transient.
#[derive(Clone, Copy, Debug, PartialEq, Eq, Structural)]
pub enum Error {
    /// The duration cannot be drawn as one notehead (base glyph plus dots).
    UnprintableDuration(Duration),
    /// A duration was divided by a zero-valued duration or scalar.
    DivisionByZero,
    /// A quarter-tone offset outside [-4, 4] was asked for as an accidental.
    InvalidAccidentalSize(i32),
    /// A quality was paired with an interval size that refuses it.
    InvalidIntervalClass(Quality, IntervalSize),
}

} // verus!
