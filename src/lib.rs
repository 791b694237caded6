//! Frequency-response chart shaping in fixed point.
//!
//! Every real quantity is carried as an integer count of millionths of its
//! unit: micro-hertz for frequencies, micro-decibels or micro-ohms for
//! magnitudes, micro-degrees for phase angles.
use vstd::prelude::*;

pub mod bounds;
pub mod plan;
pub mod sweep;

verus! {

/// Millionths per unit of every fixed-point quantity of this library.
pub const UNIT: i64 = 1_000_000;

/// Why a plot could not be produced.
#[derive(Clone, Copy, Debug, PartialEq, Eq, Structural)]
pub enum PlotError {
    /// The frequency range is empty or inverted, or its step cannot advance.
    InvalidRange,
    /// A response sample cannot have come from a working evaluation.
    EvaluationFailed,
    /// The chart would need an axis of zero height, or has no data at all.
    RenderFailed,
}

} // verus!
