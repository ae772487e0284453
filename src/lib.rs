//! Fixed-point pricing engine for a two-asset StableSwap pool in which one
//! asset is a yield-bearing derivative of the other.
//!
//! Every arithmetic step is checked: a value that leaves its integer type is
//! reported as an error, never wrapped or saturated.
use vstd::prelude::*;

pub mod convert;
pub mod curve;
pub mod errors;
pub mod pool;
pub mod program;
pub mod ramp;
pub mod stake;
pub mod state;

verus! {

/// Scale factor of the amplification parameter `A`.
pub const A_PRECISION: u128 = 100;

/// Denominator of every fee rate.
pub const FEE_PRECISION: u64 = 10_000_000_000;

/// Upper bound on the Newton iterations of each solver.
pub const NUMBER_OF_ITERATIONS_TO_CONVERGE: u32 = 255;

/// The value of an optional machine integer as a mathematical integer.
pub open spec fn widen(r: Option<u64>) -> Option<int> {
    match r {
        Some(v) => Some(v as int),
        None => None,
    }
}

} // verus!
