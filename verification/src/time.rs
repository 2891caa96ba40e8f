//! Simulated time.

use vstd::prelude::*;

verus! {

/// A span of simulated time, in nanoseconds.
pub type Nanos = u64;

/// The nanoseconds of one second.
pub const NANOS_PER_SECOND: Nanos = 1_000_000_000;

/// The square of `NANOS_PER_SECOND`. Distances are compared in billionths of
/// a world unit, and their squares carry this factor.
pub const NANOS_PER_SECOND_SQUARED: u128 = 1_000_000_000_000_000_000;

} // verus!
