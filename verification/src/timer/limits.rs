//! Bounds within which every time computation of the timer stays exact.
use vstd::prelude::*;

verus! {

/// Largest duration or clock reading, in milliseconds, that the timer
/// works with (2^61 ms, some 73 million years).
pub const MAX_MILLIS: u128 = 0x2000_0000_0000_0000;

/// Bound on the mean of a running-average accumulator (2^62): twice the
/// largest duration, since an accumulator may hold a total of up to one
/// duration beside the durations of its samples.
pub const MEAN_LIMIT: u128 = 0x4000_0000_0000_0000;

/// Largest number of samples that a running-average accumulator may hold
/// (2^65). Below it the accumulated total cannot overflow.
pub const SAMPLE_LIMIT: u128 = 0x2_0000_0000_0000_0000;

/// Bound on every cumulative reference time (2^126): what at most 2^64
/// segments of at most [`MEAN_LIMIT`] each can add up to. It fits a signed
/// 128-bit integer with room to spare.
pub const REFERENCE_LIMIT: u128 = 0x4000_0000_0000_0000_0000_0000_0000_0000;

} // verus!
