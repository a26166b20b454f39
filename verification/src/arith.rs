//! Saturating 64-bit counters.
//!
//! The sink statistics and batch footprints accumulate sums that the machine
//! carries in 64 bits; the accumulation stops at the largest value instead
//! of overflowing.
use vstd::prelude::*;

verus! {

/// Addition on `u64` that stops at the largest value instead of overflowing.
pub open spec fn spec_sat_add(a: u64, b: u64) -> u64 {
    if a + b > u64::MAX {
        u64::MAX
    } else {
        (a + b) as u64
    }
}

/// Saturating addition on `u64`.
pub fn sat_add(a: u64, b: u64) -> (r: u64)
    ensures
        r == spec_sat_add(a, b),
{
    if a > u64::MAX - b {
        u64::MAX
    } else {
        a + b
    }
}

/// `min(v, u64::MAX)` on an unbounded count.
pub open spec fn clamp_u64(v: nat) -> u64 {
    if v > u64::MAX {
        u64::MAX
    } else {
        v as u64
    }
}

} // verus!
