//! Elapsed time, measured in whole nanoseconds and reported in whole
//! milliseconds.

use vstd::prelude::*;

verus! {

/// Nanoseconds in one millisecond.
pub const NANOS_PER_MILLI: u128 = 1_000_000;

/// Nanoseconds in one second.
pub const NANOS_PER_SECOND: u128 = 1_000_000_000;

/// The whole milliseconds in a number of nanoseconds, kept to their low
/// 64 bits.
pub open spec fn millis(nanos: u128) -> u64 {
    ((nanos / NANOS_PER_MILLI) % 0x1_0000_0000_0000_0000) as u64
}

/// Every span whose milliseconds fit 64 bits is reported unchanged.
pub proof fn lemma_millis_exact(nanos: u128)
    requires
        nanos / NANOS_PER_MILLI <= u64::MAX,
    ensures
        millis(nanos) == nanos / NANOS_PER_MILLI,
{
}

/// Converts nanoseconds to whole milliseconds.
pub fn whole_millis(nanos: u128) -> (ms: u64)
    ensures
        ms == millis(nanos),
{
    let whole: u128 = nanos / NANOS_PER_MILLI;
    let low: u128 = whole & 0xFFFF_FFFF_FFFF_FFFF;
    assert(low == whole % 0x1_0000_0000_0000_0000) by (bit_vector)
        requires
            low == whole & 0xFFFF_FFFF_FFFF_FFFF,
    ;
    low as u64
}

} // verus!
