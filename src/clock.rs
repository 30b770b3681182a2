//! Host time in the resolution that quote verification takes.
use vstd::prelude::*;

verus! {

/// Nanoseconds in one second.
pub const NANOS_PER_SECOND: u64 = 1_000_000_000;

/// The whole seconds in a nanosecond timestamp, rounded down.
pub open spec fn seconds_of(nanos: u64) -> u64 {
    nanos / NANOS_PER_SECOND
}

/// Converts a host timestamp in nanoseconds to whole seconds, dropping any
/// fraction of a second.
pub fn now_seconds(nanos: u64) -> (r: u64)
    ensures
        r == seconds_of(nanos),
        (r as int) * 1_000_000_000 <= (nanos as int),
        (nanos as int) < (r as int + 1) * 1_000_000_000,
{
    nanos / NANOS_PER_SECOND
}

} // verus!
