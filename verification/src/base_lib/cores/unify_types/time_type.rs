//! The time type shared by every timer.
//!
//! Time is an unsigned count of milliseconds. `INFINITY` is the largest value and
//! behaves as an absorbing bound: additions saturate at it.
use vstd::prelude::*;

verus! {

/// A point in time or a length of time, in milliseconds.
pub type T = u64;

/// No time.
pub const ZERO: T = 0;

/// A time that is never reached.
pub const INFINITY: T = 0xffff_ffff_ffff_ffff;

/// Milliseconds in one second.
pub const MILLIS_PER_SECOND: T = 1000;

/// The period after which container holes are compacted: five seconds.
pub const DEFAULT_REFRESH_PERIOD: T = 5000;

/// The age after which a static timeline is reset: one year of 365 days.
pub const RESET_TIMELINE_PERIOD: T = 31_536_000_000;

/// `N` whole seconds.
pub fn unit<const N: u64>() -> (r: T)
    requires
        N * MILLIS_PER_SECOND <= INFINITY,
    ensures
        r == N * MILLIS_PER_SECOND,
{
    N * MILLIS_PER_SECOND
}

/// `a + b`, saturating at `INFINITY`.
pub open spec fn sat_add(a: T, b: T) -> T {
    if a + b > INFINITY {
        INFINITY
    } else {
        (a + b) as T
    }
}

/// `a - b`, saturating at `ZERO`.
pub open spec fn sat_sub(a: T, b: T) -> T {
    if a < b {
        ZERO
    } else {
        (a - b) as T
    }
}

/// Adds two times, saturating at `INFINITY`.
pub fn plus(a: T, b: T) -> (r: T)
    ensures
        r == sat_add(a, b),
{
    a.saturating_add(b)
}

/// Subtracts two times, saturating at `ZERO`.
pub fn minus(a: T, b: T) -> (r: T)
    ensures
        r == sat_sub(a, b),
{
    a.saturating_sub(b)
}

} // verus!
