//! Time as the library reads it: milliseconds on a clock that the host
//! provides.

use vstd::prelude::*;

verus! {

/// The time from `since` to `now`, or none if `now` is the earlier.
pub open spec fn elapsed(since: u64, now: u64) -> int {
    if now >= since {
        now - since
    } else {
        0
    }
}

/// Computes the time from `since` to `now`.
pub fn elapsed_between(since: u64, now: u64) -> (r: u64)
    ensures
        r == elapsed(since, now),
{
    if now >= since {
        now - since
    } else {
        0
    }
}

} // verus!
