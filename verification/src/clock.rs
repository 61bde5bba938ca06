//! Points in time, as nanoseconds since some fixed start.

use vstd::prelude::*;

verus! {

/// A point in time, in nanoseconds since some fixed start.
pub type Moment = u128;

/// The time from `then` to `now`, which is none where `then` lies ahead.
pub open spec fn elapsed(now: Moment, then: Moment) -> int {
    if now >= then {
        now - then
    } else {
        0
    }
}

/// `secs` seconds in nanoseconds.
pub open spec fn nanos(secs: u64) -> int {
    secs * 1_000_000_000
}

/// Whether fewer than `secs` seconds have passed from `then` to `now`.
pub open spec fn recent(now: Moment, then: Moment, secs: u64) -> bool {
    elapsed(now, then) < nanos(secs)
}

/// Tells whether fewer than `secs` seconds have passed from `then` to `now`.
pub fn is_recent(now: Moment, then: Moment, secs: u64) -> (r: bool)
    ensures
        r == recent(now, then, secs),
{
    let passed: u128 = if now >= then {
        now - then
    } else {
        0
    };
    passed < secs as u128 * 1_000_000_000
}

/// A moment is recent until the given number of seconds has passed since it, and no longer. One
/// that lies ahead counts as no time ago.
pub proof fn law_recent_until_the_seconds_have_passed(now: Moment, then: Moment, secs: u64, r: bool)
    requires
        call_ensures(is_recent, (now, then, secs), r),
    ensures
        r == recent(now, then, secs),
        now >= then ==> r == (now < then + secs * 1_000_000_000),
        now < then ==> r == (secs > 0),
{
}

} // verus!
