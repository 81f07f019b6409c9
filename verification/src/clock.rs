//! A monotonic clock in whole milliseconds.
//!
//! The rules of the engine speak of ages in milliseconds. The functions that
//! apply them take the time as a number, so that they can be stated and
//! checked for every time; the clock is read only here.

use std::time::Duration;
use std::time::Instant;
use vstd::prelude::*;

verus! {

#[verifier::external_type_specification]
#[verifier::external_body]
pub struct ExInstant(Instant);

/// `Instant::now`: the present moment. Nothing is known of it.
#[verifier::external_body]
pub(crate) fn instant_now() -> (now: Instant) {
    Instant::now()
}

/// `Instant::elapsed`: the time since `since`. Nothing is known of it.
#[verifier::external_body]
pub(crate) fn instant_elapsed(since: &Instant) -> (passed: Duration) {
    since.elapsed()
}

/// The whole milliseconds that a duration holds.
pub uninterp spec fn whole_millis(d: Duration) -> u128;

/// `Duration::as_millis`: the whole milliseconds in a duration.
#[verifier::external_body]
pub(crate) fn duration_as_millis(d: &Duration) -> (millis: u128)
    ensures
        millis == whole_millis(*d),
{
    d.as_millis()
}

/// A count of milliseconds cut to what 64 bits hold.
pub open spec fn saturated(millis: u128) -> u64 {
    if millis > u64::MAX {
        u64::MAX
    } else {
        millis as u64
    }
}

/// The milliseconds of a duration as the engine counts them.
pub open spec fn millis_of(d: Duration) -> u64 {
    saturated(whole_millis(d))
}

/// The time from `earlier` to `now`, zero where `earlier` is the later one.
pub open spec fn elapsed(earlier: u64, now: u64) -> u64 {
    if now > earlier {
        (now - earlier) as u64
    } else {
        0
    }
}

/// The time from `earlier` to `now`, zero where `earlier` is the later one.
pub fn elapsed_between(earlier: u64, now: u64) -> (age: u64)
    ensures
        age == elapsed(earlier, now),
{
    if now > earlier {
        now - earlier
    } else {
        0
    }
}

/// The whole milliseconds of a duration, at most `u64::MAX`.
pub(crate) fn duration_millis(d: &Duration) -> (millis: u64)
    ensures
        millis == millis_of(*d),
{
    let m: u128 = duration_as_millis(d);
    if m > u64::MAX as u128 {
        u64::MAX
    } else {
        m as u64
    }
}

/// A clock that counts milliseconds from the moment it was made.
pub(crate) struct Clock {
    origin: Instant,
}

impl Clock {
    /// A clock that starts now.
    pub(crate) fn new() -> (clock: Clock) {
        Clock { origin: instant_now() }
    }

    /// Milliseconds since the clock was made.
    pub(crate) fn now_ms(&self) -> (now: u64) {
        let passed = instant_elapsed(&self.origin);
        duration_millis(&passed)
    }
}

} // verus!
