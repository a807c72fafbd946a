//! Points in time, as seconds and nanoseconds, and the wall clock.

use vstd::prelude::*;

verus! {

/// A point in time: `sec` whole seconds since the epoch and `nsec`
/// nanoseconds on top of them.
#[derive(Copy, Clone, PartialEq, Eq, Structural, Debug)]
pub struct Timestamp {
    pub sec: i64,
    pub nsec: i32,
}

/// Nanoseconds from `earlier` to `later`; negative where `later` is the
/// earlier of the two.
pub open spec fn nanos_between(earlier: Timestamp, later: Timestamp) -> int {
    (later.sec - earlier.sec) * 1_000_000_000 + (later.nsec - earlier.nsec)
}

/// More than `millis` milliseconds lie between `earlier` and `later`.
pub open spec fn is_more_than(earlier: Timestamp, later: Timestamp, millis: i64) -> bool {
    nanos_between(earlier, later) > millis * 1_000_000
}

impl Timestamp {
    pub fn new(sec: i64, nsec: i32) -> (timestamp: Timestamp)
        ensures
            timestamp == (Timestamp { sec, nsec }),
    {
        Timestamp { sec, nsec }
    }

    /// Whether more than `millis` milliseconds have passed since `earlier`.
    pub fn is_more_than_after(&self, earlier: &Timestamp, millis: i64) -> (yes: bool)
        ensures
            yes == is_more_than(*earlier, *self, millis),
    {
        let seconds: i128 = self.sec as i128 - earlier.sec as i128;
        let nanos: i128 = seconds * 1_000_000_000 + (self.nsec as i128 - earlier.nsec as i128);
        nanos > millis as i128 * 1_000_000
    }
}

/// The time now, from `time::now` and `Tm::to_timespec` of the `time`
/// crate: the local time converted back to a count of seconds and
/// nanoseconds. It depends on the clock, so nothing is claimed of it.
#[verifier::external_body]
pub(crate) fn now() -> Timestamp {
    let timespec = time::now().to_timespec();
    Timestamp { sec: timespec.sec, nsec: timespec.nsec }
}

} // verus!
