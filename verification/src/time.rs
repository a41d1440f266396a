//! Moments on a clock that never goes back.
use vstd::prelude::*;

verus! {

/// A moment, in nanoseconds from a start that does not matter.
#[derive(Clone, Copy, Debug, PartialEq, Eq, Structural, PartialOrd, Ord)]
pub struct Instant {
    pub nanos: u64,
}

/// A length of time, in whole seconds.
#[derive(Clone, Copy, Debug, PartialEq, Eq, Structural, PartialOrd, Ord)]
pub struct Duration {
    pub seconds: u64,
}

impl Duration {
    pub fn from_secs(seconds: u64) -> (r: Duration)
        ensures
            r.seconds == seconds,
    {
        Duration { seconds }
    }
}

/// The moment that is a length of time after another.
pub open spec fn later(moment: Instant, duration: Duration) -> int {
    moment.nanos + duration.seconds * 1_000_000_000
}

impl Instant {
    pub fn after(self, duration: Duration) -> (r: Instant)
        requires
            later(self, duration) <= u64::MAX,
        ensures
            r.nanos == later(self, duration),
    {
        assert(duration.seconds * 1_000_000_000 <= u64::MAX);
        Instant { nanos: self.nanos + duration.seconds * 1_000_000_000 }
    }
}

/// How many seconds are left until a moment: whole milliseconds, rounded up to seconds.
pub open spec fn seconds_left(until: Instant, now: Instant) -> u64 {
    if until.nanos <= now.nanos {
        0
    } else {
        (((until.nanos - now.nanos) / 1_000_000 + 999) / 1000) as u64
    }
}

pub fn remaining_seconds(until: Instant, now: Instant) -> (r: u64)
    ensures
        r == seconds_left(until, now),
{
    if until.nanos <= now.nanos {
        0
    } else {
        ((until.nanos - now.nanos) / 1_000_000 + 999) / 1000
    }
}

} // verus!
