use vstd::prelude::*;

verus! {

/// A span of time in whole milliseconds.
#[derive(Clone, Copy, Debug, PartialEq, Eq, Structural)]
pub struct Duration {
    pub millis: u32,
}

impl Duration {
    pub fn from_millis(millis: u32) -> (r: Duration)
        ensures
            r.millis == millis,
    {
        Duration { millis }
    }

    pub fn as_millis(&self) -> (r: u32)
        ensures
            r == self.millis,
    {
        self.millis
    }

    /// The sum of two durations; the sum must fit in the millisecond counter.
    pub fn add(&self, rhs: &Duration) -> (r: Duration)
        requires
            self.millis + rhs.millis <= u32::MAX,
        ensures
            r.millis == self.millis + rhs.millis,
    {
        Duration { millis: self.millis + rhs.millis }
    }
}

/// A point in time, in milliseconds from the start of a timeline.
#[derive(Clone, Copy, Debug, PartialEq, Eq, Structural)]
pub struct Instant {
    pub millis: u32,
}

impl Instant {
    pub fn zero() -> (r: Instant)
        ensures
            r.millis == 0,
    {
        Instant { millis: 0 }
    }

    /// The instant that lies `duration` after this one.
    pub fn after(&self, duration: &Duration) -> (r: Instant)
        requires
            self.millis + duration.millis <= u32::MAX,
        ensures
            r.millis == self.millis + duration.millis,
    {
        Instant { millis: self.millis + duration.millis }
    }
}

impl Default for Instant {
    fn default() -> (r: Instant)
        ensures
            r.millis == 0,
    {
        Instant { millis: 0 }
    }
}

} // verus!
