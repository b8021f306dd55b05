//! Simulated clock for deterministic time progression.

use vstd::prelude::*;

verus! {

/// A clock that only advances when it is told to.
///
/// It starts at a given timestamp and moves by explicit ticks and jumps. No
/// wall-clock time is consulted, so every run of it is reproducible.
#[derive(Debug, Clone, Copy, PartialEq, Eq, Structural)]
pub struct SimClock {
    current: u64,
}

impl View for SimClock {
    type V = u64;

    /// The timestamp that the clock shows.
    closed spec fn view(&self) -> u64 {
        self.current
    }
}

/// The timestamp that a clock shows after it was sent from `now` to `target`:
/// it never goes back.
pub open spec fn moved_to(now: u64, target: u64) -> u64 {
    if target > now {
        target
    } else {
        now
    }
}

impl SimClock {
    /// A clock that shows `start`.
    pub fn new(start: u64) -> (clock: Self)
        ensures
            clock@ == start,
    {
        SimClock { current: start }
    }

    /// The current simulated timestamp.
    pub fn now(&self) -> (time: u64)
        ensures
            time == self@,
    {
        self.current
    }

    /// Whether a step by `delta` stays within the range of timestamps.
    pub fn can_step(&self, delta: u64) -> (fits: bool)
        ensures
            fits == (self@ + delta <= u64::MAX),
    {
        delta <= u64::MAX - self.current
    }

    /// Advances the clock by exactly one.
    pub fn tick(&mut self)
        requires
            old(self)@ < u64::MAX,
        ensures
            final(self)@ == old(self)@ + 1,
    {
        self.step(1);
    }

    /// Advances the clock by `delta`; zero leaves it where it is.
    pub fn step(&mut self, delta: u64)
        requires
            old(self)@ + delta <= u64::MAX,
        ensures
            final(self)@ == old(self)@ + delta,
    {
        self.current = self.current + delta;
    }

    /// Moves the clock forward to `target`. An earlier `target` leaves the clock
    /// where it is, so time never goes back.
    pub fn advance_to(&mut self, target: u64)
        ensures
            final(self)@ == moved_to(old(self)@, target),
    {
        if target > self.current {
            let delta: u64 = target - self.current;
            self.step(delta);
        }
    }
}

impl Default for SimClock {
    /// A clock that shows zero.
    fn default() -> (clock: Self)
        ensures
            clock@ == 0,
    {
        SimClock::new(0)
    }
}

}
