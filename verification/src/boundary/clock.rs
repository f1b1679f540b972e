//! Time is an input to authority: sessions and delegations expire. The
//! boundary reads it from an injected clock, never ad hoc.
use vstd::prelude::*;
use crate::authz::evaluator::system_time_secs;

verus! {

pub trait Clock {
    fn now(&self) -> i64;
}

/// The system clock, in seconds since the Unix epoch (0 before the epoch).
#[derive(Debug, Default, Clone, Copy)]
pub struct SystemClock;

impl Clock for SystemClock {
    fn now(&self) -> (r: i64) {
        match system_time_secs() {
            Some(s) => s,
            None => 0,
        }
    }
}

/// A clock a test moves by hand.
#[derive(Debug)]
pub struct TestClock {
    now: i64,
}

impl View for TestClock {
    type V = i64;

    closed spec fn view(&self) -> i64 {
        self.now
    }
}

impl TestClock {
    pub fn new(now: i64) -> (r: Self)
        ensures
            r@ == now,
    {
        TestClock { now }
    }

    pub fn set(&mut self, now: i64)
        ensures
            final(self)@ == now,
    {
        self.now = now;
    }

    /// The current value.
    pub fn now_value(&self) -> (r: i64)
        ensures
            r == self@,
    {
        self.now
    }

    /// Moves the clock by `seconds` (wrapping at the ends of the range).
    pub fn advance(&mut self, seconds: i64)
        ensures
            final(self)@ == old(self)@.wrapping_add(seconds),
    {
        self.now = self.now.wrapping_add(seconds);
    }
}

impl Clock for TestClock {
    fn now(&self) -> (r: i64)
        ensures
            r == self@,
    {
        self.now
    }
}

} // verus!
