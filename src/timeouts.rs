//! The sleep strategies of retried tasks. The loop that runs a task,
//! sleeps and gives up at a deadline lives with the caller; what it sleeps
//! for comes from here.

use vstd::prelude::*;

verus! {

/// Timeout related errors.
#[derive(Clone, Copy, Debug, PartialEq, Eq, Structural)]
pub enum Error {
    /// A task did not finish before its deadline.
    Elapsed,
}

/// A span of time, in milliseconds.
#[derive(Clone, Copy, Debug, PartialEq, Eq, Structural)]
pub struct Duration {
    pub millis: u64,
}

/// How long to sleep between the attempts of a task.
#[derive(Clone, Copy, Debug, PartialEq, Eq, Structural)]
pub enum SleepStrategy {
    /// Always the same sleep.
    Constant(Duration),
    /// A sleep that grows by `delta` after each attempt.
    LinearBackoff { delta: Duration },
}

impl SleepStrategy {
    /// Whether one more failed attempt can be followed by a sleep of a
    /// representable length, given the sleep so far `backoff`.
    pub open spec fn can_update(&self, backoff: Duration) -> bool {
        match *self {
            SleepStrategy::Constant(_) => true,
            SleepStrategy::LinearBackoff { delta } => backoff.millis + delta.millis <= u64::MAX,
        }
    }

    /// After a failed attempt: the sleep to take now, with `backoff` grown by
    /// `delta` under a linear backoff and left alone otherwise.
    pub fn sleep_update(&self, backoff: &mut Duration) -> (r: Duration)
        requires
            self.can_update(*old(backoff)),
        ensures
            match *self {
                SleepStrategy::Constant(d) => r == d && *final(backoff) == *old(backoff),
                SleepStrategy::LinearBackoff { delta } => {
                    &&& final(backoff).millis == old(backoff).millis + delta.millis
                    &&& r == *final(backoff)
                },
            },
    {
        match self {
            SleepStrategy::Constant(sleep_duration) => *sleep_duration,
            SleepStrategy::LinearBackoff { delta } => {
                backoff.millis = backoff.millis + delta.millis;
                *backoff
            },
        }
    }
}

} // verus!
