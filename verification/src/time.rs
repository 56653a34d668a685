//! A plain-value duration: a number of milliseconds. The supervisor's
//! configuration holds its check interval and backoff delay in this type;
//! the driver converts it to whatever its sleep primitive needs.

use vstd::prelude::*;

verus! {

/// A span of time, in whole milliseconds.
#[derive(Clone, Copy, Debug, PartialEq, Eq, Structural)]
pub struct Duration {
    pub millis: u64,
}

impl Duration {
    /// A duration of `millis` milliseconds.
    pub fn from_millis(millis: u64) -> (r: Duration)
        ensures
            r.millis == millis,
    {
        Duration { millis }
    }

    /// A duration of `secs` whole seconds.
    pub fn from_secs(secs: u64) -> (r: Duration)
        requires
            secs <= u64::MAX / 1000,
        ensures
            r.millis == secs * 1000,
    {
        Duration { millis: secs * 1000 }
    }

    /// The length of this duration in milliseconds.
    pub fn as_millis(&self) -> (r: u64)
        ensures
            r == self.millis,
    {
        self.millis
    }
}

} // verus!
