//! The clocks: the machine's own, and clocks that count from a moment on.
//!
//! What they show can be read here and made up nowhere: see
//! [`Timestamp::from_clock`] and [`Reading`].

use crate::time;
use crate::time::{elapsed_nanos, local_now, Reading, Timestamp};
use std::time::Instant;
use vstd::prelude::*;

verus! {

impl Timestamp {
    /// The current local time. Which point in time it is depends on the clock
    /// and the time zone of the machine, and is left unsaid.
    pub fn now() -> (r: Timestamp)
        ensures
            time::timestamp_parts(r.secs(), r.nanos(), r.offset()),
            r.from_clock(),
    {
        local_now()
    }
}

/// A clock that counts from the moment it was started.
pub struct Clock {
    start: Instant,
}

impl Clock {
    /// The moment at which the clock was started.
    pub closed spec fn started(&self) -> Instant {
        self.start
    }

    /// Starts a clock. It counts from a reading of the monotonic clock, of which
    /// nothing is claimed.
    pub(crate) fn start() -> Clock {
        Clock { start: Instant::now() }
    }

    /// Nanoseconds since the clock was started. The reading depends on the
    /// machine; what is done with it is stated of every reading.
    pub(crate) fn read(&self) -> (r: Reading)
        ensures
            r.clock() == self.started(),
    {
        elapsed_nanos(&self.start)
    }
}

} // verus!
