//! The dual-timer keepalive discipline.
//!
//! Two independent deadlines protect the session: the data connection must
//! see a frame at least every seven seconds, the meter subscription every
//! three.  Time is a millisecond count supplied by the caller, so the
//! discipline itself is pure: a timer fires exactly when its deadline has
//! passed, and firing re-arms it strictly into the future.

use vstd::prelude::*;

verus! {

/// Milliseconds between data keepalives.
pub const DATA_KEEP_ALIVE_MS: u64 = 7000;

/// Milliseconds between meter keepalives.
pub const METERS_KEEP_ALIVE_MS: u64 = 3000;

/// One keepalive deadline with its re-arm interval.
#[derive(Clone, Copy, PartialEq, Eq, Structural)]
pub struct KeepaliveTimer {
    /// The instant, in caller-supplied milliseconds, at which a keepalive
    /// is due.
    pub deadline: u64,
    /// How far past `now` the deadline moves when the timer fires.
    pub interval: u64,
}

impl KeepaliveTimer {
    /// A timer is well formed when its interval is positive, so firing
    /// always moves the deadline strictly into the future.
    pub open spec fn wf(&self) -> bool {
        self.interval >= 1
    }

    /// A fresh timer armed `interval` milliseconds after `now`.
    pub fn new(now: u64, interval: u64) -> (r: KeepaliveTimer)
        requires
            1 <= interval,
            now + interval <= u64::MAX,
        ensures
            r.deadline == now + interval,
            r.interval == interval,
            r.wf(),
    {
        KeepaliveTimer { deadline: now + interval, interval }
    }

    /// Whether the deadline has passed at `now`.
    pub fn due(&self, now: u64) -> (r: bool)
        ensures
            r == (self.deadline <= now),
    {
        self.deadline <= now
    }

    /// Fire the timer if it is due.  Returns true exactly when the
    /// deadline had passed; the deadline is then strictly in the future.
    pub fn check(&mut self, now: u64) -> (fired: bool)
        requires
            old(self).wf(),
            now + old(self).interval <= u64::MAX,
        ensures
            fired == (old(self).deadline <= now),
            fired ==> *final(self) == (KeepaliveTimer {
                deadline: (now + old(self).interval) as u64,
                ..*old(self)
            }),
            fired ==> final(self).deadline > now,
            !fired ==> *final(self) == *old(self),
            final(self).wf(),
    {
        if self.deadline <= now {
            self.deadline = now + self.interval;
            true
        } else {
            false
        }
    }

    /// How long a blocking wait may last before the deadline: the time
    /// still to run, zero once the deadline has passed.
    pub fn remaining(&self, now: u64) -> (r: u64)
        ensures
            r == (if self.deadline > now {
                self.deadline - now
            } else {
                0int
            }),
    {
        if self.deadline > now {
            self.deadline - now
        } else {
            0
        }
    }
}

} // verus!
