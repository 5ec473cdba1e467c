//! Periodic timers, driven by the time that the caller hands in.

use vstd::prelude::*;

verus! {

/// The time at which a timer set at `now` comes due: `period` later, or at
/// the end of time if that is sooner.
pub open spec fn due_time(now: u64, period: u64) -> u64 {
    if now + period > u64::MAX {
        u64::MAX
    } else {
        (now + period) as u64
    }
}

/// A timer that comes due every `period` time units.
#[derive(Clone, Copy, Debug, PartialEq, Eq, Structural)]
pub struct PeriodicTimer {
    pub period: u64,
    pub next_due: u64,
}

impl PeriodicTimer {
    /// A timer set at `now`.
    pub fn new(period: u64, now: u64) -> (timer: PeriodicTimer)
        ensures
            timer == (PeriodicTimer { period, next_due: due_time(now, period) }),
    {
        let next_due: u64 = if period > u64::MAX - now {
            u64::MAX
        } else {
            now + period
        };
        PeriodicTimer { period, next_due }
    }

    /// Tells whether the timer is due at `now`.
    pub open spec fn is_due(&self, now: u64) -> bool {
        now >= self.next_due
    }

    /// The timer after it was asked at `now`: set anew if it was due.
    pub open spec fn after(&self, now: u64) -> PeriodicTimer {
        if self.is_due(now) {
            PeriodicTimer { period: self.period, next_due: due_time(now, self.period) }
        } else {
            *self
        }
    }

    /// Asks the timer at `now`. If it is due it fires and is set anew.
    pub fn fire(&mut self, now: u64) -> (fired: bool)
        ensures
            fired == old(self).is_due(now),
            *final(self) == old(self).after(now),
    {
        if now >= self.next_due {
            *self = PeriodicTimer::new(self.period, now);
            true
        } else {
            false
        }
    }
}

} // verus!
