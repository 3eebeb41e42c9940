//! Waiting, in steps, until the cache has stored something new.

use vstd::prelude::*;

verus! {

/// The length of one step of waiting, in nanoseconds.
pub const WAIT_STEP_NANOS: u128 = 100_000_000;

/// What is left of a timeout after one step.
pub open spec fn after_step(remaining: u128) -> u128 {
    if remaining > WAIT_STEP_NANOS {
        (remaining - WAIT_STEP_NANOS) as u128
    } else {
        0
    }
}

/// A bounded wait for the update counter to pass the value it had when the
/// wait began. The caller sleeps; this decides how often.
#[derive(Debug, Clone, Copy, PartialEq, Eq, Structural)]
pub struct ChangeWait {
    pub remaining_nanos: u128,
    pub baseline: u32,
    pub changed: bool,
}

impl ChangeWait {
    /// Begins a wait of at most `timeout_nanos`, measured against the
    /// current number of updates.
    pub fn start(timeout_nanos: u128, entry_updates: u32) -> (w: ChangeWait)
        ensures
            w == (ChangeWait { remaining_nanos: timeout_nanos, baseline: entry_updates, changed: false }),
    {
        ChangeWait { remaining_nanos: timeout_nanos, baseline: entry_updates, changed: false }
    }

    /// Whether the wait goes on: no change was seen and time is left.
    pub open spec fn goes_on(&self) -> bool {
        !self.changed && self.remaining_nanos != 0
    }

    /// The next step: `Some(n)` says to sleep `n` nanoseconds and then
    /// report the update counter to `observe`; `None` says that the wait is
    /// over. A step is taken off the timeout before the sleep.
    pub fn next_sleep(&mut self) -> (step: Option<u128>)
        ensures
            old(self).goes_on() ==> step == Some(WAIT_STEP_NANOS) && *final(self) == (ChangeWait {
                remaining_nanos: after_step(old(self).remaining_nanos),
                ..*old(self)
            }),
            !old(self).goes_on() ==> step is None && *final(self) == *old(self),
    {
        if !self.changed && self.remaining_nanos != 0 {
            self.remaining_nanos = self.remaining_nanos.saturating_sub(WAIT_STEP_NANOS);
            Some(WAIT_STEP_NANOS)
        } else {
            None
        }
    }

    /// Reports the update counter as it is after a sleep. The wait ends once
    /// the counter is above the baseline.
    pub fn observe(&mut self, entry_updates: u32)
        ensures
            *final(self) == (ChangeWait {
                changed: old(self).changed || entry_updates > old(self).baseline,
                ..*old(self)
            }),
    {
        if entry_updates > self.baseline {
            self.changed = true;
        }
    }

    /// Whether the timeout is used up. This can hold together with a change
    /// that was seen in the last step.
    pub fn timed_out(&self) -> (b: bool)
        ensures
            b == (self.remaining_nanos == 0),
    {
        self.remaining_nanos == 0
    }
}

/// The number of sleeps that a wait of `remaining` nanoseconds takes at most.
pub open spec fn steps_left(remaining: u128) -> nat {
    ((remaining + WAIT_STEP_NANOS - 1) / (WAIT_STEP_NANOS as int)) as nat
}

/// Each step brings a wait that goes on nearer to its end.
pub proof fn lemma_wait_terminates(w: ChangeWait)
    requires
        w.goes_on(),
    ensures
        steps_left(after_step(w.remaining_nanos)) < steps_left(w.remaining_nanos),
{
}

} // verus!
