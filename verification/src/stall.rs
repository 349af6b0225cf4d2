//! Admission health for a blocked console input write.
//!
//! Times are milliseconds of one monotonic clock.

use vstd::prelude::*;

verus! {

/// How long a capacity wait lasts before the lane counts as stalled.
pub const INPUT_STALL_TIMEOUT_MS: u64 = 60_000;

/// One physical writer owns a single capacity wait across scheduling and delivery. The lane is
/// healthy again when the wait is gone: on delivery, shutdown, or cancellation.
#[derive(Clone, Copy, Debug, PartialEq, Eq, Structural)]
pub struct InputStall {
    deadline: u64,
    paused_at: Option<u64>,
    stalled: bool,
}

impl InputStall {
    pub closed spec fn deadline(&self) -> u64 {
        self.deadline
    }

    pub closed spec fn paused_at(&self) -> Option<u64> {
        self.paused_at
    }

    pub closed spec fn stalled(&self) -> bool {
        self.stalled
    }

    /// The wait can be paused or resumed at `now` without running out of clock.
    pub open spec fn can_resume(&self, now: u64) -> bool {
        self.paused_at() matches Some(started) ==> started <= now && self.deadline() + (now
            - started) <= u64::MAX
    }

    /// Time that is left until the lane counts as stalled.
    pub open spec fn remaining(&self, now: u64) -> int {
        match self.paused_at() {
            Some(started) => self.deadline() - started,
            None => self.deadline() - now,
        }
    }

    pub fn new(now: u64, timeout: u64) -> (stall: InputStall)
        requires
            now + timeout <= u64::MAX,
        ensures
            stall.deadline() == now + timeout,
            stall.paused_at() is None,
            !stall.stalled(),
    {
        InputStall { deadline: now + timeout, paused_at: None, stalled: false }
    }

    /// Exclude intentionally parked time without clearing an already active stall.
    pub fn set_paused(&mut self, paused: bool, now: u64)
        requires
            old(self).can_resume(now),
        ensures
            final(self).stalled() == old(self).stalled(),
            paused ==> final(self).deadline() == old(self).deadline() && final(self).paused_at()
                == Some(
                match old(self).paused_at() {
                    Some(started) => started,
                    None => now,
                },
            ),
            !paused ==> final(self).paused_at() is None && final(self).deadline()
                == old(self).deadline() + match old(self).paused_at() {
                Some(started) => now - started,
                None => 0,
            },
    {
        if paused {
            if self.paused_at.is_none() {
                self.paused_at = Some(now);
            }
        } else if let Some(started) = self.paused_at {
            self.deadline = self.deadline + (now - started);
            self.paused_at = None;
        }
    }

    /// Mark the lane stalled once its deadline passed while the wait was running.
    pub fn watch(&mut self, now: u64) -> (stalled: bool)
        ensures
            stalled == final(self).stalled(),
            final(self).deadline() == old(self).deadline(),
            final(self).paused_at() == old(self).paused_at(),
            final(self).stalled() == (old(self).stalled() || (old(self).paused_at() is None && now
                >= old(self).deadline())),
    {
        if self.paused_at.is_none() && !self.stalled && now >= self.deadline {
            self.stalled = true;
        }
        self.stalled
    }

    /// When `watch` has something to do; never while the wait is paused or already marked.
    pub fn wakes_at(&self) -> (at: Option<u64>)
        ensures
            at == if self.paused_at() is None && !self.stalled() {
                Some(self.deadline())
            } else {
                None
            },
    {
        if self.paused_at.is_none() && !self.stalled {
            Some(self.deadline)
        } else {
            None
        }
    }
}

/// A pause does not use up the countdown and does not restart it: what is left when the wait goes
/// on is what was left when it was paused.
pub proof fn pause_excludes_parked_time(
    running: InputStall,
    parked: InputStall,
    resumed: InputStall,
    parked_at: u64,
    resumed_at: u64,
)
    requires
        running.paused_at() is None,
        parked_at <= resumed_at,
        parked.paused_at() == Some(parked_at),
        parked.deadline() == running.deadline(),
        resumed.paused_at() is None,
        resumed.deadline() == parked.deadline() + (resumed_at - parked_at),
    ensures
        parked.remaining(resumed_at) == running.remaining(parked_at),
        resumed.remaining(resumed_at) == running.remaining(parked_at),
{
}

/// Both physical lanes must be writable before admitting another SDK client.
pub fn input_is_stalled(control: bool, bulk: Option<bool>) -> (stalled: bool)
    ensures
        stalled == (control || bulk == Some(true)),
{
    control || match bulk {
        Some(lane) => lane,
        None => false,
    }
}

/// What the delivery of one fragment does next.
#[derive(Clone, Copy, Debug, PartialEq, Eq, Structural)]
pub enum DeliveryStep {
    Delivered,
    Closed,
    /// Capacity came back between the failed push and the check: push again.
    Retry,
    /// Wait for a capacity notification or the stall deadline.
    Wait,
}

/// Carry a scheduler capacity wait into delivery without resetting its deadline or health.
///
/// `pushed` says whether the ring took the fragment; where it did not, `closed` and `fits` are
/// read after the failed push.
pub fn delivery_step(
    stall: &mut Option<InputStall>,
    pushed: bool,
    closed: bool,
    fits: bool,
    now: u64,
    timeout: u64,
) -> (step: DeliveryStep)
    requires
        now + timeout <= u64::MAX,
        *old(stall) matches Some(wait) ==> wait.can_resume(now),
    ensures
        step == if pushed {
            DeliveryStep::Delivered
        } else if closed {
            DeliveryStep::Closed
        } else if fits {
            DeliveryStep::Retry
        } else {
            DeliveryStep::Wait
        },
        // Once a write is selected, capacity waiting is real backpressure again.
        match step {
            DeliveryStep::Delivered => *final(stall) is None,
            DeliveryStep::Wait => {
                &&& *final(stall) matches Some(wait)
                &&& wait.paused_at() is None
                &&& match *old(stall) {
                    Some(before) => wait.stalled() == before.stalled() && wait.remaining(now)
                        == before.remaining(now),
                    None => !wait.stalled() && wait.deadline() == now + timeout,
                }
            },
            _ => match *old(stall) {
                Some(before) => {
                    &&& *final(stall) matches Some(wait)
                    &&& wait.paused_at() is None
                    &&& wait.stalled() == before.stalled()
                    &&& wait.remaining(now) == before.remaining(now)
                },
                None => *final(stall) is None,
            },
        },
{
    if let Some(wait) = *stall {
        let mut wait = wait;
        wait.set_paused(false, now);
        *stall = Some(wait);
    }
    if pushed {
        *stall = None;
        return DeliveryStep::Delivered;
    }
    if closed {
        return DeliveryStep::Closed;
    }
    if fits {
        return DeliveryStep::Retry;
    }
    if stall.is_none() {
        *stall = Some(InputStall::new(now, timeout));
    }
    DeliveryStep::Wait
}

} // verus!
