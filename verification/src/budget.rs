//! The mathematical state of a limiter and its update rule.
//!
//! A [`Budget`] is what a limiter is to its contracts: plain numbers. Time is
//! a count of nanoseconds on the limiter's clock. The executions left are a
//! rational number, `whole + frac / window`, so that the proportional refill
//! is exact: no share of the window is ever rounded away.

use vstd::prelude::*;
use crate::policy::RefillPolicy;

verus! {

/// The largest whole part that an executable limiter can hold. A refill that
/// would lead beyond it stops there.
pub open spec fn whole_limit() -> nat {
    u128::MAX as nat
}

/// The state of a limiter as a mathematical value.
pub struct Budget {
    /// Executions granted per window.
    pub capacity: nat,
    /// Length of the window, in nanoseconds.
    pub window: nat,
    /// Clock reading at which the current window began.
    pub window_start: nat,
    /// Whole executions left.
    pub whole: nat,
    /// Numerator of the fraction of an execution left, over `window`.
    pub frac: nat,
    /// How the budget comes back.
    pub policy: RefillPolicy,
}

impl Budget {
    /// The state of a limiter that has just been made: the budget is full,
    /// the window starts at clock reading zero, and the policy is
    /// [`RefillPolicy::Full`].
    pub open spec fn fresh(capacity: nat, window: nat) -> Budget {
        Budget {
            capacity,
            window,
            window_start: 0,
            whole: capacity,
            frac: 0,
            policy: RefillPolicy::Full,
        }
    }

    /// The fraction is a proper one (and zero where the window has no
    /// length), and the numbers are within what a limiter can hold.
    pub open spec fn wf(self) -> bool {
        &&& self.capacity <= u64::MAX
        &&& self.whole <= whole_limit()
        &&& if self.window == 0 {
            self.frac == 0
        } else {
            self.frac < self.window
        }
    }

    /// The same state under another policy.
    pub open spec fn with_policy(self, policy: RefillPolicy) -> Budget {
        Budget { policy, ..self }
    }

    /// The executions left, counted in shares of `1 / window` of an
    /// execution.
    pub open spec fn shares(self) -> nat {
        self.whole * self.window + self.frac
    }

    /// Whether `self` holds at most as many executions as `other`, both over
    /// the same window.
    pub open spec fn at_most(self, other: Budget) -> bool {
        self.whole < other.whole || (self.whole == other.whole && self.frac <= other.frac)
    }

    /// Whether nothing has been spent: exactly `capacity` executions are
    /// left.
    pub open spec fn is_full(self) -> bool {
        self.whole == self.capacity && self.frac == 0
    }

    /// Whether at most `capacity` executions are left.
    pub open spec fn within_capacity(self) -> bool {
        self.whole < self.capacity || self.is_full()
    }

    /// Nanoseconds between the start of the window and the reading `now`. A
    /// reading from before the start counts as no time at all.
    pub open spec fn elapsed(self, now: nat) -> nat {
        if now > self.window_start {
            (now - self.window_start) as nat
        } else {
            0
        }
    }

    /// Whether more than a whole window has elapsed at the reading `now`.
    pub open spec fn window_over(self, now: nat) -> bool {
        self.elapsed(now) > self.window
    }

    /// The state after a reset at `now`: a new window begins and the budget
    /// is `capacity` again, whatever was left.
    pub open spec fn restored(self, now: nat) -> Budget {
        Budget { window_start: now, whole: self.capacity, frac: 0, ..self }
    }

    /// What has become due at `now`, in shares of `1 / window` of an
    /// execution: the elapsed part of the window times the capacity.
    pub open spec fn due_shares(self, now: nat) -> nat {
        self.elapsed(now) * self.capacity
    }

    /// The state after a proportional refill at `now`, for a reading within
    /// the window: what has become due is added to what is left, and the
    /// window slides forward to `now`. Over a window without length nothing
    /// becomes due. The sum is not held down to `capacity`; it stops only at
    /// the largest budget that a limiter can hold.
    pub open spec fn trickled(self, now: nat) -> Budget {
        let start = if now > self.window_start { now } else { self.window_start };
        if self.window == 0 {
            Budget { window_start: start, ..self }
        } else {
            let total = self.shares() + self.due_shares(now);
            if total / self.window > whole_limit() {
                Budget {
                    window_start: start,
                    whole: whole_limit(),
                    frac: (self.window - 1) as nat,
                    ..self
                }
            } else {
                Budget {
                    window_start: start,
                    whole: total / self.window,
                    frac: total % self.window,
                    ..self
                }
            }
        }
    }

    /// The refill step of an attempt at `now`.
    ///
    /// Under [`RefillPolicy::Full`] the budget is restored once more than a
    /// window has elapsed and untouched before. Under
    /// [`RefillPolicy::Gradual`] a full budget is left alone; one that is not
    /// full is restored after more than a window, and refilled in proportion
    /// within it.
    pub open spec fn refilled(self, now: nat) -> Budget {
        match self.policy {
            RefillPolicy::Full => if self.window_over(now) {
                self.restored(now)
            } else {
                self
            },
            RefillPolicy::Gradual => if self.is_full() {
                self
            } else if self.window_over(now) {
                self.restored(now)
            } else {
                self.trickled(now)
            },
        }
    }

    /// Whether an execution can be taken: at least one whole execution is
    /// left.
    pub open spec fn allows(self) -> bool {
        self.whole >= 1
    }

    /// The consumption step: one execution less where one can be taken, and
    /// no change where none can.
    pub open spec fn consumed(self) -> Budget {
        if self.allows() {
            Budget { whole: (self.whole - 1) as nat, ..self }
        } else {
            self
        }
    }

    /// Whether an attempt at the reading `now` is allowed.
    pub open spec fn admits(self, now: nat) -> bool {
        self.refilled(now).allows()
    }

    /// The state after an attempt at the reading `now`: refill, then
    /// consumption.
    pub open spec fn step(self, now: nat) -> Budget {
        self.refilled(now).consumed()
    }

    /// The state after a run of attempts, one at each of `readings` in turn.
    pub open spec fn after(self, readings: Seq<nat>) -> Budget
        decreases readings.len(),
    {
        if readings.len() == 0 {
            self
        } else {
            self.after(readings.drop_last()).step(readings.last())
        }
    }

    /// Whether attempt number `k` (from zero) of the run at `readings` is
    /// allowed.
    pub open spec fn admits_nth(self, readings: Seq<nat>, k: int) -> bool {
        self.after(readings.take(k)).admits(readings[k])
    }
}

} // verus!
