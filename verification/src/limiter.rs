//! The limiter itself: the state of a [`Budget`] in machine integers, and
//! the clock that its attempts are timed by.

use vstd::prelude::*;
use vstd::arithmetic::div_mod::{lemma_fundamental_div_mod, lemma_fundamental_div_mod_converse};
use std::time::Instant;
use crate::budget::Budget;
use crate::policy::RefillPolicy;
use crate::share::proportional_share;

verus! {

/// A window rate limiter.
///
/// Clock readings are nanoseconds since the limiter was made. What the
/// limiter is to its contracts is its view, a [`Budget`].
pub struct RateLimiter {
    capacity: u64,
    whole: u128,
    frac: u128,
    window: u128,
    window_start: u128,
    policy: RefillPolicy,
    origin: Instant,
}

impl View for RateLimiter {
    type V = Budget;

    closed spec fn view(&self) -> Budget {
        Budget {
            capacity: self.capacity as nat,
            window: self.window as nat,
            window_start: self.window_start as nat,
            whole: self.whole as nat,
            frac: self.frac as nat,
            policy: self.policy,
        }
    }
}

impl RateLimiter {
    #[verifier::type_invariant]
    spec fn proper_fraction(self) -> bool {
        if self.window == 0 {
            self.frac == 0
        } else {
            self.frac < self.window
        }
    }

    /// A limiter that grants `max_executions` per window of `window_nanos`
    /// nanoseconds, with its budget full, its window starting now, and the
    /// policy [`RefillPolicy::Full`].
    pub fn new(max_executions: u64, window_nanos: u128) -> (limiter: RateLimiter)
        ensures
            limiter@ == Budget::fresh(max_executions as nat, window_nanos as nat),
            limiter@.wf(),
    {
        RateLimiter {
            capacity: max_executions,
            whole: max_executions as u128,
            frac: 0,
            window: window_nanos,
            window_start: 0,
            policy: RefillPolicy::Full,
            origin: Instant::now(),
        }
    }

    /// The same limiter under another refill policy.
    pub fn with_refill_policy(self, refill_policy: RefillPolicy) -> (limiter: RateLimiter)
        ensures
            limiter@ == self@.with_policy(refill_policy),
            limiter@.wf(),
    {
        proof {
            use_type_invariant(&self);
        }
        let mut limiter = self;
        limiter.policy = refill_policy;
        limiter
    }

    /// One attempt, timed by the limiter's own clock. Returns whether the
    /// attempt is allowed.
    ///
    /// The clock is read once. Whatever it shows, the limiter moves as
    /// [`RateLimiter::attempt_at`] says for that reading.
    pub fn attempt(&mut self) -> (allowed: bool)
        ensures
            exists|now: u128|
                final(self)@ == #[trigger] old(self)@.step(now as nat) && allowed == old(
                    self,
                )@.admits(now as nat),
            final(self)@.wf(),
    {
        let now: u128 = self.origin.elapsed().as_nanos();
        self.attempt_at(now)
    }

    /// One attempt, timed by the clock reading `now` in nanoseconds since
    /// the limiter was made: the budget is refilled as its policy says, and
    /// one execution is taken from it where one is left. Returns whether the
    /// attempt is allowed.
    pub fn attempt_at(&mut self, now: u128) -> (allowed: bool)
        ensures
            final(self)@ == old(self)@.step(now as nat),
            allowed == old(self)@.admits(now as nat),
            final(self)@.wf(),
    {
        let over: bool = now > self.window_start && now - self.window_start > self.window;
        match self.policy {
            RefillPolicy::Full => {
                if over {
                    self.restore(now);
                }
            },
            RefillPolicy::Gradual => {
                if self.whole != self.capacity as u128 || self.frac != 0 {
                    if over {
                        self.restore(now);
                    } else {
                        self.trickle(now);
                    }
                }
            },
        }
        proof {
            use_type_invariant(&*self);
        }
        if self.whole < 1 {
            return false;
        }
        self.whole = self.whole - 1;
        true
    }

    /// The reset at the reading `now`: a new window, and the whole budget.
    fn restore(&mut self, now: u128)
        ensures
            final(self)@ == old(self)@.restored(now as nat),
    {
        proof {
            use_type_invariant(&*self);
        }
        self.window_start = now;
        self.whole = self.capacity as u128;
        self.frac = 0;
    }

    /// The proportional refill at the reading `now`, for a reading that is
    /// no more than a window after the start.
    fn trickle(&mut self, now: u128)
        requires
            !old(self)@.window_over(now as nat),
        ensures
            final(self)@ == old(self)@.trickled(now as nat),
    {
        proof {
            use_type_invariant(&*self);
        }
        let elapsed: u128 = if now > self.window_start {
            now - self.window_start
        } else {
            0
        };
        if now > self.window_start {
            self.window_start = now;
        }
        if self.window == 0 {
            return ;
        }
        // What is due, as whole executions and a fraction; then the two
        // fractions are added, with a carry into the whole part.
        let (due_whole, due_frac) = proportional_share(elapsed, self.capacity, self.window);
        let (carry, frac): (u128, u128) = if self.frac >= self.window - due_frac {
            (1, self.frac - (self.window - due_frac))
        } else {
            (0, self.frac + due_frac)
        };
        let gain: u128 = due_whole + carry;
        proof {
            let window = self.window as int;
            let due = elapsed * self.capacity;
            let total = old(self)@.shares() + old(self)@.due_shares(now as nat);
            lemma_fundamental_div_mod(due, window);
            assert(total == (self.whole + gain) * window + frac) by (nonlinear_arith)
                requires
                    total == self.whole * window + self.frac + due,
                    due == window * due_whole + due_frac,
                    gain == due_whole + carry,
                    frac == self.frac + due_frac - carry * window,
            {
            }
            lemma_fundamental_div_mod_converse(total as int, window, self.whole + gain, frac as int);
        }
        if gain > u128::MAX - self.whole {
            self.whole = u128::MAX;
            self.frac = self.window - 1;
        } else {
            self.whole = self.whole + gain;
            self.frac = frac;
        }
    }

    /// Executions granted per window.
    pub fn capacity(&self) -> (capacity: u64)
        ensures
            capacity == self@.capacity,
    {
        self.capacity
    }

    /// Length of the window, in nanoseconds.
    pub fn window(&self) -> (window: u128)
        ensures
            window == self@.window,
    {
        self.window
    }

    /// Clock reading at which the current window began, in nanoseconds
    /// since the limiter was made.
    pub fn window_start(&self) -> (start: u128)
        ensures
            start == self@.window_start,
    {
        self.window_start
    }

    /// The policy by which the budget comes back.
    pub fn refill_policy(&self) -> (policy: RefillPolicy)
        ensures
            policy == self@.policy,
    {
        self.policy
    }

    /// Whole executions left.
    pub fn executions_left(&self) -> (whole: u128)
        ensures
            whole == self@.whole,
    {
        self.whole
    }

    /// What is left beyond the whole executions: the numerator of a
    /// fraction of one execution, over the window's length in nanoseconds.
    pub fn fraction_left(&self) -> (frac: u128)
        ensures
            frac == self@.frac,
            self@.wf(),
    {
        proof {
            use_type_invariant(self);
        }
        self.frac
    }
}

} // verus!
