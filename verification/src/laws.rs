//! What holds of every limiter, proved of the update rule of [`Budget`].

use vstd::prelude::*;
use vstd::arithmetic::div_mod::{
    lemma_div_is_ordered,
    lemma_fundamental_div_mod,
    lemma_fundamental_div_mod_converse,
};
use crate::budget::{whole_limit, Budget};
use crate::policy::RefillPolicy;

verus! {

/// An attempt keeps a well-formed state well formed. It changes neither the
/// capacity, nor the window's length, nor the policy, and the start of the
/// window never moves back.
pub proof fn lemma_step_keeps_configuration(b: Budget, now: nat)
    requires
        b.wf(),
    ensures
        b.step(now).wf(),
        b.step(now).capacity == b.capacity,
        b.step(now).window == b.window,
        b.step(now).policy == b.policy,
        b.step(now).window_start >= b.window_start,
{
    lemma_refill_keeps_well_formed(b, now);
}

/// The refill step keeps a well-formed state well formed.
pub proof fn lemma_refill_keeps_well_formed(b: Budget, now: nat)
    requires
        b.wf(),
    ensures
        b.refilled(now).wf(),
{
    if b.window > 0 {
        let total = (b.shares() + b.due_shares(now)) as int;
        let window = b.window as int;
        assert(0 <= total % window && total % window < window && 0 <= total / window)
            by (nonlinear_arith)
            requires
                window > 0,
                total >= 0,
        {
        }
    }
}

/// Under the full policy, attempts within the window only spend: as long as
/// no more attempts are made than whole executions are left, each one takes
/// exactly one and nothing else changes.
pub proof fn lemma_full_run_within_window(b: Budget, readings: Seq<nat>)
    requires
        b.policy == RefillPolicy::Full,
        readings.len() <= b.whole,
        forall|i: int| 0 <= i < readings.len() ==> !b.window_over(#[trigger] readings[i]),
    ensures
        b.after(readings) == (Budget { whole: (b.whole - readings.len()) as nat, ..b }),
    decreases readings.len(),
{
    if readings.len() > 0 {
        let earlier = readings.drop_last();
        assert forall|i: int| 0 <= i < earlier.len() implies !b.window_over(
            #[trigger] earlier[i],
        ) by {
            assert(earlier[i] == readings[i]);
        }
        lemma_full_run_within_window(b, earlier);
        assert(!b.window_over(readings[readings.len() - 1]));
    }
}

/// Exhaustion under the full policy: of `capacity + 1` attempts made within
/// one window on a budget of `capacity` whole executions, the first
/// `capacity` are allowed and the last one is refused.
pub proof fn lemma_full_exhaustion(b: Budget, readings: Seq<nat>)
    requires
        b.policy == RefillPolicy::Full,
        b.whole == b.capacity,
        readings.len() == b.capacity + 1,
        forall|i: int| 0 <= i < readings.len() ==> !b.window_over(#[trigger] readings[i]),
    ensures
        forall|k: int| 0 <= k < b.capacity ==> b.admits_nth(readings, k),
        !b.admits_nth(readings, b.capacity as int),
{
    assert forall|k: int| 0 <= k <= b.capacity implies b.after(readings.take(k)) == (Budget {
        whole: (b.capacity - k) as nat,
        ..b
    }) by {
        let earlier = readings.take(k);
        assert forall|i: int| 0 <= i < earlier.len() implies !b.window_over(
            #[trigger] earlier[i],
        ) by {
            assert(earlier[i] == readings[i]);
        }
        lemma_full_run_within_window(b, earlier);
    }
    assert forall|k: int| 0 <= k < b.capacity implies b.admits_nth(readings, k) by {
        assert(!b.window_over(readings[k]));
    }
    assert(!b.window_over(readings[b.capacity as int]));
}

/// Under the full policy the budget never grows beyond the capacity: a
/// state with at most `capacity` executions left has at most `capacity`
/// left after any attempt.
pub proof fn lemma_full_stays_within_capacity(b: Budget, now: nat)
    requires
        b.policy == RefillPolicy::Full,
        b.within_capacity(),
    ensures
        b.step(now).within_capacity(),
{
}

/// Reset under the full policy: once more than a window has elapsed, the
/// refill step restores the whole capacity, whatever was left, and begins a
/// new window at the reading. The attempt is then allowed unless the
/// capacity is zero.
pub proof fn lemma_full_reset(b: Budget, now: nat)
    requires
        b.policy == RefillPolicy::Full,
        b.window_over(now),
    ensures
        b.refilled(now).whole == b.capacity,
        b.refilled(now).frac == 0,
        b.refilled(now).window_start == now,
        b.admits(now) == (b.capacity >= 1),
{
}

/// No partial refill under the full policy: until more than a window has
/// elapsed, the refill step changes nothing. A spent budget stays spent and
/// the attempt is refused.
pub proof fn lemma_full_no_partial_refill(b: Budget, now: nat)
    requires
        b.policy == RefillPolicy::Full,
        !b.window_over(now),
    ensures
        b.refilled(now) == b,
        b.whole == 0 ==> !b.admits(now) && b.step(now) == b,
{
}

/// Proportional refill under the gradual policy: where the budget is not
/// full and `elapsed` nanoseconds, no more than a window, have passed since
/// the start of the window, the refill step adds `elapsed / window *
/// capacity` executions, which are `elapsed * capacity` shares, and the
/// window slides to the reading. Left out are the refills that would lead
/// beyond the largest budget that a limiter can hold.
pub proof fn lemma_gradual_refill(b: Budget, elapsed: nat)
    requires
        b.wf(),
        b.policy == RefillPolicy::Gradual,
        !b.is_full(),
        elapsed <= b.window,
        b.window > 0 ==> (b.shares() + elapsed * b.capacity) / b.window <= whole_limit(),
    ensures
        b.refilled(b.window_start + elapsed).shares() == b.shares() + elapsed * b.capacity,
        b.refilled(b.window_start + elapsed).window_start == b.window_start + elapsed,
{
    let now = b.window_start + elapsed;
    assert(b.elapsed(now) == elapsed);
    assert(b.refilled(now) == b.trickled(now));
    if b.window > 0 {
        let window = b.window as int;
        let total = (b.shares() + elapsed * b.capacity) as int;
        assert(b.due_shares(now) == elapsed * b.capacity);
        lemma_fundamental_div_mod(total, window);
        assert(0 <= total % window && 0 <= total / window && (total / window) * window == window
            * (total / window)) by (nonlinear_arith)
            requires
                window > 0,
                total >= 0,
        {
        }
        assert(b.trickled(now).whole == total / window);
        assert(b.trickled(now).frac == total % window);
    } else {
        assert(elapsed * b.capacity == 0) by (nonlinear_arith)
            requires
                elapsed == 0,
        {
        }
    }
}

/// Long idle under the gradual policy: where the budget is not full and
/// more than a window has elapsed, the refill step restores the whole
/// capacity and begins a new window at the reading, as the full policy
/// does.
pub proof fn lemma_gradual_reset(b: Budget, now: nat)
    requires
        b.policy == RefillPolicy::Gradual,
        !b.is_full(),
        b.window_over(now),
    ensures
        b.refilled(now) == b.with_policy(RefillPolicy::Full).refilled(now).with_policy(
            RefillPolicy::Gradual,
        ),
        b.refilled(now).whole == b.capacity,
        b.refilled(now).frac == 0,
        b.refilled(now).window_start == now,
{
}

/// The budget goes down by consumption alone. A refused attempt takes
/// nothing, and an allowed one takes exactly one execution from what the
/// refill step left. The refill step itself takes nothing away, unless it
/// resets a budget that had grown beyond the capacity.
pub proof fn lemma_budget_only_spent_by_one(b: Budget, now: nat)
    requires
        b.wf(),
        b.within_capacity() || !b.window_over(now),
    ensures
        b.at_most(b.refilled(now)),
        b.admits(now) ==> b.step(now) == (Budget {
            whole: (b.refilled(now).whole - 1) as nat,
            ..b.refilled(now)
        }),
        !b.admits(now) ==> b.step(now) == b.refilled(now),
{
    if b.policy == RefillPolicy::Gradual && !b.is_full() && !b.window_over(now) && b.window > 0 {
        let window = b.window as int;
        let total = (b.shares() + b.due_shares(now)) as int;
        lemma_fundamental_div_mod_converse(b.shares() as int, window, b.whole as int, b.frac as int);
        lemma_div_is_ordered(b.shares() as int, total, window);
        lemma_fundamental_div_mod(total, window);
        if total / window == b.whole {
            assert(window * (total / window) == b.whole * window) by (nonlinear_arith)
                requires
                    total / window == b.whole,
            {
            }
        }
    }
}

/// A limiter without capacity refuses every attempt, under either policy
/// and at any reading, and stays without budget.
pub proof fn lemma_zero_capacity_refuses(b: Budget, now: nat)
    requires
        b.capacity == 0,
        b.is_full(),
    ensures
        !b.admits(now),
        b.step(now).is_full(),
{
}

} // verus!
