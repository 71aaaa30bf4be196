//! A one-tick cooperative yield.
//!
//! A fresh yield reports `Pending` on its first poll — immediately re-waking
//! its own task, so the task runs again on the next run-loop pass — and
//! `Ready` on its second poll. It lets other ready tasks run first,
//! independent of the timer.

use crate::wake::{PollResult, WakeSignal};
use vstd::prelude::*;

verus! {

/// The yield future: pending while its flag is set, ready afterwards.
#[derive(Clone, Copy, PartialEq, Eq, Structural, Debug)]
pub struct YieldNow {
    /// `true` until the first poll has suspended once.
    pub yield_now: bool,
}

/// The yield state after one poll.
pub open spec fn yield_step(y: YieldNow) -> YieldNow {
    if y.yield_now {
        YieldNow { yield_now: false }
    } else {
        y
    }
}

/// The result one poll of `y` reports.
pub open spec fn yield_result(y: YieldNow) -> PollResult {
    if y.yield_now {
        PollResult::Pending
    } else {
        PollResult::Ready
    }
}

impl YieldNow {
    /// Polls the yield: on the first poll it clears its flag, re-wakes its
    /// own task through `signal`, and suspends; on any later poll it
    /// completes without touching the flags.
    pub fn poll(&mut self, flags: &mut Vec<bool>, signal: WakeSignal) -> (r: PollResult)
        requires
            signal.slot < old(flags)@.len(),
        ensures
            r == yield_result(*old(self)),
            *final(self) == yield_step(*old(self)),
            final(flags)@ == if old(self).yield_now {
                old(flags)@.update(signal.slot as int, true)
            } else {
                old(flags)@
            },
    {
        if self.yield_now {
            self.yield_now = false;
            signal.wake(flags);
            PollResult::Pending
        } else {
            PollResult::Ready
        }
    }
}

/// A fresh yield, pending on its first poll and ready on its second.
pub fn yield_now() -> (y: YieldNow)
    ensures
        y.yield_now,
{
    YieldNow { yield_now: true }
}

/// Law: a fresh yield reports `Pending` exactly once — its first poll
/// suspends, its second poll and every later one report `Ready`, and no poll
/// after the first changes its state.
pub proof fn lemma_yield_pending_exactly_once(y: YieldNow)
    requires
        y.yield_now,
    ensures
        yield_result(y) == PollResult::Pending,
        yield_result(yield_step(y)) == PollResult::Ready,
        yield_step(yield_step(y)) == yield_step(y),
{
}

} // verus!
