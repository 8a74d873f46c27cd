//! Fixed-interval movement clock, decoupled from the host's frame rate.
//!
//! Each frame the scheduler accumulates elapsed wall-clock time; once the
//! accumulated time reaches the period it emits exactly one tick and keeps
//! only the remainder, so drift does not build up across frames and a long
//! frame still yields at most one tick. While the game is paused nothing
//! accumulates, so no backlog of ticks fires on resume.

use vstd::prelude::*;

verus! {

/// Repeating countdown that turns elapsed frame time into movement ticks.
#[derive(Clone, Copy, PartialEq, Eq, Structural, Debug)]
pub struct MovementScheduler {
    /// Tick period in milliseconds.
    pub period_ms: u64,
    /// Time accumulated towards the next tick, in milliseconds.
    pub acc_ms: u64,
}

impl MovementScheduler {
    /// The period is positive and the accumulator always stays below it.
    pub open spec fn wf(self) -> bool {
        0 < self.period_ms && self.acc_ms < self.period_ms
    }

    /// A fresh scheduler with nothing accumulated yet.
    pub fn new(period_ms: u64) -> (s: Self)
        requires
            period_ms > 0,
        ensures
            s.wf(),
            s.period_ms == period_ms,
            s.acc_ms == 0,
    {
        MovementScheduler { period_ms, acc_ms: 0 }
    }

    /// Feed one frame's elapsed time. Returns whether a movement tick
    /// fires this frame. While not running, time is not accumulated at
    /// all, so the countdown resumes later from the same remainder.
    pub fn on_frame(&mut self, elapsed_ms: u64, running: bool) -> (ticked: bool)
        requires
            old(self).wf(),
            elapsed_ms <= u64::MAX - old(self).period_ms,
        ensures
            final(self).wf(),
            final(self).period_ms == old(self).period_ms,
            !running ==> !ticked && final(self).acc_ms == old(self).acc_ms,
            running ==> (ticked <==> old(self).acc_ms + elapsed_ms >= old(self).period_ms),
            running && ticked ==> final(self).acc_ms == (old(self).acc_ms + elapsed_ms) % (
            old(self).period_ms as int),
            running && !ticked ==> final(self).acc_ms == old(self).acc_ms + elapsed_ms,
    {
        if !running {
            return false;
        }
        let total = self.acc_ms + elapsed_ms;
        if total >= self.period_ms {
            self.acc_ms = total % self.period_ms;
            true
        } else {
            self.acc_ms = total;
            false
        }
    }
}

} // verus!
