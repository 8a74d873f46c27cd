//! Score and high-score tracking.
//!
//! The session score rises by one for every apple eaten. When it passes
//! the best score on record the high score rises by one step as well —
//! since the score itself only ever rises in steps of one, that keeps the
//! two equal from the moment the record is first beaten — and the new
//! record is handed back so the host can persist it at once.

use vstd::prelude::*;

verus! {

/// The running session score and the best score on record.
#[derive(Clone, Copy, PartialEq, Eq, Structural, Debug)]
pub struct ScoreKeeper {
    /// Score of the current session; starts at zero and never resets.
    pub score: u32,
    /// Best score ever achieved, loaded at startup and persisted on
    /// every improvement.
    pub high_score: u32,
}

impl ScoreKeeper {
    /// The session score never exceeds the record.
    pub open spec fn wf(self) -> bool {
        self.score <= self.high_score
    }

    /// Start a session at score zero against a loaded record.
    pub fn new(high_score: u32) -> (s: Self)
        ensures
            s.wf(),
            s.score == 0,
            s.high_score == high_score,
    {
        ScoreKeeper { score: 0, high_score }
    }

    /// Record one eaten apple: the score rises by one, and if that beats
    /// the record, the record follows and is returned so the caller can
    /// persist it. Exactly the improved record is returned, and only
    /// when there is one.
    pub fn on_eat(&mut self) -> (save: Option<u32>)
        requires
            old(self).wf(),
            old(self).score < u32::MAX,
        ensures
            final(self).wf(),
            final(self).score == old(self).score + 1,
            old(self).score == old(self).high_score ==> final(self).high_score == old(
            self).high_score + 1 && save == Some(final(self).high_score),
            old(self).score < old(self).high_score ==> final(self).high_score == old(
            self).high_score && save is None,
    {
        self.score = self.score + 1;
        if self.high_score < self.score {
            self.high_score = self.high_score + 1;
            Some(self.high_score)
        } else {
            None
        }
    }
}

} // verus!
