//! Score and stage bookkeeping: credits, per-difficulty high scores
//! and stage unlocks.

use vstd::prelude::*;

verus! {

/// Number of selectable difficulties.
pub const MAX_DIFFICULTY: usize = 5;

/// One stage's standing: whether it can be played and its best
/// score, if any.
#[derive(Clone, Copy, Debug, PartialEq, Eq, Structural)]
pub struct StageScore {
    pub unlocked: bool,
    pub high_score: Option<u64>,
}

/// The running score, spendable credits, and the stages' standing.
pub struct Scoreboard {
    pub score: u64,
    pub credits: u64,
    pub stages: Vec<StageScore>,
}

impl Scoreboard {
    pub open spec fn wf(self) -> bool {
        self.stages.len() == MAX_DIFFICULTY
    }

    /// A fresh scoreboard: nothing earned, only the first stage
    /// unlocked.
    pub fn new() -> (r: Scoreboard)
        ensures
            r.wf(),
            r.score == 0 && r.credits == 0,
            forall|d: int|
                0 <= d < MAX_DIFFICULTY ==> #[trigger] r.stages[d] == (StageScore {
                    unlocked: d == 0,
                    high_score: None,
                }),
    {
        let mut stages: Vec<StageScore> = Vec::new();
        let mut d: usize = 0;
        while d < MAX_DIFFICULTY
            invariant
                d <= MAX_DIFFICULTY,
                stages.len() == d,
                forall|i: int|
                    0 <= i < d ==> #[trigger] stages[i] == (StageScore {
                        unlocked: i == 0,
                        high_score: None,
                    }),
            decreases MAX_DIFFICULTY - d,
        {
            stages.push(StageScore { unlocked: d == 0, high_score: None });
            d = d + 1;
        }
        Scoreboard { score: 0, credits: 0, stages }
    }

    /// Credit a kill's worth to both the score and the spendable
    /// credits, saturating.
    pub fn credit(&mut self, amount: u64)
        ensures
            final(self).score == if old(self).score + amount > u64::MAX {
                u64::MAX as int
            } else {
                old(self).score + amount
            },
            final(self).credits == if old(self).credits + amount > u64::MAX {
                u64::MAX as int
            } else {
                old(self).credits + amount
            },
            final(self).stages == old(self).stages,
    {
        self.score = if self.score > u64::MAX - amount {
            u64::MAX
        } else {
            self.score + amount
        };
        self.credits = if self.credits > u64::MAX - amount {
            u64::MAX
        } else {
            self.credits + amount
        };
    }

    /// Close a round at a difficulty: record a new high score when
    /// the round's score beats the old one (or none was set), and
    /// unlock the next difficulty.
    pub fn finish_round(&mut self, difficulty: usize)
        requires
            old(self).wf(),
            difficulty < MAX_DIFFICULTY,
        ensures
            final(self).wf(),
            final(self).score == old(self).score,
            final(self).credits == old(self).credits,
            forall|d: int|
                0 <= d < MAX_DIFFICULTY && d != difficulty && d != difficulty + 1
                    ==> #[trigger] final(self).stages[d] == old(self).stages[d],
            final(self).stages[difficulty as int].unlocked
                == old(self).stages[difficulty as int].unlocked,
            final(self).stages[difficulty as int].high_score
                == (match old(self).stages[difficulty as int].high_score {
                Some(h) => if old(self).score > h {
                    Some(old(self).score)
                } else {
                    Some(h)
                },
                None => Some(old(self).score),
            }),
            difficulty + 1 < MAX_DIFFICULTY
                ==> final(self).stages[difficulty as int + 1].unlocked,
    {
        let cur = self.stages[difficulty];
        let better = match cur.high_score {
            Some(h) => self.score > h,
            None => true,
        };
        if better {
            vstd::pervasive::VecAdditionalExecFns::set(
                &mut self.stages,
                difficulty,
                StageScore { high_score: Some(self.score), ..cur },
            );
        }
        if difficulty + 1 < MAX_DIFFICULTY {
            let nxt = self.stages[difficulty + 1];
            vstd::pervasive::VecAdditionalExecFns::set(
                &mut self.stages,
                difficulty + 1,
                StageScore { unlocked: true, ..nxt },
            );
        }
    }
}

} // verus!
