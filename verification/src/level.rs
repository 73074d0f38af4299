//! The round state: either the selection screen or a running round
//! with its difficulty and a count-down timer.

use vstd::prelude::*;

verus! {

/// How long one round lasts, in milliseconds.
pub const ROUND_MS: i64 = 60_000;

/// The round state machine.
#[derive(Clone, Copy, Debug, PartialEq, Eq, Structural)]
pub enum LevelState {
    Select,
    Running { difficulty: u32, remaining_ms: i64 },
}

impl LevelState {
    /// Start a round at a difficulty with a full timer.
    pub fn start(difficulty: u32) -> (r: LevelState)
        ensures
            r == (LevelState::Running { difficulty, remaining_ms: ROUND_MS }),
    {
        LevelState::Running { difficulty, remaining_ms: ROUND_MS }
    }

    /// Whether a round is running.
    pub fn is_running(&self) -> (r: bool)
        ensures
            r == (*self is Running),
    {
        match self {
            LevelState::Running { .. } => true,
            LevelState::Select => false,
        }
    }

    /// The current difficulty, zero on the selection screen.
    pub fn difficulty(&self) -> (r: u32)
        ensures
            *self is Running ==> r == (*self)->Running_difficulty,
            *self is Select ==> r == 0,
    {
        match self {
            LevelState::Running { difficulty, .. } => *difficulty,
            LevelState::Select => 0,
        }
    }

    /// Advance the round timer; returns true exactly when this tick
    /// ran the timer out (the round just finished).
    pub fn tick(&mut self, dt: i64) -> (finished: bool)
        requires
            0 <= dt,
        ensures
            *old(self) is Select ==> *final(self) == *old(self) && !finished,
            *old(self) is Running ==> {
                let rem = (*old(self))->Running_remaining_ms;
                &&& *final(self) is Running
                &&& (*final(self))->Running_difficulty == (*old(self))->Running_difficulty
                &&& (*final(self))->Running_remaining_ms == (if rem - dt < 0 {
                    0int
                } else {
                    rem - dt
                })
                &&& finished == (rem > 0 && rem - dt <= 0)
            },
    {
        match *self {
            LevelState::Select => false,
            LevelState::Running { difficulty, remaining_ms } => {
                let nr: i64 = if remaining_ms < i64::MIN + dt {
                    0
                } else if remaining_ms - dt < 0 {
                    0
                } else {
                    remaining_ms - dt
                };
                *self = LevelState::Running { difficulty, remaining_ms: nr };
                remaining_ms > 0 && remaining_ms <= dt
            },
        }
    }
}

} // verus!
