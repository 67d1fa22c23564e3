//! The score keeping and the two states of a game.

use vstd::prelude::*;

verus! {

/// The points a player earns for each target shot.
pub const HIT_SCORE: i32 = 1000;

/// Whether gameplay runs, or the player has crashed and waits for a restart.
#[derive(Debug, Clone, Copy, PartialEq, Eq, Structural)]
pub enum GameState {
    InGame,
    GameOver,
}

/// The score of the running game and the best score of this process.
#[derive(Debug, Clone, Copy, PartialEq, Eq, Structural)]
pub struct Game {
    pub score: i32,
    pub hi_score: i32,
}

impl Game {
    /// Neither number is negative and the best score is never behind the score.
    pub open spec fn wf(self) -> bool {
        0 <= self.score <= self.hi_score
    }

    pub fn new() -> (r: Self)
        ensures
            r == (Game { score: 0, hi_score: 0 }),
            r.wf(),
    {
        Game { score: 0, hi_score: 0 }
    }

    /// Starts a new game: the score goes back to zero, the best score stays.
    pub fn reset(&mut self)
        ensures
            final(self).score == 0,
            final(self).hi_score == old(self).hi_score,
    {
        self.score = 0;
    }
}

impl Default for Game {
    fn default() -> (r: Self)
        ensures
            r == (Game { score: 0, hi_score: 0 }),
    {
        Game::new()
    }
}

} // verus!
