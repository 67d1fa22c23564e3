//! The whole state of the simulation and its invariant.

use crate::arena::{SPAWN_Y_MAX, X_MAX, X_MIN, Y_MAX, Y_MIN};
use crate::components::{Bullet, Player, Position, Target};
use crate::movement::bullet_ok;
use crate::resources::{Game, GameState};
use vstd::prelude::*;

verus! {

/// The most targets that can stand in the arena at once.
pub const TARGET_CAP: usize = 80;

/// The highest score at which a tick may begin: one tick scores at most one
/// hit per target, so the score stays within `i32`.
pub const SCORE_LIMIT: i32 = 2147403647;

/// Every entity of a game, with the score and the state of the game.
pub struct World {
    pub player: Option<Player>,
    pub bullets: Vec<Bullet>,
    pub targets: Vec<Target>,
    pub game: Game,
    pub state: GameState,
    /// How many games this process has begun, the first included.
    pub games_started: u64,
}

/// The contents of a `World`, as sequences.
pub struct WorldView {
    pub player: Option<Player>,
    pub bullets: Seq<Bullet>,
    pub targets: Seq<Target>,
    pub game: Game,
    pub state: GameState,
    pub games_started: u64,
}

impl View for World {
    type V = WorldView;

    open spec fn view(&self) -> WorldView {
        WorldView {
            player: self.player,
            bullets: self.bullets@,
            targets: self.targets@,
            game: self.game,
            state: self.state,
            games_started: self.games_started,
        }
    }
}

/// The cells in which a target may appear.
pub open spec fn in_spawn_band(p: Position) -> bool {
    X_MIN + 1 <= p.x <= X_MAX - 1 && Y_MIN <= p.y <= SPAWN_Y_MAX
}

/// Whether a target stands at `p`.
pub open spec fn target_at(ts: Seq<Target>, p: Position) -> bool {
    exists|k: int| 0 <= k < ts.len() && (#[trigger] ts[k]).pos == p
}

/// No two targets share a cell.
pub open spec fn targets_distinct(ts: Seq<Target>) -> bool {
    forall|j: int, k: int| 0 <= j < ts.len() && 0 <= k < ts.len() && j != k ==> (#[trigger] ts[j]).pos != (#[trigger] ts[k]).pos
}

/// The player stands on the bottom row with its whole footprint inside the walls.
pub open spec fn player_ok(p: Player) -> bool {
    X_MIN <= p.pos.x <= X_MAX - 2 && p.pos.y == Y_MAX
}

impl WorldView {
    /// What holds of the entities between any two stages of a tick.
    pub open spec fn entities_ok(self) -> bool {
        &&& self.game.wf()
        &&& self.player matches Some(p) ==> player_ok(p)
        &&& forall|k: int| 0 <= k < self.bullets.len() ==> bullet_ok(#[trigger] self.bullets[k])
        &&& self.targets.len() <= TARGET_CAP
        &&& forall|k: int| 0 <= k < self.targets.len() ==> in_spawn_band((#[trigger] self.targets[k]).pos)
        &&& targets_distinct(self.targets)
    }

    /// What holds between ticks: the entities are in order, and a player
    /// stands in the arena exactly while the game runs.
    pub open spec fn wf(self) -> bool {
        &&& self.entities_ok()
        &&& (self.state == GameState::InGame) == self.player.is_some()
    }
}

} // verus!
