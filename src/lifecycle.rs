//! A game's course: the board it starts on, the ordered stages of a tick,
//! the crash that ends it and the restart that begins the next.

use crate::arena::{PLAYER_START_X, Y_MAX};
use crate::collision::hit_count;
use crate::components::{Player, Position};
use crate::events::{CrashEvent, TickEvents};
use crate::movement::Input;
use crate::resources::{Game, GameState};
use crate::world::{in_spawn_band, World, WorldView, SCORE_LIMIT};
use vstd::prelude::*;

verus! {

/// The cell where the player begins each game.
pub open spec fn player_start() -> Position {
    Position { x: PLAYER_START_X, y: Y_MAX }
}

/// The dust a crash at `p` leaves on the player's three cells.
pub open spec fn crash_dust(p: Position) -> Seq<Position> {
    seq![p, Position { x: (p.x + 1) as i32, y: p.y }, Position { x: (p.x + 2) as i32, y: p.y }]
}

impl WorldView {
    /// A crash ends the game.
    pub open spec fn after_crash(self, crash: Option<CrashEvent>) -> WorldView {
        if crash is Some {
            WorldView { state: GameState::GameOver, ..self }
        } else {
            self
        }
    }

    /// The stages of a tick up to the collisions: the player, the bullets,
    /// then one spawn attempt at `c` with the draw `roll`.
    pub open spec fn moved(self, input: Input, c: Position, roll: i32) -> WorldView {
        self.after_player_move(input).after_bullet_move().with_target_at(c, roll)
    }

    /// The stages of a tick up to the player against bullet pass.
    pub open spec fn collided(self, input: Input, c: Position, roll: i32) -> WorldView {
        self.moved(input, c, roll).after_bullet_target().after_bullet_bullet()
    }

    /// One tick: nothing moves once the game is over; otherwise the stages
    /// run in order and a crash ends the game.
    pub open spec fn ticked(self, input: Input, c: Position, roll: i32) -> WorldView {
        if self.state == GameState::InGame {
            let w = self.collided(input, c, roll);
            w.after_player_bullet().after_crash(w.crash_in())
        } else {
            self
        }
    }

    /// The number of targets a tick shoots.
    pub open spec fn tick_hits(self, input: Input, c: Position, roll: i32) -> nat {
        if self.state == GameState::InGame {
            let w = self.moved(input, c, roll);
            hit_count(w.bullets, w.targets)
        } else {
            0
        }
    }

    /// The crash a tick reports.
    pub open spec fn tick_crash(self, input: Input, c: Position, roll: i32) -> Option<CrashEvent> {
        if self.state == GameState::InGame {
            self.collided(input, c, roll).crash_in()
        } else {
            None
        }
    }

    /// A fresh board: the player at its start cell, no bullets or targets,
    /// a score of zero beside the best score `hi_score`.
    pub open spec fn fresh(hi_score: i32, games_started: u64) -> WorldView {
        WorldView {
            player: Some(Player { pos: player_start() }),
            bullets: Seq::empty(),
            targets: Seq::empty(),
            game: Game { score: 0, hi_score },
            state: GameState::InGame,
            games_started,
        }
    }
}

/// What a tick of `w` reports.
pub open spec fn reports(w: WorldView, input: Input, c: Position, roll: i32, ev: TickEvents) -> bool {
    &&& ev.hits@.len() == w.tick_hits(input, c, roll)
    &&& ev.crash == w.tick_crash(input, c, roll)
    &&& ev.dust@ == (match ev.crash {
        Some(e) => crash_dust(e.pos),
        None => Seq::empty(),
    })
}

impl World {
    /// The first game of a process.
    pub fn new() -> (r: Self)
        ensures
            r@ == WorldView::fresh(0, 1),
            r@.wf(),
    {
        World {
            player: Some(Player { pos: Position::new(PLAYER_START_X, Y_MAX) }),
            bullets: Vec::new(),
            targets: Vec::new(),
            game: Game::new(),
            state: GameState::InGame,
            games_started: 1,
        }
    }

    /// Clears the board and sets up a new game on it; the best score stays.
    pub fn setup_ingame(&mut self)
        requires
            old(self)@.game.wf(),
        ensures
            final(self)@ == WorldView::fresh(old(self).game.hi_score, old(self).games_started),
            final(self)@.wf(),
    {
        self.bullets = Vec::new();
        self.targets = Vec::new();
        self.game.reset();
        self.player = Some(Player { pos: Position::new(PLAYER_START_X, Y_MAX) });
        self.state = GameState::InGame;
    }

    /// Ends the game if a crash was reported, and gives the cells of its dust.
    pub fn crash_event(&mut self, crash: Option<CrashEvent>) -> (dust: Vec<Position>)
        requires
            crash matches Some(e) ==> e.pos.x <= i32::MAX - 2,
        ensures
            final(self)@ == old(self)@.after_crash(crash),
            dust@ == (match crash {
                Some(e) => crash_dust(e.pos),
                None => Seq::empty(),
            }),
    {
        let mut dust: Vec<Position> = Vec::new();
        if let Some(e) = crash {
            let mut i: i32 = 0;
            while i < 3
                invariant
                    0 <= i <= 3,
                    e.pos.x <= i32::MAX - 2,
                    dust@ == crash_dust(e.pos).subrange(0, i as int),
                decreases 3 - i,
            {
                dust.push(Position::new(e.pos.x + i, e.pos.y));
                i += 1;
                assert(dust@ =~= crash_dust(e.pos).subrange(0, i as int));
            }
            assert(dust@ =~= crash_dust(e.pos));
            self.state = GameState::GameOver;
        }
        dust
    }

    /// One tick with the spawn attempt at `c` and the draw `roll` given.
    pub fn tick(&mut self, input: Input, c: Position, roll: i32) -> (ev: TickEvents)
        requires
            old(self)@.wf(),
            old(self).game.score <= SCORE_LIMIT,
            in_spawn_band(c),
            0 <= roll < 100,
        ensures
            final(self)@ == old(self)@.ticked(input, c, roll),
            reports(old(self)@, input, c, roll, ev),
            final(self)@.wf(),
    {
        if self.state != GameState::InGame {
            return TickEvents { hits: Vec::new(), crash: None, dust: Vec::new() };
        }
        self.update_player(input);
        self.update_bullets();
        self.spawn_target_at(c, roll);
        let hits = self.check_for_bullet_target_collisions();
        self.check_for_bullet_bullet_collisions();
        let crash = self.check_for_player_bullet_collisions();
        let dust = self.crash_event(crash);
        TickEvents { hits, crash, dust }
    }

    /// One tick, with a random spawn attempt.
    pub fn update(&mut self, input: Input) -> (ev: TickEvents)
        requires
            old(self)@.wf(),
            old(self).game.score <= SCORE_LIMIT,
        ensures
            exists|c: Position, roll: i32|
                in_spawn_band(c) && 0 <= roll < 100 && final(self)@ == old(self)@.ticked(input, c, roll)
                    && reports(old(self)@, input, c, roll, ev),
            final(self)@.wf(),
    {
        let (c, roll) = Self::spawn_draw();
        self.tick(input, c, roll)
    }

    /// Starts the next game if `restart_pressed` and the game is over; the
    /// best score stays and the count of games goes up by one.
    pub fn restart(&mut self, restart_pressed: bool)
        requires
            old(self)@.wf(),
            old(self).games_started < u64::MAX,
        ensures
            final(self)@ == (if old(self).state == GameState::GameOver && restart_pressed {
                WorldView::fresh(old(self).game.hi_score, (old(self).games_started + 1) as u64)
            } else {
                old(self)@
            }),
            final(self)@.wf(),
    {
        if self.state == GameState::GameOver && restart_pressed {
            self.games_started = self.games_started + 1;
            self.setup_ingame();
        }
    }
}

} // verus!
