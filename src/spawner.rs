//! Targets appear at random cells of the upper part of the arena.

use crate::arena::{SPAWN_Y_MAX, X_MAX, X_MIN, Y_MIN};
use crate::collision::any_target_at;
use crate::components::{Position, Target};
use crate::world::{in_spawn_band, target_at, targets_distinct, World, WorldView, TARGET_CAP};
use rand::Rng;
use vstd::prelude::*;

verus! {

/// The chance, in percent, that a free candidate cell gets a target.
pub const SPAWN_PERCENT: i32 = 7;

impl WorldView {
    /// One spawn attempt at cell `c` with a draw `roll` from `0..100`: a target
    /// appears at `c` if none stands there, the draw is below
    /// `SPAWN_PERCENT`, and fewer than `TARGET_CAP` targets stand.
    pub open spec fn with_target_at(self, c: Position, roll: i32) -> WorldView {
        if !target_at(self.targets, c) && roll < SPAWN_PERCENT && self.targets.len() < TARGET_CAP {
            WorldView { targets: self.targets.push(Target { pos: c }), ..self }
        } else {
            self
        }
    }
}

/// Relies on `rand::thread_rng` and `rand::Rng::gen_range`: a number from the
/// thread's generator in `lo..=hi`. `gen_range` panics on an empty range.
#[verifier::external_body]
fn random_in(lo: i32, hi: i32) -> (r: i32)
    requires
        lo <= hi,
    ensures
        lo <= r <= hi,
{
    rand::thread_rng().gen_range(lo..=hi)
}

impl World {
    /// One spawn attempt at the candidate cell `c`, given the draw `roll`.
    pub fn spawn_target_at(&mut self, c: Position, roll: i32)
        requires
            old(self)@.entities_ok(),
            in_spawn_band(c),
            0 <= roll < 100,
        ensures
            final(self)@ == old(self)@.with_target_at(c, roll),
            final(self)@.entities_ok(),
    {
        if any_target_at(&self.targets, c) {
            return;
        }
        if roll < SPAWN_PERCENT && self.targets.len() < TARGET_CAP {
            self.targets.push(Target { pos: c });
        }
    }

    /// A random candidate cell of the spawn band and a random draw from `0..100`.
    pub fn spawn_draw() -> (r: (Position, i32))
        ensures
            in_spawn_band(r.0),
            0 <= r.1 < 100,
    {
        let c = Position::new(random_in(X_MIN + 1, X_MAX - 1), random_in(Y_MIN, SPAWN_Y_MAX));
        let roll = random_in(0, 99);
        (c, roll)
    }

    /// One spawn attempt at a random cell of the spawn band, with a random draw.
    pub fn spawn_target(&mut self)
        requires
            old(self)@.entities_ok(),
        ensures
            exists|c: Position, roll: i32|
                in_spawn_band(c) && 0 <= roll < 100 && final(self)@ == old(self)@.with_target_at(c, roll),
            final(self)@.entities_ok(),
    {
        let (c, roll) = Self::spawn_draw();
        self.spawn_target_at(c, roll);
    }
}

/// A spawn attempt never puts a second target on a cell, and never brings the
/// number of targets above `TARGET_CAP`.
pub proof fn lemma_spawn_keeps_targets_apart(w: WorldView, c: Position, roll: i32)
    requires
        targets_distinct(w.targets),
        w.targets.len() <= TARGET_CAP,
    ensures
        targets_distinct(w.with_target_at(c, roll).targets),
        w.with_target_at(c, roll).targets.len() <= TARGET_CAP,
{
}

} // verus!
