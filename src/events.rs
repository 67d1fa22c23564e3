//! What one tick reports to the sound and drawing around the simulation.

use crate::components::Position;
use vstd::prelude::*;

verus! {

/// A bullet hit a target.
#[derive(Debug, Clone, Copy, PartialEq, Eq, Structural)]
pub struct HitEvent;

/// A bullet hit the player, who stood at `pos`.
#[derive(Debug, Clone, Copy, PartialEq, Eq, Structural)]
pub struct CrashEvent {
    pub pos: Position,
}

} // verus!

verus! {

/// What a tick reports: one hit for each target shot, the crash if the player
/// was hit, and the cells where the crash leaves dust.
pub struct TickEvents {
    pub hits: Vec<HitEvent>,
    pub crash: Option<CrashEvent>,
    pub dust: Vec<Position>,
}

} // verus!
