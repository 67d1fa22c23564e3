//! The simulation core of a grid arcade shooter: a player slides along the
//! bottom of a walled arena and fires bullets, targets appear above, and
//! collisions between them drive the score and the end of a game.

pub mod arena;
pub mod collision;
pub mod components;
pub mod events;
pub mod lifecycle;
pub mod movement;
pub mod resources;
pub mod score;
pub mod spawner;
pub mod world;
