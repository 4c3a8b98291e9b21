//! The game-state core of a small vertical space shooter: input sampling,
//! entity motion and spawning, bounding-box collisions and the player's
//! state machine, advanced one fixed tick at a time.

pub mod geometry;
pub mod controller;
pub mod player;
pub mod world;
