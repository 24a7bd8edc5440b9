//! The simulation core of a two-player Pong: box collisions, motion,
//! scoring and the game-flow state machine, on integer coordinates.

pub mod consts;
pub mod flow;
pub mod game;
pub mod geometry;
pub mod physics;
pub mod registry;
pub mod types;
