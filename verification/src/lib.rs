//! A grid-bound robot driven by an untrusted script.
//!
//! The crate holds the tile grid, the robot's motion rules, the command and
//! response vocabulary, the simulation loop as a state machine, the mapping
//! from responses to what a script primitive returns, and the replay of a
//! recorded command log.

pub mod world;
pub mod robot;
pub mod simulation;
pub mod bridge;
pub mod screen;
pub mod playback;
pub mod level;
