//! The simulation core of an arcade reflex game: a particle bounces inside a
//! bounded arena between two moving pads while hazards, projectiles and timed
//! pickups appear with growing density.
//!
//! The crate holds the state and the rules only. Drawing, sound, input polling
//! and the window belong to whoever drives the simulation: it feeds each frame
//! the elapsed time and the input, and reads back the state and the sound cues.

pub mod fixed;
pub mod constants;
pub mod utils;
pub mod rng;
pub mod explosion;
pub mod obstacle_grid;
pub mod frame;
pub mod obstacle;
pub mod pad;
pub mod bomb;
pub mod player;
pub mod game;
pub mod dev_util;
pub mod dither;
