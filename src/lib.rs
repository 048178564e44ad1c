//! Simulation, collision and frame-diffing core of a terminal arcade shooter.
//!
//! Every entity paints itself into a fixed-size [`frame::Frame`]; the game
//! loop's decisions live in [`game::Game`], and the renderer only emits the
//! cells that [`render::frame_diff`] reports as changed.
use vstd::prelude::*;

pub mod frame;
pub mod game;
pub mod invaders;
pub mod piercer;
pub mod player;
pub mod render;
pub mod shot;
pub mod timer;

verus! {

/// Number of rows of the playing field.
pub const NUM_ROWS: usize = 20;

/// Number of columns of the playing field.
pub const NUM_COLS: usize = 40;

} // verus!
