//! Conway's Game of Life on a fixed-size grid with hard edges, for a window in
//! which cells are painted with the pointer.
//!
//! `world` holds the grid and the rule that takes one generation to the next,
//! `line` and `stroke` turn the samples of a dragged pointer into connected
//! lines of live cells, `schedule` decides when the simulation steps and when
//! a frame is drawn, `render` lists what a frame draws, and `engine` puts
//! them together into one pass of the main loop. Nothing here opens a window
//! or reads a clock: time and input come in as plain values, and what is to
//! be drawn goes out as a queue of requests.

pub mod color;
pub mod engine;
pub mod input;
pub mod line;
pub mod patterns;
pub mod render;
pub mod schedule;
pub mod state;
pub mod stroke;
pub mod text;
pub mod world;
