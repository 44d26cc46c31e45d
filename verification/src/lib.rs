//! Conway's Game of Life on a torus.
//!
//! The grid is a flat, row-major buffer of cells whose edges wrap around:
//! leaving it on one side re-enters it on the opposite side. Every
//! generation is computed from the previous one as a whole.

pub mod cell;
pub mod topology;
pub mod grid;
pub mod render;
mod shuffle;

pub use cell::Cell;
pub use grid::{Grid, GridError, GridView};
