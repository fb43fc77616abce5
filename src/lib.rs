//! Conway's Game of Life on a toroidal grid of cells.

pub mod grid;
pub mod laws;
pub mod rule;
