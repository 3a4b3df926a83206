//! Conway's Game of Life on a fixed, non-wrapping grid, and the scheduler that
//! decides when a running simulation advances by one generation.
pub mod board;
pub mod grid;
pub mod scheduler;

pub use grid::{Life, LifeGrid};
