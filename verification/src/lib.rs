//! Conway's Game of Life on a grid whose edges wrap around.
//!
//! [`universe::Universe`] owns the cell buffer and advances it one generation
//! at a time. Its contracts are stated over [`grid::Grid`], the mathematical
//! picture of a universe, and [`laws`] proves what follows from them for
//! every grid.

pub mod cell;
pub mod grid;
pub mod universe;
pub mod laws;

pub use cell::Cell;
pub use universe::{GridError, Universe};
