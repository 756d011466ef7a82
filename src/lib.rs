//! Conway's Game of Life on a toroidal grid, with every operation verified
//! against a mathematical model of the grid.
pub mod cell;
pub mod universe;
pub mod laws;

pub use cell::Cell;
pub use universe::Universe;
