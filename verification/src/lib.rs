//! Conway's Game of Life on a torus: a rectangular grid of cells whose edges
//! join the opposite edges, stepped one generation at a time.
//!
//! The mathematical model of a grid and of one generation lives in `model`;
//! `universe` holds the executable grid, whose every operation is stated over
//! that model; `laws` proves what follows for all grids.

pub mod arith;
pub mod cell;
pub mod error;
pub mod laws;
pub mod model;
pub mod render;
pub mod universe;

pub use cell::Cell;
pub use error::GridError;
pub use universe::Universe;
