//! Conway's Game of Life on a torus.
//!
//! A [`Universe`] holds one generation of cells, one bit to a cell, and
//! [`Universe::tick`] replaces it with the next. What every operation does is
//! stated over [`Grid`], the mathematical model of a generation, and proved
//! with Verus; the laws that follow are in [`laws`]. The bit buffer is the
//! `fixedbitset` crate's, which [`bits`] describes without proof.

pub mod bits;
pub mod cell;
pub mod grid;
pub mod laws;
pub mod universe;

pub use cell::{next_state, Cell};
pub use grid::Grid;
pub use universe::{Universe, UniverseError};
