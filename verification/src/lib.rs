//! A toroidal Conway's Game of Life engine.
//!
//! The engine owns a `width * height` buffer of cells in row-major order and
//! offers operations to query, mutate, and advance it one generation at a
//! time. Grid edges wrap around (toroidal topology), so every cell has exactly
//! eight neighbors. Hosts supply the initial population and drive the
//! simulation; the engine itself is deterministic and does no I/O.

pub mod cell;
pub mod grid;
pub mod laws;
pub mod patterns;
pub mod render;
