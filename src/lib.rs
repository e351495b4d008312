//! Discrete exterior calculus on a rectangular two-dimensional grid, and a
//! bounded cell grid for particle neighbour search.
pub mod algebra;
pub mod forms;
pub mod grid;
pub mod laws;
pub mod manifold;
pub mod model;
pub mod scalar;
pub mod spatial;
