//! A deformable lattice of point masses joined to their axis-aligned
//! neighbours by damped springs.
//!
//! The library keeps the lattice's structure: node indexing, the
//! four-connected neighbour graph, anchor flags, the wholesale replacement of
//! a step's snapshot and the drawable edge list. It is generic over the type
//! that stands for a 2-D point, so the numeric force model can live with the
//! caller while every structural rule is proved here.

pub mod topology;
pub mod grid;
pub mod schedule;

pub use grid::{Grid, GridError, GridModel, Vertex};
