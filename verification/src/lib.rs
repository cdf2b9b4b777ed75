//! A constraint-based tile layout generator.
//!
//! Grid nodes are each assigned one model instance (a tile plus a rotation)
//! such that every pair of adjacent nodes carries compatible sockets on the
//! shared face. The crate provides the grid addressing layer, the socket and
//! model rule compiler, and the collapse-and-propagate solver.

pub mod cartesian_grid;
pub mod coordinate_system;
pub mod coordinates;
pub mod direction;
pub mod generator;
pub mod grid;
pub mod model;
pub mod rng;
pub mod rules;
pub mod socket;

use vstd::prelude::*;

verus! {

/// Index of a node within a grid.
pub type NodeIndex = usize;

} // verus!
