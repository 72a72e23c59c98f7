//! A particle-life simulation engine.
//!
//! Particles of several species move under pairwise forces whose sign and
//! strength depend on the pair's species. The library holds the parts of the
//! engine that decide structure: the species relation matrix and its
//! preserving resize, the round-robin seeding of particles, the restart
//! protocol, and the snapshot discipline of a tick. The numeric types of
//! positions, velocities and coefficients are parameters: the library moves
//! such values and never computes with them.
use vstd::prelude::*;

pub mod relation;
pub mod atom;
pub mod simulation;
