//! A real-time tactical simulation: cops hunt zombies that infect humans
//! inside a world of polygonal buildings.
//!
//! All world coordinates and times are fixed-point numbers: an `i64` counts
//! units of `1 / SCALE` of a world unit (or of a second). Every arithmetic
//! step is stated exactly in the contracts, so the whole per-tick simulation
//! is verified down to the integer operations.

use vstd::prelude::*;

pub mod audio;
pub mod control;
pub mod fixed;
pub mod geom;
pub mod gui;
pub mod rng;
pub mod sim;
pub mod state;
pub mod vec2;

verus! {

} // verus!
