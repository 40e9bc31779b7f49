//! A small Newtonian gravity engine over fixed-point coordinates.
//!
//! Positions, velocities, the timestep and the gravitational constant are
//! scaled integers (`math::SCALE` units per distance/time unit); masses use
//! the finer `math::MASS_SCALE`.  Every quantity the engine computes is
//! pinned down exactly, over integer arithmetic, by the spec functions in
//! `forces` and `sim`.

pub mod body;
pub mod forces;
pub mod laws;
pub mod loader;
pub mod math;
pub mod sim;
