//! A 2D gravitational n-body engine on fixed-point arithmetic.
//!
//! Bodies are point masses with position, velocity, acceleration, a radius
//! and a static flag. The engine computes softened pairwise Newtonian
//! gravity with optional elastic collision response, advances the state
//! with a symplectic Euler or Velocity-Verlet step, and reports kinetic,
//! potential and total energy for drift diagnostics.
//!
//! All physical quantities are fixed-point numbers: an `i64` holding the
//! real value times [`fixed::SCALE`], with saturating, truncate-toward-zero
//! arithmetic. The `fixed` module states that arithmetic exactly, and every
//! function of the engine carries a contract over it.

pub mod body;
pub mod config;
pub mod constants;
pub mod draw;
pub mod energy;
pub mod fixed;
pub mod forces;
pub mod gravity;
pub mod sim;
pub mod solar;
pub mod vec2;

use vstd::prelude::*;

verus! {

} // verus!
