//! The configuration record of a simulation run.
//!
//! Gravitational constant, softening, distance floor, collision switch and
//! integration scheme are explicit values threaded through setup, so that
//! several simulations with different physical parameters can coexist.

use crate::constants::DIST_FLOOR;
use vstd::prelude::*;

verus! {

/// The time-integration scheme of a run.
#[derive(Clone, Copy, Debug, PartialEq, Eq, Structural)]
pub enum IntegratorScheme {
    /// First order; cheap, but total energy drifts over long runs.
    SymplecticEuler,
    /// Second order; two force passes per step, near-constant total energy.
    VelocityVerlet,
}

/// Physical parameters of a run. All scalars are fixed-point raw values.
#[derive(Clone, Copy, Debug, PartialEq, Eq, Structural)]
pub struct SimConfig {
    /// Gravitational constant `G`.
    pub gravity_constant: i64,
    /// Softening length added in quadrature to pairwise distance.
    pub softening: i64,
    /// Lower floor on pairwise distance before any division.
    pub distance_floor: i64,
    /// Whether overlapping pairs get an elastic collision response.
    pub collision_enabled: bool,
    /// The time-integration scheme.
    pub scheme: IntegratorScheme,
}

impl SimConfig {
    /// A configuration with the given gravitational constant and
    /// softening, the default distance floor, collision response on and
    /// the Velocity-Verlet scheme.
    pub fn new(gravity_constant: i64, softening: i64) -> (r: Self)
        ensures
            r == (SimConfig {
                gravity_constant,
                softening,
                distance_floor: DIST_FLOOR,
                collision_enabled: true,
                scheme: IntegratorScheme::VelocityVerlet,
            }),
    {
        SimConfig {
            gravity_constant,
            softening,
            distance_floor: DIST_FLOOR,
            collision_enabled: true,
            scheme: IntegratorScheme::VelocityVerlet,
        }
    }
}

} // verus!
