//! Default physical constants, as fixed-point raw values
//! (see [`crate::fixed::SCALE`]).

use vstd::prelude::*;

verus! {

/// Default gravitational constant, 6.6743.
pub const GRAVITY_CONSTANT: i64 = 66_743_000;

/// Default softening length, 3.0.
pub const SOFTENING: i64 = 30_000_000;

/// Default time step, 0.0017361.
pub const DT: i64 = 17_361;

/// Default floor on pairwise distance in the force pass, 0.00001.
pub const DIST_FLOOR: i64 = 100;

/// Default floor on pairwise distance in the energy formulas, 0.01.
pub const ENERGY_DIST_FLOOR: i64 = 100_000;

} // verus!
