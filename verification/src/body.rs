//! The simulated entity: a point mass with position, velocity,
//! acceleration, a collision radius and a static flag.
//!
//! A static body is excluded from position and velocity updates but still
//! exerts force on others. Mass is strictly positive: converting a force
//! to an acceleration divides by it.

use crate::fixed::{fx_div, fx_mul, sp_div, sp_mul, FX_HALF, SCALE};
use crate::vec2::{v_add, v_scale, Vec2};
use vstd::prelude::*;

verus! {

/// A point mass. Fields are public plain values; the engine's contracts
/// require `valid` (positive mass, nonnegative radius) where they divide
/// by mass.
#[derive(Clone, Copy, Debug, PartialEq, Eq, Structural)]
pub struct Body {
    pub mass: i64,
    pub position: Vec2,
    pub velocity: Vec2,
    pub acceleration: Vec2,
    pub radius: i64,
    pub static_body: bool,
}

/// A well-formed body: strictly positive mass, nonnegative radius.
pub open spec fn body_valid(b: Body) -> bool {
    b.mass > 0 && b.radius >= 0
}

/// `after` keeps the identity of `before`: mass, radius and static flag.
pub open spec fn core_unchanged(before: Body, after: Body) -> bool {
    after.mass == before.mass && after.radius == before.radius && after.static_body
        == before.static_body
}

/// If `before` is static, `after` keeps its position and velocity.
pub open spec fn static_frozen(before: Body, after: Body) -> bool {
    before.static_body ==> after.position == before.position && after.velocity
        == before.velocity
}

/// `b` with `force` accumulated onto its acceleration: the force times
/// the reciprocal of the mass, as the force pass applies it.
pub open spec fn with_force(b: Body, force: Vec2) -> Body {
    Body { acceleration: v_add(b.acceleration, v_scale(force, sp_div(SCALE, b.mass))), ..b }
}

/// One symplectic-Euler step of `b`: velocity first, then position from
/// the new velocity, then the acceleration reset to zero. A static body
/// is unchanged.
pub open spec fn euler_integrated(b: Body, dt: i64) -> Body {
    if b.static_body {
        b
    } else {
        let vel = v_add(b.velocity, v_scale(b.acceleration, dt));
        Body {
            velocity: vel,
            position: v_add(b.position, v_scale(vel, dt)),
            acceleration: Vec2 { x: 0, y: 0 },
            ..b
        }
    }
}

/// The Velocity-Verlet position update of `b`: position advanced by
/// `velocity*dt + 0.5*acceleration*dt^2`, everything else unchanged.
/// A static body is unchanged.
pub open spec fn position_predicted(b: Body, dt: i64) -> Body {
    if b.static_body {
        b
    } else {
        let half_dt2 = sp_mul(sp_mul(FX_HALF, dt), dt);
        Body {
            position: v_add(
                v_add(b.position, v_scale(b.velocity, dt)),
                v_scale(b.acceleration, half_dt2),
            ),
            ..b
        }
    }
}

/// The Velocity-Verlet velocity update of `b`: velocity advanced by
/// `0.5*(a0 + a1)*dt`, where `a0` is the acceleration at the old position
/// and `a1` (stored in `b.acceleration`) the one recomputed at the new
/// position. A static body is unchanged.
pub open spec fn velocity_updated(b: Body, dt: i64, a0: Vec2) -> Body {
    if b.static_body {
        b
    } else {
        Body {
            velocity: v_add(
                b.velocity,
                v_scale(v_add(a0, b.acceleration), sp_mul(FX_HALF, dt)),
            ),
            ..b
        }
    }
}

impl Body {
    /// A dynamic body at rest at `position`, with zero acceleration.
    pub fn new(mass: i64, position: [i64; 2], radius: i64) -> (r: Self)
        requires
            mass > 0,
            radius >= 0,
        ensures
            r == (Body {
                mass,
                position: Vec2 { x: position[0], y: position[1] },
                velocity: Vec2 { x: 0i64, y: 0i64 },
                acceleration: Vec2 { x: 0i64, y: 0i64 },
                radius,
                static_body: false,
            }),
    {
        Body {
            mass,
            position: Vec2::new(position[0], position[1]),
            velocity: Vec2::zero(),
            acceleration: Vec2::zero(),
            radius,
            static_body: false,
        }
    }

    /// Accumulate `force` onto the acceleration, scaled by the reciprocal
    /// of the mass.
    pub fn apply_force(&mut self, force: Vec2)
        requires
            old(self).mass > 0,
        ensures
            *final(self) == with_force(*old(self), force),
    {
        let acc = force.mul_scalar(fx_div(SCALE, self.mass));
        self.acceleration = self.acceleration.add(acc);
    }

    /// One symplectic-Euler step; a static body is unchanged.
    pub fn integrate(&mut self, dt: i64)
        ensures
            *final(self) == euler_integrated(*old(self), dt),
    {
        if !self.static_body {
            self.velocity = self.velocity.add(self.acceleration.mul_scalar(dt));
            self.position = self.position.add(self.velocity.mul_scalar(dt));
            self.acceleration = Vec2::zero();
        }
    }

    /// The Velocity-Verlet position update; a static body is unchanged.
    pub fn predict_position(&mut self, dt: i64)
        ensures
            *final(self) == position_predicted(*old(self), dt),
    {
        if !self.static_body {
            let half_dt2 = fx_mul(fx_mul(FX_HALF, dt), dt);
            self.position = self
                .position
                .add(self.velocity.mul_scalar(dt))
                .add(self.acceleration.mul_scalar(half_dt2));
        }
    }

    /// The Velocity-Verlet velocity update, given the acceleration `a0`
    /// that held at the old position; a static body is unchanged.
    pub fn update_velocity_verlet(&mut self, dt: i64, a0: Vec2)
        ensures
            *final(self) == velocity_updated(*old(self), dt, a0),
    {
        if !self.static_body {
            let avg = a0.add(self.acceleration).mul_scalar(fx_mul(FX_HALF, dt));
            self.velocity = self.velocity.add(avg);
        }
    }
}

} // verus!
