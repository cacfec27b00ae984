//! The force-contributor capability and the constant-push contributor.
//!
//! A force contributor mutates the accelerations of a body array. Any
//! contributor keeps every body's identity (mass, radius, static flag)
//! and never moves a static body; the gravity system and the constant
//! linear push both implement it.

use crate::body::{body_valid, core_unchanged, static_frozen, with_force, Body};
use crate::gravity::GravitySystem;
use crate::vec2::Vec2;
use vstd::prelude::*;

verus! {

/// A force contributor: applied to the body array before integration, it
/// accumulates accelerations. Implementations keep every body's identity
/// and leave static bodies' position and velocity untouched.
pub trait Force {
    /// Apply this contributor to the whole body array.
    fn apply(&self, bodies: &mut Vec<Body>)
        requires
            forall|i: int| 0 <= i < old(bodies)@.len() ==> body_valid(#[trigger] old(bodies)@[i]),
        ensures
            final(bodies)@.len() == old(bodies)@.len(),
            forall|i: int|
                0 <= i < old(bodies)@.len() ==> core_unchanged(
                    #[trigger] old(bodies)@[i],
                    final(bodies)@[i],
                ) && static_frozen(old(bodies)@[i], final(bodies)@[i]),
    ;
}

impl Force for GravitySystem {
    fn apply(&self, bodies: &mut Vec<Body>) {
        GravitySystem::apply(self, bodies);
        proof {
            crate::gravity::lemma_gravity_applied_frame(*self, old(bodies)@);
        }
    }
}

/// A non-static body with `force` accumulated onto its acceleration; a
/// static body unchanged.
pub open spec fn pushed(force: Vec2, b: Body) -> Body {
    if b.static_body {
        b
    } else {
        with_force(b, force)
    }
}

/// A constant external force applied to every non-static body, composable
/// with gravity.
#[derive(Clone, Copy, Debug, PartialEq, Eq, Structural)]
pub struct LinearPushForce {
    /// The constant force vector.
    pub force: Vec2,
}

impl LinearPushForce {
    /// A contributor pushing every non-static body with `force`.
    pub fn new(force: Vec2) -> (r: Self)
        ensures
            r == (LinearPushForce { force }),
    {
        LinearPushForce { force }
    }
}

impl Force for LinearPushForce {
    fn apply(&self, bodies: &mut Vec<Body>)
        ensures
            forall|i: int|
                0 <= i < old(bodies)@.len() ==> final(bodies)@[i] == pushed(
                    self.force,
                    #[trigger] old(bodies)@[i],
                ),
    {
        let ghost orig: Seq<Body> = bodies@;
        let n = bodies.len();
        let mut i: usize = 0;
        while i < n
            invariant
                i <= n,
                bodies@.len() == n,
                orig.len() == n,
                forall|m: int| 0 <= m < n ==> body_valid(#[trigger] orig[m]),
                forall|m: int| 0 <= m < i ==> bodies@[m] == pushed(self.force, #[trigger] orig[m]),
                forall|m: int| i <= m < n ==> bodies@[m] == orig[m],
            decreases n - i,
        {
            proof {
                assert(bodies@[i as int] == orig[i as int]);
                assert(body_valid(orig[i as int]));
            }
            if !bodies[i].static_body {
                let mut b = bodies[i];
                b.apply_force(self.force);
                bodies.set(i, b);
            }
            i = i + 1;
        }
    }
}

} // verus!
