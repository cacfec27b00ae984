//! The simulation driver: one step computes forces and integrates.
//!
//! A symplectic Euler step is one force pass followed by the Euler update
//! of every dynamic body. A Velocity-Verlet step is a force pass (giving
//! `a0`), the position update, a second force pass at the new positions
//! (giving `a1`), and the velocity update with the average of `a0` and
//! `a1`, which then stays stored as the next step's `a0`.

use crate::body::{
    body_valid, core_unchanged, euler_integrated, position_predicted, static_frozen,
    velocity_updated, Body,
};
use crate::config::{IntegratorScheme, SimConfig};
use crate::gravity::{gravity_applied, GravitySystem};
use crate::vec2::Vec2;
use vstd::prelude::*;

verus! {

/// The force system a configuration describes.
pub open spec fn system_of(config: SimConfig) -> GravitySystem {
    GravitySystem {
        gravity_constant: config.gravity_constant,
        softening: config.softening,
        distance_floor: config.distance_floor,
        collision_enabled: config.collision_enabled,
    }
}

/// Every body advanced by one Euler update.
pub open spec fn euler_all(s: Seq<Body>, dt: i64) -> Seq<Body> {
    s.map(|i: int, b: Body| euler_integrated(b, dt))
}

/// Every body's position advanced by the Verlet position update.
pub open spec fn predict_all(s: Seq<Body>, dt: i64) -> Seq<Body> {
    s.map(|i: int, b: Body| position_predicted(b, dt))
}

/// The accelerations of the bodies, in order.
pub open spec fn accels_of(s: Seq<Body>) -> Seq<Vec2> {
    s.map(|i: int, b: Body| b.acceleration)
}

/// Every body's velocity advanced by the Verlet velocity update, with
/// `a0` the accelerations at the old positions.
pub open spec fn velocity_update_all(s: Seq<Body>, dt: i64, a0: Seq<Vec2>) -> Seq<Body> {
    Seq::new(s.len(), |i: int| velocity_updated(s[i], dt, a0[i]))
}

/// One full step of the simulation under `config`.
pub open spec fn step_spec(config: SimConfig, s: Seq<Body>, dt: i64) -> Seq<Body> {
    let sys = system_of(config);
    match config.scheme {
        IntegratorScheme::SymplecticEuler => euler_all(gravity_applied(sys, s), dt),
        IntegratorScheme::VelocityVerlet => {
            let s1 = gravity_applied(sys, s);
            let s2 = predict_all(s1, dt);
            let s3 = gravity_applied(sys, s2);
            velocity_update_all(s3, dt, accels_of(s1))
        },
    }
}

/// `n` full steps of the simulation under `config`.
pub open spec fn steps_spec(config: SimConfig, s: Seq<Body>, dt: i64, n: nat) -> Seq<Body>
    decreases n,
{
    if n == 0 {
        s
    } else {
        steps_spec(config, step_spec(config, s, dt), dt, (n - 1) as nat)
    }
}

/// One step: compute forces, then integrate, as `config.scheme` says.
/// Velocity-Verlet performs a second force pass at the predicted
/// positions.
pub fn step(bodies: &mut Vec<Body>, dt: i64, config: &SimConfig)
    requires
        forall|i: int| 0 <= i < old(bodies)@.len() ==> body_valid(#[trigger] old(bodies)@[i]),
    ensures
        final(bodies)@ == step_spec(*config, old(bodies)@, dt),
        final(bodies)@.len() == old(bodies)@.len(),
{
    let ghost orig: Seq<Body> = bodies@;
    let sys = GravitySystem::from_config(config);
    let n = bodies.len();
    match config.scheme {
        IntegratorScheme::SymplecticEuler => {
            sys.apply(bodies);
            let ghost s1 = bodies@;
            let mut i: usize = 0;
            while i < n
                invariant
                    i <= n,
                    bodies@.len() == n,
                    s1.len() == n,
                    forall|m: int| 0 <= m < i ==> bodies@[m] == euler_integrated(#[trigger] s1[m], dt),
                    forall|m: int| i <= m < n ==> bodies@[m] == s1[m],
                decreases n - i,
            {
                let mut b = bodies[i];
                b.integrate(dt);
                bodies.set(i, b);
                i = i + 1;
            }
            proof {
                assert(bodies@ =~= euler_all(s1, dt));
            }
        },
        IntegratorScheme::VelocityVerlet => {
            sys.apply(bodies);
            let ghost s1 = bodies@;
            proof {
                crate::gravity::lemma_gravity_applied_frame(sys, orig);
            }
            let mut a0s: Vec<Vec2> = Vec::new();
            let mut i: usize = 0;
            while i < n
                invariant
                    i <= n,
                    bodies@ == s1,
                    s1.len() == n,
                    a0s@.len() == i,
                    forall|m: int| 0 <= m < i ==> a0s@[m] == #[trigger] s1[m].acceleration,
                decreases n - i,
            {
                a0s.push(bodies[i].acceleration);
                i = i + 1;
            }
            proof {
                assert(a0s@ =~= accels_of(s1));
            }
            let mut i: usize = 0;
            while i < n
                invariant
                    i <= n,
                    bodies@.len() == n,
                    s1.len() == n,
                    forall|m: int|
                        0 <= m < i ==> bodies@[m] == position_predicted(#[trigger] s1[m], dt),
                    forall|m: int| i <= m < n ==> bodies@[m] == s1[m],
                decreases n - i,
            {
                let mut b = bodies[i];
                b.predict_position(dt);
                bodies.set(i, b);
                i = i + 1;
            }
            proof {
                assert(bodies@ =~= predict_all(s1, dt));
                assert forall|m: int| 0 <= m < n implies body_valid(#[trigger] bodies@[m]) by {
                    assert(core_unchanged(orig[m], s1[m]));
                    assert(bodies@[m] == position_predicted(s1[m], dt));
                }
            }
            let ghost s2 = bodies@;
            sys.apply(bodies);
            let ghost s3 = bodies@;
            let mut i: usize = 0;
            while i < n
                invariant
                    i <= n,
                    bodies@.len() == n,
                    s3.len() == n,
                    a0s@.len() == n,
                    a0s@ == accels_of(s1),
                    forall|m: int|
                        0 <= m < i ==> bodies@[m] == velocity_updated(
                            #[trigger] s3[m],
                            dt,
                            a0s@[m],
                        ),
                    forall|m: int| i <= m < n ==> bodies@[m] == s3[m],
                decreases n - i,
            {
                let mut b = bodies[i];
                b.update_velocity_verlet(dt, a0s[i]);
                bodies.set(i, b);
                i = i + 1;
            }
            proof {
                assert(bodies@ =~= velocity_update_all(s3, dt, accels_of(s1)));
            }
        },
    }
}

/// One step keeps every body's identity and never moves a static body.
pub proof fn lemma_step_frame(config: SimConfig, s: Seq<Body>, dt: i64)
    ensures
        step_spec(config, s, dt).len() == s.len(),
        forall|i: int|
            0 <= i < s.len() ==> core_unchanged(s[i], #[trigger] step_spec(config, s, dt)[i])
                && static_frozen(s[i], step_spec(config, s, dt)[i]),
{
    let sys = system_of(config);
    match config.scheme {
        IntegratorScheme::SymplecticEuler => {
            let s1 = gravity_applied(sys, s);
            crate::gravity::lemma_gravity_applied_frame(sys, s);
            assert forall|i: int| 0 <= i < s.len() implies core_unchanged(
                s[i],
                #[trigger] step_spec(config, s, dt)[i],
            ) && static_frozen(s[i], step_spec(config, s, dt)[i]) by {
                assert(step_spec(config, s, dt)[i] == euler_integrated(s1[i], dt));
            }
        },
        IntegratorScheme::VelocityVerlet => {
            let s1 = gravity_applied(sys, s);
            let s2 = predict_all(s1, dt);
            let s3 = gravity_applied(sys, s2);
            crate::gravity::lemma_gravity_applied_frame(sys, s);
            crate::gravity::lemma_gravity_applied_frame(sys, s2);
            assert forall|i: int| 0 <= i < s.len() implies core_unchanged(
                s[i],
                #[trigger] step_spec(config, s, dt)[i],
            ) && static_frozen(s[i], step_spec(config, s, dt)[i]) by {
                assert(s2[i] == position_predicted(s1[i], dt));
                assert(core_unchanged(s2[i], s3[i]) && static_frozen(s2[i], s3[i]));
                assert(step_spec(config, s, dt)[i] == velocity_updated(s3[i], dt, accels_of(s1)[i]));
            }
        },
    }
}

/// Static body invariance: a body with the static flag set never changes
/// position or velocity across any number of steps, whatever forces act,
/// while it still exerts force on the dynamic bodies.
pub proof fn lemma_static_body_invariance(config: SimConfig, s: Seq<Body>, dt: i64, n: nat)
    ensures
        steps_spec(config, s, dt, n).len() == s.len(),
        forall|i: int|
            0 <= i < s.len() ==> core_unchanged(s[i], #[trigger] steps_spec(config, s, dt, n)[i])
                && static_frozen(s[i], steps_spec(config, s, dt, n)[i]),
    decreases n,
{
    if n == 0 {
    } else {
        let s1 = step_spec(config, s, dt);
        lemma_step_frame(config, s, dt);
        lemma_static_body_invariance(config, s1, dt, (n - 1) as nat);
        assert forall|i: int| 0 <= i < s.len() implies core_unchanged(
            s[i],
            #[trigger] steps_spec(config, s, dt, n)[i],
        ) && static_frozen(s[i], steps_spec(config, s, dt, n)[i]) by {
            assert(core_unchanged(s[i], s1[i]) && static_frozen(s[i], s1[i]));
            assert(core_unchanged(s1[i], steps_spec(config, s1, dt, (n - 1) as nat)[i])
                && static_frozen(s1[i], steps_spec(config, s1, dt, (n - 1) as nat)[i]));
        }
    }
}

} // verus!
