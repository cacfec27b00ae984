//! The pairwise force system: softened Newtonian gravity with optional
//! elastic collision response.
//!
//! One pass zeroes every acceleration and then visits each unordered pair
//! `(i, j)`, `i < j`, once: it resolves an overlap as an elastic collision
//! along the contact normal (when enabled), then accumulates the softened
//! gravitational attraction onto both accelerations with opposite signs.
//! Static bodies exert force but receive no update.

use crate::body::{body_valid, core_unchanged, static_frozen, with_force, Body};
use crate::config::SimConfig;
use crate::constants::DIST_FLOOR;
use crate::fixed::{
    fx_add, fx_div, fx_max, fx_mul, fx_neg, fx_sub, iabs, sp_add, sp_div, sp_max, sp_mul,
    sp_sub, tdiv, FX_TWO, SCALE,
};
use crate::vec2::{v_add, v_dot, v_len, v_neg, v_normalize, v_scale, v_sub, Vec2};
use vstd::prelude::*;

verus! {

/// The gravity-and-collision force system. All scalars are fixed-point
/// raw values.
#[derive(Clone, Copy, Debug, PartialEq, Eq, Structural)]
pub struct GravitySystem {
    /// Gravitational constant `G`.
    pub gravity_constant: i64,
    /// Softening length added in quadrature to pairwise distance.
    pub softening: i64,
    /// Lower floor on pairwise distance before any division.
    pub distance_floor: i64,
    /// Whether overlapping pairs get an elastic collision response.
    pub collision_enabled: bool,
}

/// The floored distance between the two bodies of a pair.
pub open spec fn pair_distance(sys: GravitySystem, a: Body, b: Body) -> i64 {
    sp_max(v_len(v_sub(b.position, a.position)), sys.distance_floor)
}

/// The softened gravitational force magnitude between masses `m1` and
/// `m2` at the given floored distance.
pub open spec fn force_magnitude(sys: GravitySystem, m1: i64, m2: i64, distance: i64) -> i64 {
    sp_div(
        sp_mul(sys.gravity_constant, sp_mul(m1, m2)),
        sp_add(sp_mul(distance, distance), sp_mul(sys.softening, sys.softening)),
    )
}

/// The gravitational force that the pair pass applies to `a`, exerted by
/// `b`: directed from `a` toward `b`, with the softened magnitude.
pub open spec fn pair_gravity_force(sys: GravitySystem, a: Body, b: Body) -> Vec2 {
    v_scale(
        v_normalize(v_sub(b.position, a.position)),
        force_magnitude(sys, a.mass, b.mass, pair_distance(sys, a, b)),
    )
}

/// The elastic collision response of a pair, applied when enabled and the
/// floored distance is below the sum of the radii: each velocity's normal
/// component follows the 1D elastic-collision formula, and the positions
/// are pushed apart along the normal by half the penetration each. A
/// static body is left untouched.
pub open spec fn collision_applied(sys: GravitySystem, a: Body, b: Body) -> (Body, Body) {
    let delta = v_sub(b.position, a.position);
    let distance = sp_max(v_len(delta), sys.distance_floor);
    let normal = v_normalize(delta);
    let min_dist = sp_add(a.radius, b.radius);
    if sys.collision_enabled && distance < min_dist {
        let v1n = v_dot(a.velocity, normal);
        let v2n = v_dot(b.velocity, normal);
        let m_diff = sp_sub(a.mass, b.mass);
        let m_sum = sp_add(a.mass, b.mass);
        let v1n_after = sp_div(sp_add(sp_mul(v1n, m_diff), sp_mul(sp_mul(FX_TWO, b.mass), v2n)), m_sum);
        let v2n_after = sp_div(sp_add(sp_mul(v2n, m_diff), sp_mul(sp_mul(FX_TWO, a.mass), v1n)), m_sum);
        let dv1 = v_scale(normal, sp_sub(v1n_after, v1n));
        let dv2 = v_scale(normal, sp_sub(v2n_after, v2n));
        let correction = v_scale(normal, sp_div(sp_sub(min_dist, distance), FX_TWO));
        let a1 = if a.static_body {
            a
        } else {
            Body { velocity: v_add(a.velocity, dv1), position: v_sub(a.position, correction), ..a }
        };
        let b1 = if b.static_body {
            b
        } else {
            Body { velocity: v_add(b.velocity, dv2), position: v_add(b.position, correction), ..b }
        };
        (a1, b1)
    } else {
        (a, b)
    }
}

/// One visit of the pair `(a, b)`: collision response, then gravity
/// accumulated onto both accelerations with opposite signs. The
/// gravitational geometry (distance and normal) is the one before the
/// collision response, as the pass computes it once.
pub open spec fn pair_interact(sys: GravitySystem, a: Body, b: Body) -> (Body, Body) {
    let force = pair_gravity_force(sys, a, b);
    let (a1, b1) = collision_applied(sys, a, b);
    let a2 = if a1.static_body {
        a1
    } else {
        with_force(a1, force)
    };
    let b2 = if b1.static_body {
        b1
    } else {
        with_force(b1, v_neg(force))
    };
    (a2, b2)
}

/// `s` with every acceleration reset to zero.
pub open spec fn zero_accels(s: Seq<Body>) -> Seq<Body> {
    s.map(|i: int, b: Body| Body { acceleration: Vec2 { x: 0i64, y: 0i64 }, ..b })
}

/// `s` after visiting the pair `(i, j)`.
pub open spec fn pair_applied(sys: GravitySystem, s: Seq<Body>, i: int, j: int) -> Seq<Body> {
    let r = pair_interact(sys, s[i], s[j]);
    s.update(i, r.0).update(j, r.1)
}

/// `s` after visiting the pairs `(i, j), (i, j+1), ..., (i, len-1)`.
pub open spec fn inner_pass(sys: GravitySystem, s: Seq<Body>, i: int, j: int) -> Seq<Body>
    decreases s.len() - j,
        via inner_pass_decreases
{
    if 0 <= i && i < s.len() && 0 <= j && j < s.len() {
        inner_pass(sys, pair_applied(sys, s, i, j), i, j + 1)
    } else {
        s
    }
}

#[via_fn]
proof fn inner_pass_decreases(sys: GravitySystem, s: Seq<Body>, i: int, j: int) {
    if 0 <= i && i < s.len() && 0 <= j && j < s.len() {
        assert(pair_applied(sys, s, i, j).len() == s.len());
    }
}

/// `s` after visiting all pairs `(i', j')` with `i <= i' < j' < len`.
pub open spec fn outer_pass(sys: GravitySystem, s: Seq<Body>, i: int) -> Seq<Body>
    decreases s.len() - i,
        via outer_pass_decreases
{
    if 0 <= i && i < s.len() {
        outer_pass(sys, inner_pass(sys, s, i, i + 1), i + 1)
    } else {
        s
    }
}

#[via_fn]
proof fn outer_pass_decreases(sys: GravitySystem, s: Seq<Body>, i: int) {
    if 0 <= i && i < s.len() {
        lemma_inner_pass_len(sys, s, i, i + 1);
    }
}

/// The full force pass: all accelerations zeroed, then every unordered
/// pair visited once.
pub open spec fn gravity_applied(sys: GravitySystem, s: Seq<Body>) -> Seq<Body> {
    outer_pass(sys, zero_accels(s), 0)
}

/// The inner pass preserves the length of the sequence.
pub proof fn lemma_inner_pass_len(sys: GravitySystem, s: Seq<Body>, i: int, j: int)
    ensures
        inner_pass(sys, s, i, j).len() == s.len(),
    decreases s.len() - j,
{
    if 0 <= i && i < s.len() && 0 <= j && j < s.len() {
        assert(pair_applied(sys, s, i, j).len() == s.len());
        lemma_inner_pass_len(sys, pair_applied(sys, s, i, j), i, j + 1);
    }
}

/// The outer pass preserves the length of the sequence.
pub proof fn lemma_outer_pass_len(sys: GravitySystem, s: Seq<Body>, i: int)
    ensures
        outer_pass(sys, s, i).len() == s.len(),
    decreases s.len() - i,
{
    if 0 <= i && i < s.len() {
        lemma_inner_pass_len(sys, s, i, i + 1);
        lemma_outer_pass_len(sys, inner_pass(sys, s, i, i + 1), i + 1);
    }
}

/// Newton's third law, exactly: for any two bodies and any positions and
/// masses, the gravitational force the pair pass applies to the first,
/// exerted by the second, is the exact componentwise negation of the force
/// it applies to the second, exerted by the first. Truncation toward zero
/// and the symmetric saturation range make this an equality of raw values,
/// not an approximation.
pub proof fn lemma_force_symmetry(sys: GravitySystem, a: Body, b: Body)
    ensures
        pair_gravity_force(sys, a, b) == v_neg(pair_gravity_force(sys, b, a)),
{
    let d1 = v_sub(b.position, a.position);
    let d2 = v_sub(a.position, b.position);
    crate::fixed::lemma_sat_neg(b.position.x - a.position.x);
    crate::fixed::lemma_sat_neg(b.position.y - a.position.y);
    assert(d2 == v_neg(d1));
    crate::vec2::lemma_v_neg_symmetry(d1);
    crate::fixed::lemma_sp_mul_comm(a.mass, b.mass);
    let mag = force_magnitude(sys, a.mass, b.mass, pair_distance(sys, a, b));
    assert(force_magnitude(sys, b.mass, a.mass, pair_distance(sys, b, a)) == mag);
    let n1 = v_normalize(d1);
    let n2 = v_normalize(d2);
    assert(n2 == v_neg(n1));
    crate::fixed::lemma_sp_mul_neg_left(n1.x, n2.x, mag);
    crate::fixed::lemma_sp_mul_neg_left(n1.y, n2.y, mag);
    crate::fixed::lemma_sat_neg(sp_mul(n1.x, mag) as int);
    crate::fixed::lemma_sat_neg(sp_mul(n1.y, mag) as int);
}

/// The softening floors the singularity: for positive masses and a
/// nonnegative gravitational constant the pair force magnitude is
/// nonnegative, never exceeds its value at distance zero, and at distance
/// zero it is exactly `G*m1*m2 / softening^2` — never infinite.
pub proof fn lemma_softening_floors_force(sys: GravitySystem, m1: i64, m2: i64, distance: i64)
    requires
        sys.gravity_constant >= 0,
        m1 > 0,
        m2 > 0,
    ensures
        0 <= force_magnitude(sys, m1, m2, distance),
        force_magnitude(sys, m1, m2, distance) <= force_magnitude(sys, m1, m2, 0),
        force_magnitude(sys, m1, m2, 0) == sp_div(
            sp_mul(sys.gravity_constant, sp_mul(m1, m2)),
            sp_mul(sys.softening, sys.softening),
        ),
{
    crate::fixed::lemma_sp_mul_nonneg(m1, m2);
    crate::fixed::lemma_sp_mul_nonneg(sys.gravity_constant, sp_mul(m1, m2));
    let num = sp_mul(sys.gravity_constant, sp_mul(m1, m2));
    crate::fixed::lemma_sp_mul_nonneg(distance, distance);
    crate::fixed::lemma_sp_mul_nonneg(sys.softening, sys.softening);
    let d2 = sp_mul(distance, distance);
    let s2 = sp_mul(sys.softening, sys.softening);
    crate::fixed::lemma_sat_id(s2 as int);
    crate::fixed::lemma_sat_mono(s2 as int, d2 + s2);
    let r2 = sp_add(d2, s2);
    assert(r2 >= s2);
    assert(sp_mul(0i64, 0i64) == 0) by {
        assert(tdiv(0, SCALE as int) == 0);
    }
    assert(sp_add(sp_mul(0i64, 0i64), s2) == s2);
    if num == 0 {
        if r2 != 0 {
            vstd::arithmetic::div_mod::lemma_div_pos_is_pos(0, iabs(r2 as int));
            assert(tdiv(0, r2 as int) == 0);
        }
        if s2 != 0 {
            assert(tdiv(0, s2 as int) == 0);
        }
        assert(force_magnitude(sys, m1, m2, distance) == 0);
    } else {
        if s2 == 0 {
            assert(sp_div(num, s2) == crate::fixed::FX_MAX);
        } else {
            crate::fixed::lemma_tdiv_antitone(num * SCALE, s2 as int, r2 as int);
            crate::fixed::lemma_sat_mono(tdiv(num * SCALE, r2 as int), tdiv(num * SCALE, s2 as int));
        }
        assert(iabs(num * SCALE) == num * SCALE) by (nonlinear_arith)
            requires
                num >= 0,
                SCALE > 0,
        ;
        if r2 != 0 {
            vstd::arithmetic::div_mod::lemma_div_pos_is_pos(iabs(num * SCALE), r2 as int);
        }
    }
}

/// One pair visit keeps each body's identity and leaves a static body's
/// position and velocity untouched.
pub proof fn lemma_pair_interact_frame(sys: GravitySystem, a: Body, b: Body)
    ensures
        core_unchanged(a, pair_interact(sys, a, b).0),
        core_unchanged(b, pair_interact(sys, a, b).1),
        static_frozen(a, pair_interact(sys, a, b).0),
        static_frozen(b, pair_interact(sys, a, b).1),
{
}

/// The inner pass keeps every body's identity and freezes static bodies.
pub proof fn lemma_inner_pass_frame(sys: GravitySystem, s: Seq<Body>, i: int, j: int)
    ensures
        forall|m: int|
            0 <= m < s.len() ==> core_unchanged(s[m], #[trigger] inner_pass(sys, s, i, j)[m])
                && static_frozen(s[m], inner_pass(sys, s, i, j)[m]),
    decreases s.len() - j,
{
    lemma_inner_pass_len(sys, s, i, j);
    if 0 <= i && i < s.len() && 0 <= j && j < s.len() {
        let s1 = pair_applied(sys, s, i, j);
        lemma_pair_interact_frame(sys, s[i], s[j]);
        lemma_inner_pass_frame(sys, s1, i, j + 1);
        assert(inner_pass(sys, s, i, j) == inner_pass(sys, s1, i, j + 1));
        assert forall|m: int| 0 <= m < s.len() implies core_unchanged(
            s[m],
            #[trigger] inner_pass(sys, s, i, j)[m],
        ) && static_frozen(s[m], inner_pass(sys, s, i, j)[m]) by {
            if m != i && m != j {
                assert(s1[m] == s[m]);
            }
            assert(core_unchanged(s[m], s1[m]) && static_frozen(s[m], s1[m]));
            assert(core_unchanged(s1[m], inner_pass(sys, s1, i, j + 1)[m]) && static_frozen(
                s1[m],
                inner_pass(sys, s1, i, j + 1)[m],
            ));
        }
    }
}

/// The outer pass keeps every body's identity and freezes static bodies.
pub proof fn lemma_outer_pass_frame(sys: GravitySystem, s: Seq<Body>, i: int)
    ensures
        forall|m: int|
            0 <= m < s.len() ==> core_unchanged(s[m], #[trigger] outer_pass(sys, s, i)[m])
                && static_frozen(s[m], outer_pass(sys, s, i)[m]),
    decreases s.len() - i,
{
    lemma_outer_pass_len(sys, s, i);
    if 0 <= i && i < s.len() {
        let s1 = inner_pass(sys, s, i, i + 1);
        lemma_inner_pass_len(sys, s, i, i + 1);
        lemma_inner_pass_frame(sys, s, i, i + 1);
        lemma_outer_pass_frame(sys, s1, i + 1);
        assert(outer_pass(sys, s, i) == outer_pass(sys, s1, i + 1));
        assert forall|m: int| 0 <= m < s.len() implies core_unchanged(
            s[m],
            #[trigger] outer_pass(sys, s, i)[m],
        ) && static_frozen(s[m], outer_pass(sys, s, i)[m]) by {
            assert(core_unchanged(s[m], s1[m]) && static_frozen(s[m], s1[m]));
            assert(core_unchanged(s1[m], outer_pass(sys, s1, i + 1)[m]) && static_frozen(
                s1[m],
                outer_pass(sys, s1, i + 1)[m],
            ));
        }
    }
}

/// The force pass keeps every body's identity and leaves a static body's
/// position and velocity untouched, while the static body still
/// contributed force to the others.
pub proof fn lemma_gravity_applied_frame(sys: GravitySystem, s: Seq<Body>)
    ensures
        gravity_applied(sys, s).len() == s.len(),
        forall|m: int|
            0 <= m < s.len() ==> core_unchanged(s[m], #[trigger] gravity_applied(sys, s)[m])
                && static_frozen(s[m], gravity_applied(sys, s)[m]),
{
    let z = zero_accels(s);
    lemma_outer_pass_len(sys, z, 0);
    lemma_outer_pass_frame(sys, z, 0);
    assert forall|m: int| 0 <= m < s.len() implies core_unchanged(
        s[m],
        #[trigger] gravity_applied(sys, s)[m],
    ) && static_frozen(s[m], gravity_applied(sys, s)[m]) by {
        assert(z[m] == Body { acceleration: Vec2 { x: 0i64, y: 0i64 }, ..s[m] });
        assert(core_unchanged(s[m], z[m]) && static_frozen(s[m], z[m]));
    }
}

/// Zero-pair stability: with zero or one bodies the force pass only
/// resets accelerations to zero; nothing else changes.
pub proof fn lemma_zero_pair_stability(sys: GravitySystem, s: Seq<Body>)
    requires
        s.len() <= 1,
    ensures
        gravity_applied(sys, s).len() == s.len(),
        forall|m: int|
            0 <= m < s.len() ==> #[trigger] gravity_applied(sys, s)[m] == (Body {
                acceleration: Vec2 { x: 0i64, y: 0i64 },
                ..s[m]
            }),
{
    let z = zero_accels(s);
    if s.len() == 1 {
        assert(inner_pass(sys, z, 0, 1) == z);
        assert(outer_pass(sys, z, 1) == z);
        assert(outer_pass(sys, z, 0) == z);
    }
}

impl GravitySystem {
    /// A force system with the given constant and softening, the default
    /// distance floor, and collision response enabled.
    pub fn new(gravity_constant: i64, softening: i64) -> (r: Self)
        ensures
            r == (GravitySystem {
                gravity_constant,
                softening,
                distance_floor: DIST_FLOOR,
                collision_enabled: true,
            }),
    {
        GravitySystem { gravity_constant, softening, distance_floor: DIST_FLOOR, collision_enabled: true }
    }

    /// The force system described by a configuration record.
    pub fn from_config(config: &SimConfig) -> (r: Self)
        ensures
            r == (GravitySystem {
                gravity_constant: config.gravity_constant,
                softening: config.softening,
                distance_floor: config.distance_floor,
                collision_enabled: config.collision_enabled,
            }),
    {
        GravitySystem {
            gravity_constant: config.gravity_constant,
            softening: config.softening,
            distance_floor: config.distance_floor,
            collision_enabled: config.collision_enabled,
        }
    }

    /// Visit one pair: collision response, then opposite gravitational
    /// force accumulation.
    fn interact_pair(&self, a: Body, b: Body) -> (r: (Body, Body))
        requires
            a.mass > 0,
            b.mass > 0,
        ensures
            r == pair_interact(*self, a, b),
            r.0.mass == a.mass && r.0.radius == a.radius && r.0.static_body == a.static_body,
            r.1.mass == b.mass && r.1.radius == b.radius && r.1.static_body == b.static_body,
    {
        let delta = b.position.sub(a.position);
        let distance = fx_max(delta.vec_length(), self.distance_floor);
        let normal = delta.normalize();
        let min_dist = fx_add(a.radius, b.radius);
        let mut a1 = a;
        let mut b1 = b;
        if self.collision_enabled && distance < min_dist {
            let v1n = a.velocity.dot(normal);
            let v2n = b.velocity.dot(normal);
            let m_diff = fx_sub(a.mass, b.mass);
            let m_sum = fx_add(a.mass, b.mass);
            let v1n_after = fx_div(
                fx_add(fx_mul(v1n, m_diff), fx_mul(fx_mul(FX_TWO, b.mass), v2n)),
                m_sum,
            );
            let v2n_after = fx_div(
                fx_add(fx_mul(v2n, m_diff), fx_mul(fx_mul(FX_TWO, a.mass), v1n)),
                m_sum,
            );
            let dv1 = normal.mul_scalar(fx_sub(v1n_after, v1n));
            let dv2 = normal.mul_scalar(fx_sub(v2n_after, v2n));
            let correction = normal.mul_scalar(fx_div(fx_sub(min_dist, distance), FX_TWO));
            if !a1.static_body {
                a1.velocity = a1.velocity.add(dv1);
                a1.position = a1.position.sub(correction);
            }
            if !b1.static_body {
                b1.velocity = b1.velocity.add(dv2);
                b1.position = b1.position.add(correction);
            }
        }
        let r2 = fx_add(fx_mul(distance, distance), fx_mul(self.softening, self.softening));
        let mag = fx_div(fx_mul(self.gravity_constant, fx_mul(a.mass, b.mass)), r2);
        let force = normal.mul_scalar(mag);
        if !a1.static_body {
            a1.apply_force(force);
        }
        if !b1.static_body {
            proof {
                crate::vec2::lemma_v_scale_minus_one(force);
            }
            b1.apply_force(force.mul_scalar(fx_neg(SCALE)));
        }
        (a1, b1)
    }

    /// The force pass: zero every acceleration, then visit each unordered
    /// pair once. With zero or one body it only zeroes the accelerations.
    pub fn apply(&self, bodies: &mut Vec<Body>)
        requires
            forall|k: int| 0 <= k < old(bodies)@.len() ==> body_valid(#[trigger] old(bodies)@[k]),
        ensures
            final(bodies)@ == gravity_applied(*self, old(bodies)@),
            final(bodies)@.len() == old(bodies)@.len(),
            old(bodies)@.len() <= 1 ==> final(bodies)@ == zero_accels(old(bodies)@),
    {
        let ghost orig: Seq<Body> = bodies@;
        let n = bodies.len();
        let mut k: usize = 0;
        while k < n
            invariant
                k <= n,
                bodies@.len() == n,
                orig.len() == n,
                forall|m: int| 0 <= m < n ==> body_valid(#[trigger] orig[m]),
                forall|m: int|
                    0 <= m < k ==> bodies@[m] == (Body {
                        acceleration: Vec2 { x: 0i64, y: 0i64 },
                        ..orig[m]
                    }),
                forall|m: int| k <= m < n ==> bodies@[m] == orig[m],
            decreases n - k,
        {
            let mut b = bodies[k];
            b.acceleration = Vec2::zero();
            bodies.set(k, b);
            k = k + 1;
        }
        assert(bodies@ =~= zero_accels(orig));
        let ghost zeroed: Seq<Body> = bodies@;

        let mut i: usize = 0;
        while i < n
            invariant
                i <= n,
                bodies@.len() == n,
                forall|m: int| 0 <= m < n ==> body_valid(#[trigger] bodies@[m]),
                outer_pass(*self, bodies@, i as int) == outer_pass(*self, zeroed, 0),
            decreases n - i,
        {
            let mut j: usize = i + 1;
            while j < n
                invariant
                    i < j <= n,
                    i < n,
                    bodies@.len() == n,
                    forall|m: int| 0 <= m < n ==> body_valid(#[trigger] bodies@[m]),
                    outer_pass(*self, inner_pass(*self, bodies@, i as int, j as int), i as int + 1)
                        == outer_pass(*self, zeroed, 0),
                decreases n - j,
            {
                let a = bodies[i];
                let b = bodies[j];
                let r = self.interact_pair(a, b);
                let ghost before: Seq<Body> = bodies@;
                bodies.set(i, r.0);
                bodies.set(j, r.1);
                proof {
                    assert(bodies@ =~= pair_applied(*self, before, i as int, j as int));
                }
                j = j + 1;
            }
            i = i + 1;
        }
        proof {
            assert(outer_pass(*self, bodies@, n as int) == bodies@);
            if n == 1 {
                assert(inner_pass(*self, zeroed, 0, 1) == zeroed);
                assert(outer_pass(*self, zeroed, 1) == zeroed);
                assert(outer_pass(*self, zeroed, 0) == zeroed);
            }
        }
    }
}

} // verus!
