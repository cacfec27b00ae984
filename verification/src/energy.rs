//! Energy diagnostics: kinetic, potential and total energy of the system
//! and of each body.
//!
//! The total potential sums each unordered pair once; the per-body
//! breakdown instead gives every body half of each pairwise term it
//! participates in, so that summing breakdowns recovers the system total
//! (up to the truncation of the halves — see
//! [`lemma_potential_equivalence`]). Sums are accumulated exactly in an
//! `i128` and saturated once at the end.

use crate::body::Body;
use crate::constants::ENERGY_DIST_FLOOR;
use crate::fixed::{
    fx_add, iabs, sat64, sp_add, sp_div, sp_max, sp_mul, sp_neg, tdiv, FX_HALF, FX_MAX,
};
use crate::vec2::{v_len, v_sub};
use vstd::prelude::*;

verus! {

/// Kinetic, potential and total energy of one body.
#[derive(Clone, Copy, Debug, PartialEq, Eq, Structural)]
pub struct EnergyBreakdown {
    pub kinetic: i64,
    pub potential: i64,
    pub total: i64,
}

/// The energy tracker: a gravitational constant (which must match the
/// force system's for meaningful drift figures) and a distance floor for
/// the potential formula.
#[derive(Clone, Copy, Debug, PartialEq, Eq, Structural)]
pub struct EnergyTracker {
    /// Gravitational constant `G`.
    pub gravity_constant: i64,
    /// Lower floor on pairwise distance in the potential formula.
    pub distance_floor: i64,
}

/// The squared speed of a body.
pub open spec fn speed2(b: Body) -> i64 {
    sp_add(sp_mul(b.velocity.x, b.velocity.x), sp_mul(b.velocity.y, b.velocity.y))
}

/// The kinetic energy of one body: `0.5 * mass * |velocity|^2`.
pub open spec fn kinetic_term(b: Body) -> i64 {
    sp_mul(sp_mul(FX_HALF, b.mass), speed2(b))
}

/// The pairwise potential term `-G * m_a * m_b / max(distance, floor)`.
pub open spec fn pot_term(g: i64, floor: i64, a: Body, b: Body) -> i64 {
    sp_neg(
        sp_div(
            sp_mul(g, sp_mul(a.mass, b.mass)),
            sp_max(v_len(v_sub(b.position, a.position)), floor),
        ),
    )
}

/// Exact sum of the kinetic terms of `s`.
pub open spec fn sum_kinetic(s: Seq<Body>) -> int
    decreases s.len(),
{
    if s.len() == 0 {
        0
    } else {
        sum_kinetic(s.drop_last()) + kinetic_term(s.last())
    }
}

/// Exact sum of the potential terms of body `i` against bodies `j..`.
pub open spec fn pot_row(g: i64, floor: i64, s: Seq<Body>, i: int, j: int) -> int
    decreases s.len() - j,
{
    if 0 <= j && j < s.len() {
        pot_term(g, floor, s[i], s[j]) + pot_row(g, floor, s, i, j + 1)
    } else {
        0
    }
}

/// Exact sum of the potential terms of all unordered pairs `(i', j')`
/// with `i <= i' < j' < len`, each counted once.
pub open spec fn pot_pairs_from(g: i64, floor: i64, s: Seq<Body>, i: int) -> int
    decreases s.len() - i,
{
    if 0 <= i && i < s.len() {
        pot_row(g, floor, s, i, i + 1) + pot_pairs_from(g, floor, s, i + 1)
    } else {
        0
    }
}

/// Exact total potential of the system: every unordered pair once.
pub open spec fn total_potential_spec(g: i64, floor: i64, s: Seq<Body>) -> int {
    pot_pairs_from(g, floor, s, 0)
}

/// Exact sum of the potential terms of body `i` against every other body
/// (indices `j..`, skipping `i` itself).
pub open spec fn pot_all_but(g: i64, floor: i64, s: Seq<Body>, i: int, j: int) -> int
    decreases s.len() - j,
{
    if 0 <= j && j < s.len() {
        (if j != i {
            pot_term(g, floor, s[i], s[j])
        } else {
            0
        }) + pot_all_but(g, floor, s, i, j + 1)
    } else {
        0
    }
}

/// The per-body potential: half the sum of the pairwise terms body `i`
/// participates in, truncated toward zero and saturated.
pub open spec fn per_potential(g: i64, floor: i64, s: Seq<Body>, i: int) -> i64 {
    sat64(tdiv(pot_all_but(g, floor, s, i, 0), 2))
}

/// The energy breakdown of body `i`.
pub open spec fn breakdown_of(g: i64, floor: i64, s: Seq<Body>, i: int) -> EnergyBreakdown {
    EnergyBreakdown {
        kinetic: kinetic_term(s[i]),
        potential: per_potential(g, floor, s, i),
        total: sp_add(kinetic_term(s[i]), per_potential(g, floor, s, i)),
    }
}

impl EnergyTracker {
    /// A tracker with the given gravitational constant and the default
    /// distance floor of the potential formula.
    pub fn new(gravity_constant: i64) -> (r: Self)
        ensures
            r == (EnergyTracker { gravity_constant, distance_floor: ENERGY_DIST_FLOOR }),
    {
        EnergyTracker { gravity_constant, distance_floor: ENERGY_DIST_FLOOR }
    }

    /// Total kinetic energy of the system: the exact sum of the per-body
    /// kinetic terms, saturated once.
    pub fn total_kinetic(&self, bodies: &Vec<Body>) -> (r: i64)
        ensures
            r == sat64(sum_kinetic(bodies@)),
            bodies@.len() == 0 ==> r == 0,
    {
        let n = bodies.len();
        let mut acc: i128 = 0;
        let mut i: usize = 0;
        while i < n
            invariant
                i <= n,
                bodies@.len() == n,
                acc == sum_kinetic(bodies@.take(i as int)),
                -0x8000_0000_0000_0000_i128 * (i as i128) <= acc <= 0x8000_0000_0000_0000_i128
                    * (i as i128),
            decreases n - i,
        {
            let b = bodies[i];
            let k = crate::fixed::fx_mul(crate::fixed::fx_mul(FX_HALF, b.mass), speed2_exec(&b));
            proof {
                assert(bodies@.take(i as int + 1).drop_last() =~= bodies@.take(i as int));
                assert(bodies@.take(i as int + 1).last() == bodies@[i as int]);
            }
            acc = acc + k as i128;
            i = i + 1;
        }
        proof {
            assert(bodies@.take(n as int) =~= bodies@);
        }
        crate::fixed::fx_sat(acc)
    }

    /// Total potential energy of the system: the exact sum over unordered
    /// pairs, each counted once, saturated at the end. Zero with fewer
    /// than two bodies.
    pub fn total_potential(&self, bodies: &Vec<Body>) -> (r: i64)
        requires
            bodies@.len() < 0x1_0000_0000,
        ensures
            r == sat64(total_potential_spec(self.gravity_constant, self.distance_floor, bodies@)),
            bodies@.len() <= 1 ==> r == 0,
    {
        let g = self.gravity_constant;
        let floor = self.distance_floor;
        let n = bodies.len();
        let ghost s = bodies@;
        let mut acc: i128 = 0;
        let mut i: usize = 0;
        proof {
            lemma_mul128_zero(n as i128);
        }
        while i < n
            invariant
                i <= n,
                n < 0x1_0000_0000,
                bodies@ == s,
                s.len() == n,
                g == self.gravity_constant,
                floor == self.distance_floor,
                acc + pot_pairs_from(g, floor, s, i as int) == total_potential_spec(g, floor, s),
                -0x8000_0000_0000_0000_i128 * (i as i128) * (n as i128) <= acc
                    <= 0x8000_0000_0000_0000_i128 * (i as i128) * (n as i128),
            decreases n - i,
        {
            let mut j: usize = i + 1;
            let ghost acc0: i128 = acc;
            while j < n
                invariant
                    i < j <= n,
                    i < n,
                    n < 0x1_0000_0000,
                    bodies@ == s,
                    s.len() == n,
                    g == self.gravity_constant,
                    floor == self.distance_floor,
                    acc == acc0 + pot_row(g, floor, s, i as int, i as int + 1) - pot_row(
                        g,
                        floor,
                        s,
                        i as int,
                        j as int,
                    ),
                    -0x8000_0000_0000_0000_i128 * (i as i128) * (n as i128) <= acc0
                        <= 0x8000_0000_0000_0000_i128 * (i as i128) * (n as i128),
                    acc0 - 0x8000_0000_0000_0000_i128 * ((j - i - 1) as i128) <= acc <= acc0
                        + 0x8000_0000_0000_0000_i128 * ((j - i - 1) as i128),
                decreases n - j,
            {
                let t = pot_term_exec(g, floor, &bodies[i], &bodies[j]);
                proof {
                    lemma_acc_bound_step(acc, acc0, t as i128, i as int, j as int, n as int);
                }
                acc = acc + t as i128;
                j = j + 1;
            }
            proof {
                assert(pot_row(g, floor, s, i as int, n as int) == 0);
                lemma_row_total_bound(acc, acc0, i as int, n as int);
            }
            i = i + 1;
        }
        proof {
            assert(pot_pairs_from(g, floor, s, n as int) == 0);
            if n <= 1 {
                assert(total_potential_spec(g, floor, s) == 0);
            }
        }
        crate::fixed::fx_sat(acc)
    }

    /// Total energy: total kinetic plus total potential.
    pub fn total_energy(&self, bodies: &Vec<Body>) -> (r: i64)
        requires
            bodies@.len() < 0x1_0000_0000,
        ensures
            r == sp_add(
                sat64(sum_kinetic(bodies@)),
                sat64(total_potential_spec(self.gravity_constant, self.distance_floor, bodies@)),
            ),
    {
        fx_add(self.total_kinetic(bodies), self.total_potential(bodies))
    }

    /// The energy breakdown of every body: its kinetic term, half the sum
    /// of the pairwise potential terms it participates in, and their sum.
    pub fn per_entity_energy(&self, bodies: &Vec<Body>) -> (r: Vec<EnergyBreakdown>)
        ensures
            r@.len() == bodies@.len(),
            forall|i: int|
                0 <= i < bodies@.len() ==> r@[i] == breakdown_of(
                    self.gravity_constant,
                    self.distance_floor,
                    bodies@,
                    i,
                ),
    {
        let g = self.gravity_constant;
        let floor = self.distance_floor;
        let n = bodies.len();
        let ghost s = bodies@;
        let mut out: Vec<EnergyBreakdown> = Vec::new();
        let mut i: usize = 0;
        while i < n
            invariant
                i <= n,
                bodies@ == s,
                s.len() == n,
                g == self.gravity_constant,
                floor == self.distance_floor,
                out@.len() == i,
                forall|m: int| 0 <= m < i ==> out@[m] == breakdown_of(g, floor, s, m),
            decreases n - i,
        {
            let kinetic = crate::fixed::fx_mul(
                crate::fixed::fx_mul(FX_HALF, bodies[i].mass),
                speed2_exec(&bodies[i]),
            );
            let mut acc: i128 = 0;
            let mut j: usize = 0;
            while j < n
                invariant
                    j <= n,
                    i < n,
                    bodies@ == s,
                    s.len() == n,
                    g == self.gravity_constant,
                    floor == self.distance_floor,
                    acc + pot_all_but(g, floor, s, i as int, j as int) == pot_all_but(
                        g,
                        floor,
                        s,
                        i as int,
                        0,
                    ),
                    -0x8000_0000_0000_0000_i128 * (j as i128) <= acc <= 0x8000_0000_0000_0000_i128
                        * (j as i128),
                decreases n - j,
            {
                if j != i {
                    let t = pot_term_exec(g, floor, &bodies[i], &bodies[j]);
                    acc = acc + t as i128;
                }
                j = j + 1;
            }
            proof {
                assert(pot_all_but(g, floor, s, i as int, n as int) == 0);
            }
            let half: i128 = half_i128(acc);
            let potential = crate::fixed::fx_sat(half);
            out.push(EnergyBreakdown { kinetic, potential, total: fx_add(kinetic, potential) });
            i = i + 1;
        }
        out
    }
}

/// The squared speed of a body.
fn speed2_exec(b: &Body) -> (r: i64)
    ensures
        r == speed2(*b),
{
    fx_add(
        crate::fixed::fx_mul(b.velocity.x, b.velocity.x),
        crate::fixed::fx_mul(b.velocity.y, b.velocity.y),
    )
}

/// One pairwise potential term.
fn pot_term_exec(g: i64, floor: i64, a: &Body, b: &Body) -> (r: i64)
    ensures
        r == pot_term(g, floor, *a, *b),
{
    let delta = b.position.sub(a.position);
    let r_dist = crate::fixed::fx_max(delta.vec_length(), floor);
    crate::fixed::fx_neg(
        crate::fixed::fx_div(
            crate::fixed::fx_mul(g, crate::fixed::fx_mul(a.mass, b.mass)),
            r_dist,
        ),
    )
}

/// Truncated halving of an `i128`.
fn half_i128(a: i128) -> (r: i128)
    requires
        a > i128::MIN,
    ensures
        r == tdiv(a as int, 2),
{
    if a >= 0 {
        (((a as u128) / 2u128) as i128)
    } else {
        -((((-a) as u128) / 2u128) as i128)
    }
}

/// Exact sum of `pot_all_but(_, i', 0)` over bodies `i'` from `i` on.
pub open spec fn sum_all_but(g: i64, floor: i64, s: Seq<Body>, i: int) -> int
    decreases s.len() - i,
{
    if 0 <= i && i < s.len() {
        pot_all_but(g, floor, s, i, 0) + sum_all_but(g, floor, s, i + 1)
    } else {
        0
    }
}

/// Exact sum of the per-body potentials of bodies `i` on.
pub open spec fn sum_per_potential(g: i64, floor: i64, s: Seq<Body>, i: int) -> int
    decreases s.len() - i,
{
    if 0 <= i && i < s.len() {
        per_potential(g, floor, s, i) + sum_per_potential(g, floor, s, i + 1)
    } else {
        0
    }
}

/// Exact sum of the terms `pot_term(s[i'], s[k])` for `i'` from `i` up to
/// `k - 1`.
spec fn col_to(g: i64, floor: i64, s: Seq<Body>, k: int, i: int) -> int
    decreases k - i,
{
    if 0 <= i && i < k {
        pot_term(g, floor, s[i], s[k]) + col_to(g, floor, s, k, i + 1)
    } else {
        0
    }
}

/// The pairwise potential term is symmetric in its two bodies.
proof fn lemma_pot_term_symmetric(g: i64, floor: i64, a: Body, b: Body)
    ensures
        pot_term(g, floor, a, b) == pot_term(g, floor, b, a),
{
    crate::fixed::lemma_sp_mul_comm(a.mass, b.mass);
    let d1 = v_sub(b.position, a.position);
    let d2 = v_sub(a.position, b.position);
    crate::fixed::lemma_sat_neg(b.position.x - a.position.x);
    crate::fixed::lemma_sat_neg(b.position.y - a.position.y);
    assert(d2 == crate::vec2::v_neg(d1));
    crate::vec2::lemma_v_neg_symmetry(d1);
}

proof fn lemma_pot_row_drop_last(g: i64, floor: i64, s: Seq<Body>, i: int, j: int)
    requires
        s.len() >= 1,
        0 <= i < s.len() - 1,
        0 <= j <= s.len() - 1,
    ensures
        pot_row(g, floor, s, i, j) == pot_row(g, floor, s.drop_last(), i, j) + pot_term(
            g,
            floor,
            s[i],
            s[s.len() - 1],
        ),
    decreases s.len() - j,
{
    let s1 = s.drop_last();
    let k = s.len() - 1;
    if j == k {
        assert(pot_row(g, floor, s, i, k) == pot_term(g, floor, s[i], s[k]) + pot_row(
            g,
            floor,
            s,
            i,
            k + 1,
        ));
        assert(pot_row(g, floor, s, i, k + 1) == 0);
        assert(pot_row(g, floor, s1, i, k) == 0);
    } else {
        assert(s1[j] == s[j]);
        assert(s1[i] == s[i]);
        lemma_pot_row_drop_last(g, floor, s, i, j + 1);
    }
}

proof fn lemma_pot_pairs_drop_last(g: i64, floor: i64, s: Seq<Body>, i: int)
    requires
        s.len() >= 1,
        0 <= i <= s.len() - 1,
    ensures
        pot_pairs_from(g, floor, s, i) == pot_pairs_from(g, floor, s.drop_last(), i) + col_to(
            g,
            floor,
            s,
            s.len() - 1,
            i,
        ),
    decreases s.len() - i,
{
    let s1 = s.drop_last();
    let k = s.len() - 1;
    if i == k {
        assert(pot_row(g, floor, s, k, k + 1) == 0);
        assert(pot_pairs_from(g, floor, s, k + 1) == 0);
        assert(pot_pairs_from(g, floor, s1, k) == 0);
        assert(col_to(g, floor, s, k, k) == 0);
    } else {
        if i + 1 <= k - 1 || i + 1 == k {
            lemma_pot_pairs_drop_last(g, floor, s, i + 1);
        }
        lemma_pot_row_drop_last(g, floor, s, i, i + 1);
        assert(s1[i] == s[i]);
    }
}

proof fn lemma_pot_all_but_drop_last(g: i64, floor: i64, s: Seq<Body>, i: int, j: int)
    requires
        s.len() >= 1,
        0 <= i < s.len() - 1,
        0 <= j <= s.len() - 1,
    ensures
        pot_all_but(g, floor, s, i, j) == pot_all_but(g, floor, s.drop_last(), i, j) + pot_term(
            g,
            floor,
            s[i],
            s[s.len() - 1],
        ),
    decreases s.len() - j,
{
    let s1 = s.drop_last();
    let k = s.len() - 1;
    if j == k {
        assert(pot_all_but(g, floor, s, i, k + 1) == 0);
        assert(pot_all_but(g, floor, s1, i, k) == 0);
    } else {
        assert(s1[j] == s[j]);
        assert(s1[i] == s[i]);
        lemma_pot_all_but_drop_last(g, floor, s, i, j + 1);
    }
}

proof fn lemma_pot_all_but_last_is_col(g: i64, floor: i64, s: Seq<Body>, j: int)
    requires
        s.len() >= 1,
        0 <= j,
    ensures
        pot_all_but(g, floor, s, s.len() - 1, j) == col_to(g, floor, s, s.len() - 1, j),
    decreases s.len() - j,
{
    let k = s.len() - 1;
    if j < k {
        lemma_pot_term_symmetric(g, floor, s[k], s[j]);
        lemma_pot_all_but_last_is_col(g, floor, s, j + 1);
    } else if j == k {
        lemma_pot_all_but_last_is_col(g, floor, s, j + 1);
        assert(col_to(g, floor, s, k, k) == 0);
    } else {
        assert(pot_all_but(g, floor, s, k, j) == 0);
        assert(col_to(g, floor, s, k, j) == 0);
    }
}

proof fn lemma_sum_all_but_drop_last(g: i64, floor: i64, s: Seq<Body>, i: int)
    requires
        s.len() >= 1,
        0 <= i <= s.len() - 1,
    ensures
        sum_all_but(g, floor, s, i) == sum_all_but(g, floor, s.drop_last(), i) + col_to(
            g,
            floor,
            s,
            s.len() - 1,
            i,
        ) + col_to(g, floor, s, s.len() - 1, 0),
    decreases s.len() - i,
{
    let s1 = s.drop_last();
    let k = s.len() - 1;
    if i == k {
        lemma_pot_all_but_last_is_col(g, floor, s, 0);
        assert(sum_all_but(g, floor, s, k + 1) == 0);
        assert(sum_all_but(g, floor, s1, k) == 0);
        assert(col_to(g, floor, s, k, k) == 0);
    } else {
        lemma_sum_all_but_drop_last(g, floor, s, i + 1);
        lemma_pot_all_but_drop_last(g, floor, s, i, 0);
    }
}

/// Double counting: summing, over every body, the pairwise potential
/// terms it participates in counts every unordered pair exactly twice.
pub proof fn lemma_sum_all_but_double_counts(g: i64, floor: i64, s: Seq<Body>)
    ensures
        sum_all_but(g, floor, s, 0) == 2 * total_potential_spec(g, floor, s),
    decreases s.len(),
{
    if s.len() == 0 {
        assert(sum_all_but(g, floor, s, 0) == 0);
        assert(pot_pairs_from(g, floor, s, 0) == 0);
    } else {
        let s1 = s.drop_last();
        lemma_sum_all_but_double_counts(g, floor, s1);
        lemma_sum_all_but_drop_last(g, floor, s, 0);
        lemma_pot_pairs_drop_last(g, floor, s, 0);
    }
}

proof fn lemma_half_close(a: int)
    ensures
        iabs(2 * tdiv(a, 2) - a) <= 1,
        iabs(tdiv(a, 2)) <= iabs(a),
{
    vstd::arithmetic::div_mod::lemma_fundamental_div_mod(iabs(a), 2);
    vstd::arithmetic::div_mod::lemma_mod_bound(iabs(a), 2);
    vstd::arithmetic::div_mod::lemma_div_is_ordered_by_denominator(iabs(a), 1, 2);
}

proof fn lemma_sum_per_half(g: i64, floor: i64, s: Seq<Body>, i: int)
    requires
        0 <= i,
        forall|m: int| 0 <= m < s.len() ==> iabs(#[trigger] pot_all_but(g, floor, s, m, 0))
            <= FX_MAX as int,
    ensures
        iabs(2 * sum_per_potential(g, floor, s, i) - sum_all_but(g, floor, s, i)) <= (if i
            <= s.len() {
            s.len() - i
        } else {
            0
        }),
    decreases s.len() - i,
{
    if i < s.len() {
        let ab = pot_all_but(g, floor, s, i, 0);
        lemma_half_close(ab);
        assert(per_potential(g, floor, s, i) as int == tdiv(ab, 2)) by {
            crate::fixed::lemma_sat_id(tdiv(ab, 2));
        }
        lemma_sum_per_half(g, floor, s, i + 1);
    }
}

/// Potential equivalence: the total potential computed once per unordered
/// pair equals the sum of the per-body half potentials, up to the
/// truncation of each half — one raw half-unit per body. The hypothesis
/// excludes configurations whose per-body pairwise sums saturate.
pub proof fn lemma_potential_equivalence(g: i64, floor: i64, s: Seq<Body>)
    requires
        forall|m: int| 0 <= m < s.len() ==> iabs(#[trigger] pot_all_but(g, floor, s, m, 0))
            <= FX_MAX as int,
    ensures
        iabs(
            2 * sum_per_potential(g, floor, s, 0) - 2 * total_potential_spec(g, floor, s),
        ) <= s.len(),
{
    lemma_sum_all_but_double_counts(g, floor, s);
    lemma_sum_per_half(g, floor, s, 0);
}

proof fn lemma_mul128_zero(n: i128)
    by (nonlinear_arith)
    ensures
        0x8000_0000_0000_0000_i128 * 0 * n == 0,
        -0x8000_0000_0000_0000_i128 * 0 * n == 0,
{
}

proof fn lemma_acc_bound_step(acc: i128, acc0: i128, t: i128, i: int, j: int, n: int)
    by (nonlinear_arith)
    requires
        0 <= i < j < n,
        n < 0x1_0000_0000,
        -0x8000_0000_0000_0000 <= t <= 0x8000_0000_0000_0000,
        -0x8000_0000_0000_0000_i128 * i * n <= acc0 <= 0x8000_0000_0000_0000_i128 * i * n,
        acc0 - 0x8000_0000_0000_0000_i128 * (j - i - 1) <= acc <= acc0 + 0x8000_0000_0000_0000_i128
            * (j - i - 1),
    ensures
        i128::MIN < acc + t < i128::MAX,
        acc0 - 0x8000_0000_0000_0000_i128 * (j - i) <= acc + t <= acc0
            + 0x8000_0000_0000_0000_i128 * (j - i),
{
}

proof fn lemma_row_total_bound(acc: i128, acc0: i128, i: int, n: int)
    by (nonlinear_arith)
    requires
        0 <= i < n,
        n < 0x1_0000_0000,
        -0x8000_0000_0000_0000_i128 * i * n <= acc0 <= 0x8000_0000_0000_0000_i128 * i * n,
        acc0 - 0x8000_0000_0000_0000_i128 * (n - i - 1) <= acc <= acc0 + 0x8000_0000_0000_0000_i128
            * (n - i - 1),
    ensures
        -0x8000_0000_0000_0000_i128 * (i + 1) * n <= acc <= 0x8000_0000_0000_0000_i128 * (i + 1)
            * n,
{
}

} // verus!
