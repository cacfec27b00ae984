//! 2D vector value type over fixed-point scalars.
//!
//! All operations are total and return new values. `normalize` of the zero
//! vector returns the zero vector: a deliberate policy, not an error.

use crate::fixed::{
    fx_add, fx_div, fx_mul, fx_sqrt, fx_sub, sp_add, sp_div, sp_mul, sp_neg, sp_sqrt, sp_sub,
    SCALE,
};
use vstd::prelude::*;

verus! {

/// A 2D vector; each component is a fixed-point scalar.
#[derive(Clone, Copy, Debug, PartialEq, Eq, Structural)]
pub struct Vec2 {
    pub x: i64,
    pub y: i64,
}

/// Componentwise sum.
pub open spec fn v_add(a: Vec2, b: Vec2) -> Vec2 {
    Vec2 { x: sp_add(a.x, b.x), y: sp_add(a.y, b.y) }
}

/// Componentwise difference.
pub open spec fn v_sub(a: Vec2, b: Vec2) -> Vec2 {
    Vec2 { x: sp_sub(a.x, b.x), y: sp_sub(a.y, b.y) }
}

/// Componentwise negation.
pub open spec fn v_neg(a: Vec2) -> Vec2 {
    Vec2 { x: sp_neg(a.x), y: sp_neg(a.y) }
}

/// Both components scaled by `k`.
pub open spec fn v_scale(a: Vec2, k: i64) -> Vec2 {
    Vec2 { x: sp_mul(a.x, k), y: sp_mul(a.y, k) }
}

/// Euclidean norm in fixed-point arithmetic; always nonnegative.
pub open spec fn v_len(a: Vec2) -> i64 {
    sp_sqrt(sp_add(sp_mul(a.x, a.x), sp_mul(a.y, a.y)))
}

/// Dot product in fixed-point arithmetic.
pub open spec fn v_dot(a: Vec2, b: Vec2) -> i64 {
    sp_add(sp_mul(a.x, b.x), sp_mul(a.y, b.y))
}

/// Unit vector in the direction of `a`; the zero vector when `a` has
/// length zero.
pub open spec fn v_normalize(a: Vec2) -> Vec2 {
    if v_len(a) == 0 {
        Vec2 { x: 0, y: 0 }
    } else {
        v_scale(a, sp_div(SCALE, v_len(a)))
    }
}

impl Vec2 {
    /// A vector from its two components.
    pub fn new(x: i64, y: i64) -> (r: Self)
        ensures
            r == (Vec2 { x, y }),
    {
        Vec2 { x, y }
    }

    /// The zero vector.
    pub fn zero() -> (r: Self)
        ensures
            r == (Vec2 { x: 0i64, y: 0i64 }),
    {
        Vec2 { x: 0, y: 0 }
    }

    /// Sum of `self` and `other`.
    pub fn add(&self, other: Vec2) -> (r: Vec2)
        ensures
            r == v_add(*self, other),
    {
        Vec2 { x: fx_add(self.x, other.x), y: fx_add(self.y, other.y) }
    }

    /// Difference of `self` and `other`.
    pub fn sub(&self, other: Vec2) -> (r: Vec2)
        ensures
            r == v_sub(*self, other),
    {
        Vec2 { x: fx_sub(self.x, other.x), y: fx_sub(self.y, other.y) }
    }

    /// `self` scaled by `scalar`.
    pub fn mul_scalar(&self, scalar: i64) -> (r: Vec2)
        ensures
            r == v_scale(*self, scalar),
    {
        Vec2 { x: fx_mul(self.x, scalar), y: fx_mul(self.y, scalar) }
    }

    /// Euclidean length of `self`.
    pub fn vec_length(&self) -> (r: i64)
        ensures
            r == v_len(*self),
    {
        fx_sqrt(fx_add(fx_mul(self.x, self.x), fx_mul(self.y, self.y)))
    }

    /// Euclidean length of `self`.
    pub fn length(&self) -> (r: i64)
        ensures
            r == v_len(*self),
    {
        self.vec_length()
    }

    /// Dot product of `self` and `other`.
    pub fn dot(&self, other: Vec2) -> (r: i64)
        ensures
            r == v_dot(*self, other),
    {
        fx_add(fx_mul(self.x, other.x), fx_mul(self.y, other.y))
    }

    /// Unit vector in the direction of `self`, or the zero vector when
    /// `self` has length zero.
    pub fn normalize(&self) -> (r: Vec2)
        ensures
            r == v_normalize(*self),
    {
        let len = self.vec_length();
        if len == 0 {
            Vec2::zero()
        } else {
            self.mul_scalar(fx_div(SCALE, len))
        }
    }
}

/// A raw scalar within the symmetric saturation range. Every operation of
/// [`crate::fixed`] produces such a value; only a field written directly
/// with `i64::MIN` falls outside it.
pub open spec fn fx_ok(a: i64) -> bool {
    a > i64::MIN
}

/// A vector whose components are within the symmetric saturation range.
pub open spec fn v_ok(a: Vec2) -> bool {
    fx_ok(a.x) && fx_ok(a.y)
}

/// Scaling a vector by minus one negates it exactly.
pub proof fn lemma_v_scale_minus_one(a: Vec2)
    ensures
        v_scale(a, sp_neg(SCALE)) == v_neg(a),
{
    crate::fixed::lemma_sp_mul_minus_one(a.x);
    crate::fixed::lemma_sp_mul_minus_one(a.y);
}

/// The length of a vector is unchanged by negating it, and its normal
/// direction is negated with it: truncation toward zero is symmetric.
pub proof fn lemma_v_neg_symmetry(a: Vec2)
    requires
        v_ok(a),
    ensures
        v_len(v_neg(a)) == v_len(a),
        v_normalize(v_neg(a)) == v_neg(v_normalize(a)),
{
    let nx = sp_neg(a.x);
    let ny = sp_neg(a.y);
    assert(nx as int * nx as int == a.x as int * a.x as int
        && ny as int * ny as int == a.y as int * a.y as int) by (nonlinear_arith)
        requires
            nx as int == -(a.x as int),
            ny as int == -(a.y as int),
    ;
    let len = v_len(a);
    if len != 0 {
        let inv = crate::fixed::sp_div(SCALE, len);
        crate::fixed::lemma_sp_mul_neg_left(a.x, nx, inv);
        crate::fixed::lemma_sp_mul_neg_left(a.y, ny, inv);
        crate::fixed::lemma_sat_neg(sp_mul(a.x, inv) as int);
        crate::fixed::lemma_sat_neg(sp_mul(a.y, inv) as int);
    }
}

} // verus!
