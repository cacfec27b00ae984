//! Fixed-point scalar arithmetic.
//!
//! A physical quantity is stored as an `i64` holding the real value times
//! [`SCALE`]. Multiplication and division rescale their result and truncate
//! toward zero, as Rust's integer division does. Every operation is total:
//! a result outside the representable range saturates to [`FX_MAX`] or
//! [`FX_MIN`], and a division by zero saturates to the sign of the
//! numerator (zero for a zero numerator). The saturation range is
//! symmetric, so negation is always exact; this is what makes the
//! force-symmetry law of the engine an exact statement rather than an
//! approximate one.

use vstd::prelude::*;

verus! {

/// Number of raw units per 1.0 of a physical quantity.
pub const SCALE: i64 = 10_000_000;

/// Raw value of one half (0.5).
pub const FX_HALF: i64 = 5_000_000;

/// Raw value of two (2.0).
pub const FX_TWO: i64 = 20_000_000;

/// Largest representable raw value.
pub const FX_MAX: i64 = i64::MAX;

/// Smallest representable raw value; the saturation range is symmetric.
pub const FX_MIN: i64 = -i64::MAX;

/// Absolute value of a mathematical integer.
pub open spec fn iabs(a: int) -> int {
    if a < 0 {
        -a
    } else {
        a
    }
}

/// Saturate a mathematical integer into the symmetric representable range.
pub open spec fn sat64(x: int) -> i64 {
    if x > FX_MAX {
        FX_MAX
    } else if x < FX_MIN {
        FX_MIN
    } else {
        x as i64
    }
}

/// Division truncated toward zero, zero when the divisor is zero.
pub open spec fn tdiv(a: int, b: int) -> int {
    if b == 0 {
        0
    } else if (a < 0) == (b < 0) {
        iabs(a) / iabs(b)
    } else {
        -(iabs(a) / iabs(b))
    }
}

/// Saturating fixed-point addition.
pub open spec fn sp_add(a: i64, b: i64) -> i64 {
    sat64(a + b)
}

/// Saturating fixed-point subtraction.
pub open spec fn sp_sub(a: i64, b: i64) -> i64 {
    sat64(a - b)
}

/// Saturating negation; exact for every value the operations can produce.
pub open spec fn sp_neg(a: i64) -> i64 {
    sat64(-a)
}

/// Saturating absolute value.
pub open spec fn sp_abs(a: i64) -> i64 {
    sat64(iabs(a as int))
}

/// The larger of two raw values.
pub open spec fn sp_max(a: i64, b: i64) -> i64 {
    if a >= b {
        a
    } else {
        b
    }
}

/// Saturating fixed-point multiplication: the exact product rescaled by
/// [`SCALE`] and truncated toward zero.
pub open spec fn sp_mul(a: i64, b: i64) -> i64 {
    sat64(tdiv(a * b, SCALE as int))
}

/// Saturating fixed-point division: the exact quotient scaled by [`SCALE`]
/// and truncated toward zero. A zero divisor saturates to the sign of the
/// numerator.
pub open spec fn sp_div(a: i64, b: i64) -> i64 {
    if b == 0 {
        if a > 0 {
            FX_MAX
        } else if a < 0 {
            FX_MIN
        } else {
            0
        }
    } else {
        sat64(tdiv(a * SCALE, b as int))
    }
}

/// `r` is the integer square root of `x` rounded down.
pub open spec fn is_sqrt_floor(x: int, r: int) -> bool {
    0 <= r && r * r <= x && x < (r + 1) * (r + 1)
}

/// The integer square root of `x` rounded down (for nonnegative `x`).
pub open spec fn sqrt_floor(x: int) -> int {
    choose|r: int| is_sqrt_floor(x, r)
}

/// Fixed-point square root: zero for nonpositive inputs, otherwise the
/// square root of the real value, rounded down in raw units.
pub open spec fn sp_sqrt(a: i64) -> i64 {
    if a <= 0 {
        0
    } else {
        sat64(sqrt_floor(a * SCALE))
    }
}

/// Round a raw value to the nearest whole number of units, halves away
/// from zero.
pub open spec fn sp_round(a: i64) -> int {
    let m = (iabs(a as int) + FX_HALF) / (SCALE as int);
    if a < 0 {
        -m
    } else {
        m
    }
}

proof fn lemma_i64_mul_in_i128(a: int, b: int)
    by (nonlinear_arith)
    requires
        -0x8000_0000_0000_0000 <= a <= 0x7fff_ffff_ffff_ffff,
        -0x8000_0000_0000_0000 <= b <= 0x7fff_ffff_ffff_ffff,
    ensures
        -0x4000_0000_0000_0000_0000_0000_0000_0000 <= a * b
            <= 0x4000_0000_0000_0000_0000_0000_0000_0000,
{
}

proof fn lemma_pos_mul_scale_small(a: int, s: int)
    by (nonlinear_arith)
    requires
        0 <= a <= 0x7fff_ffff_ffff_ffff,
        0 <= s <= 10_000_000,
    ensures
        0 <= a * s < 0x4000_0000_0000_0000_0000_0000,
{
}

/// Saturate an `i128` intermediate into the representable range.
pub fn fx_sat(s: i128) -> (r: i64)
    ensures
        r == sat64(s as int),
{
    if s > FX_MAX as i128 {
        FX_MAX
    } else if s < FX_MIN as i128 {
        FX_MIN
    } else {
        s as i64
    }
}

/// Division of an `i128` truncated toward zero, through unsigned magnitudes.
fn tdiv128(a: i128, b: i128) -> (q: i128)
    requires
        b > 0,
        a > i128::MIN,
    ensures
        q == tdiv(a as int, b as int),
{
    if a >= 0 {
        let m: u128 = (a as u128) / (b as u128);
        assert(m <= a as u128) by {
            vstd::arithmetic::div_mod::lemma_div_is_ordered_by_denominator(
                a as int,
                1,
                b as int,
            );
        }
        m as i128
    } else {
        let n: u128 = (-a) as u128;
        let m: u128 = n / (b as u128);
        assert(m <= n) by {
            vstd::arithmetic::div_mod::lemma_div_is_ordered_by_denominator(n as int, 1, b as int);
        }
        -(m as i128)
    }
}

/// Saturating fixed-point addition.
pub fn fx_add(a: i64, b: i64) -> (r: i64)
    ensures
        r == sp_add(a, b),
{
    fx_sat(a as i128 + b as i128)
}

/// Saturating fixed-point subtraction.
pub fn fx_sub(a: i64, b: i64) -> (r: i64)
    ensures
        r == sp_sub(a, b),
{
    fx_sat(a as i128 - b as i128)
}

/// Saturating negation.
pub fn fx_neg(a: i64) -> (r: i64)
    ensures
        r == sp_neg(a),
{
    fx_sat(-(a as i128))
}

/// Saturating absolute value.
pub fn fx_abs(a: i64) -> (r: i64)
    ensures
        r == sp_abs(a),
{
    if a < 0 {
        fx_sat(-(a as i128))
    } else {
        a
    }
}

/// The larger of two raw values.
pub fn fx_max(a: i64, b: i64) -> (r: i64)
    ensures
        r == sp_max(a, b),
{
    if a >= b {
        a
    } else {
        b
    }
}

/// Saturating fixed-point multiplication.
pub fn fx_mul(a: i64, b: i64) -> (r: i64)
    ensures
        r == sp_mul(a, b),
{
    proof {
        lemma_i64_mul_in_i128(a as int, b as int);
    }
    let p: i128 = (a as i128) * (b as i128);
    let q: i128 = tdiv128(p, SCALE as i128);
    fx_sat(q)
}

/// Saturating fixed-point division.
fn fx_div_nonzero(a: i64, b: i64) -> (r: i64)
    requires
        b != 0,
    ensures
        r == sp_div(a, b),
{
    proof {
        lemma_i64_mul_in_i128(a as int, SCALE as int);
    }
    let n: i128 = (a as i128) * (SCALE as i128);
    let q: i128 = if b >= 1 {
        tdiv128(n, b as i128)
    } else {
        let qq = tdiv128(n, -(b as i128));
        proof {
            lemma_tdiv_neg_denominator(n as int, -(b as int));
        }
        -qq
    };
    fx_sat(q)
}

/// Saturating fixed-point division; a zero divisor saturates to the sign
/// of the numerator.
pub fn fx_div(a: i64, b: i64) -> (r: i64)
    ensures
        r == sp_div(a, b),
{
    if b == 0 {
        if a > 0 {
            FX_MAX
        } else if a < 0 {
            FX_MIN
        } else {
            0
        }
    } else {
        fx_div_nonzero(a, b)
    }
}

/// Integer square root of a `u128`, rounded down.
fn isqrt_u128(x: u128) -> (r: u128)
    requires
        x < 0x4000_0000_0000_0000_0000_0000,
    ensures
        is_sqrt_floor(x as int, r as int),
{
    let mut lo: u128 = 0;
    let mut hi: u128 = 0x8000_0000_0000;
    assert((hi + 1) * (hi + 1) > x) by (nonlinear_arith)
        requires
            hi == 0x8000_0000_0000,
            x < 0x4000_0000_0000_0000_0000_0000,
    ;
    while lo < hi
        invariant
            lo <= hi,
            hi <= 0x8000_0000_0000,
            lo * lo <= x,
            (hi + 1) * (hi + 1) > x,
        decreases hi - lo,
    {
        let mid: u128 = lo + (hi - lo + 1) / 2;
        assert(lo < mid <= hi);
        assert(mid * mid < 0x1_0000_0000_0000_0000_0000_0000) by (nonlinear_arith)
            requires
                mid <= 0x8000_0000_0000,
        ;
        if mid * mid <= x {
            lo = mid;
        } else {
            hi = mid - 1;
        }
    }
    lo
}

/// Two distinct integers cannot both be the floor square root of `x`.
proof fn lemma_sqrt_floor_unique(x: int, r: int)
    requires
        is_sqrt_floor(x, r),
    ensures
        sqrt_floor(x) == r,
{
    assert(is_sqrt_floor(x, sqrt_floor(x)));
    let r2 = sqrt_floor(x);
    if r2 < r {
        assert((r2 + 1) * (r2 + 1) <= r * r) by (nonlinear_arith)
            requires
                0 <= r2 < r,
        ;
    }
    if r < r2 {
        assert((r + 1) * (r + 1) <= r2 * r2) by (nonlinear_arith)
            requires
                0 <= r < r2,
        ;
    }
}

/// Fixed-point square root.
pub fn fx_sqrt(a: i64) -> (r: i64)
    ensures
        r == sp_sqrt(a),
{
    if a <= 0 {
        0
    } else {
        proof {
            lemma_pos_mul_scale_small(a as int, SCALE as int);
        }
        let x: u128 = (a as u128) * (SCALE as u128);
        let s: u128 = isqrt_u128(x);
        proof {
            lemma_sqrt_floor_unique(x as int, s as int);
            assert(s * s <= x < 0x4000_0000_0000_0000_0000_0000);
            assert(s <= 0x8000_0000_0000) by (nonlinear_arith)
                requires
                    s * s < 0x4000_0000_0000_0000_0000_0000,
            ;
        }
        s as i64
    }
}

/// Round a raw value to the nearest whole number of units, halves away
/// from zero.
pub fn fx_round(a: i64) -> (r: i64)
    ensures
        r == sp_round(a),
{
    let m128: i128 = if a < 0 {
        -(a as i128)
    } else {
        a as i128
    };
    let q: u128 = ((m128 as u128) + (FX_HALF as u128)) / (SCALE as u128);
    assert(q <= (m128 + FX_HALF) as u128) by {
        vstd::arithmetic::div_mod::lemma_div_is_ordered_by_denominator(
            m128 + FX_HALF,
            1,
            SCALE as int,
        );
    }
    if a < 0 {
        -(q as i64)
    } else {
        q as i64
    }
}

/// Truncated division flips sign with its denominator.
proof fn lemma_tdiv_neg_denominator(a: int, b: int)
    requires
        b != 0,
    ensures
        tdiv(a, -b) == -tdiv(a, b),
{
}

/// Truncated division flips sign with its numerator.
pub proof fn lemma_tdiv_neg(a: int, b: int)
    ensures
        tdiv(-a, b) == -tdiv(a, b),
{
}

/// Saturation commutes with negation: the range is symmetric.
pub proof fn lemma_sat_neg(x: int)
    ensures
        sat64(-x) as int == -(sat64(x) as int),
{
}

/// Negating one factor negates a fixed-point product.
pub proof fn lemma_sp_mul_neg_left(x: i64, y: i64, b: i64)
    requires
        y as int == -(x as int),
    ensures
        sp_mul(y, b) as int == -(sp_mul(x, b) as int),
{
    assert(y as int * b as int == -(x as int * b as int)) by (nonlinear_arith)
        requires
            y as int == -(x as int),
    ;
    lemma_tdiv_neg(x as int * b as int, SCALE as int);
    lemma_sat_neg(tdiv(x as int * b as int, SCALE as int));
}

proof fn lemma_abs_mul_pos(x: int, s: int)
    by (nonlinear_arith)
    requires
        s > 0,
    ensures
        iabs(x * s) == iabs(x) * s,
{
}

/// Dividing an exact multiple of the scale by the scale is exact.
proof fn lemma_tdiv_scale_exact(x: int)
    ensures
        tdiv(x * SCALE, SCALE as int) == x,
{
    lemma_abs_mul_pos(x, SCALE as int);
    vstd::arithmetic::div_mod::lemma_div_multiples_vanish(iabs(x), SCALE as int);
    assert(iabs(x) * (SCALE as int) == iabs(x) * SCALE);
}

/// Multiplying by minus one in fixed point is exact negation.
pub proof fn lemma_sp_mul_minus_one(x: i64)
    ensures
        sp_mul(x, sp_neg(SCALE)) == sp_neg(x),
{
    assert(sp_neg(SCALE) as int == -(SCALE as int));
    assert(x as int * (-(SCALE as int)) == -(x as int * SCALE as int)) by (nonlinear_arith);
    lemma_tdiv_neg(x as int * SCALE as int, SCALE as int);
    lemma_tdiv_scale_exact(x as int);
    lemma_sat_neg(x as int);
}

/// Saturation is monotone.
pub proof fn lemma_sat_mono(x: int, y: int)
    requires
        x <= y,
    ensures
        sat64(x) <= sat64(y),
{
}

/// Saturation leaves an in-range value unchanged.
pub proof fn lemma_sat_id(x: int)
    requires
        FX_MIN <= x <= FX_MAX,
    ensures
        sat64(x) as int == x,
{
}

/// A fixed-point product of nonnegative factors is nonnegative, and a
/// fixed-point square is always nonnegative.
pub proof fn lemma_sp_mul_nonneg(a: i64, b: i64)
    requires
        a >= 0 && b >= 0 || a == b,
    ensures
        sp_mul(a, b) >= 0,
{
    assert(a as int * b as int >= 0) by (nonlinear_arith)
        requires
            a as int >= 0 && b as int >= 0 || a as int == b as int,
    ;
    if SCALE as int != 0 {
        vstd::arithmetic::div_mod::lemma_div_pos_is_pos(iabs(a as int * b as int), SCALE as int);
    }
}

/// Truncated division of a fixed numerator is antitone in a positive
/// denominator.
pub proof fn lemma_tdiv_antitone(n: int, d1: int, d2: int)
    requires
        n >= 0,
        0 < d1 <= d2,
    ensures
        tdiv(n, d2) <= tdiv(n, d1),
{
    vstd::arithmetic::div_mod::lemma_div_is_ordered_by_denominator(n, d1, d2);
}

/// Fixed-point multiplication is commutative.
pub proof fn lemma_sp_mul_comm(a: i64, b: i64)
    ensures
        sp_mul(a, b) == sp_mul(b, a),
{
    vstd::arithmetic::mul::lemma_mul_is_commutative(a as int, b as int);
}

} // verus!
