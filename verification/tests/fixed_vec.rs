//! Tests of the fixed-point scalar and the 2D vector type.

use nbody2d::fixed::{
    fx_abs, fx_add, fx_div, fx_max, fx_mul, fx_neg, fx_round, fx_sqrt, fx_sub, FX_MAX, FX_MIN,
    SCALE,
};
use nbody2d::vec2::Vec2;

#[test]
fn add_sub_exact() {
    assert_eq!(fx_add(3 * SCALE, 4 * SCALE), 7 * SCALE);
    assert_eq!(fx_sub(3 * SCALE, 4 * SCALE), -SCALE);
    assert_eq!(fx_neg(5), -5);
    assert_eq!(fx_abs(-5), 5);
    assert_eq!(fx_max(-3, 2), 2);
}

#[test]
fn add_saturates_symmetrically() {
    assert_eq!(fx_add(FX_MAX, FX_MAX), FX_MAX);
    assert_eq!(fx_add(FX_MIN, -10), FX_MIN);
    assert_eq!(fx_neg(FX_MIN), FX_MAX);
    assert_eq!(fx_neg(FX_MAX), FX_MIN);
}

#[test]
fn mul_truncates_toward_zero() {
    // 3e-7 * 0.5 = 1.5e-7, truncated to one raw unit either side of zero
    assert_eq!(fx_mul(3, 5_000_000), 1);
    assert_eq!(fx_mul(-3, 5_000_000), -1);
    assert_eq!(fx_mul(2 * SCALE, 3 * SCALE), 6 * SCALE);
    assert_eq!(fx_mul(-2 * SCALE, 3 * SCALE), -6 * SCALE);
}

#[test]
fn div_by_zero_saturates_with_sign() {
    assert_eq!(fx_div(SCALE, 0), FX_MAX);
    assert_eq!(fx_div(-SCALE, 0), FX_MIN);
    assert_eq!(fx_div(0, 0), 0);
    assert_eq!(fx_div(SCALE, 2 * SCALE), SCALE / 2);
    assert_eq!(fx_div(-7, 2), -3 * SCALE - 5_000_000);
}

#[test]
fn sqrt_exact_and_total() {
    assert_eq!(fx_sqrt(4 * SCALE), 2 * SCALE);
    assert_eq!(fx_sqrt(25 * SCALE), 5 * SCALE);
    assert_eq!(fx_sqrt(0), 0);
    assert_eq!(fx_sqrt(-3 * SCALE), 0);
    assert_eq!(fx_sqrt(2 * SCALE), 14_142_135);
}

#[test]
fn round_halves_away_from_zero() {
    assert_eq!(fx_round(15_000_000), 2);
    assert_eq!(fx_round(-15_000_000), -2);
    assert_eq!(fx_round(14_999_999), 1);
    assert_eq!(fx_round(0), 0);
}

#[test]
fn vector_componentwise_ops() {
    let a = Vec2::new(SCALE, 2 * SCALE);
    let b = Vec2::new(3 * SCALE, 4 * SCALE);
    let s = a.add(b);
    assert_eq!((s.x, s.y), (4 * SCALE, 6 * SCALE));
    let d = a.sub(b);
    assert_eq!((d.x, d.y), (-2 * SCALE, -2 * SCALE));
    let m = a.mul_scalar(2 * SCALE);
    assert_eq!((m.x, m.y), (2 * SCALE, 4 * SCALE));
    assert_eq!(a.dot(b), 11 * SCALE);
}

#[test]
fn vector_length_three_four_five() {
    let v = Vec2::new(3 * SCALE, 4 * SCALE);
    assert_eq!(v.vec_length(), 5 * SCALE);
    assert_eq!(v.length(), 5 * SCALE);
}

#[test]
fn normalize_unit_vector() {
    let v = Vec2::new(3 * SCALE, 4 * SCALE);
    let n = v.normalize();
    assert_eq!((n.x, n.y), (6_000_000, 8_000_000));
}

#[test]
fn normalize_zero_is_zero() {
    let z = Vec2::zero();
    let n = z.normalize();
    assert_eq!((n.x, n.y), (0, 0));
}
