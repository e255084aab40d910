//! The fixed-point kernel: square root, powers, clamps and division.

use raytracer::fixed::{clamp64, fxdiv, fxdiv_s, isqrt, powi_fx, SCALE};

#[test]
fn isqrt_floors() {
    assert_eq!(isqrt(0), 0);
    assert_eq!(isqrt(1), 1);
    assert_eq!(isqrt(10), 3);
    assert_eq!(isqrt(16), 4);
    assert_eq!(isqrt(1_000_000_000_000), 1_000_000);
    assert_eq!(isqrt(999_999_999_999), 999_999);
}

#[test]
fn powi_scaled() {
    // One stays one, a half squares to a quarter, anything to the zeroth
    // power is one.
    assert_eq!(powi_fx(SCALE, 5), SCALE);
    assert_eq!(powi_fx(SCALE / 2, 2), SCALE / 4);
    assert_eq!(powi_fx(123_456, 0), SCALE);
    assert_eq!(powi_fx(0, 3), 0);
}

#[test]
fn division_truncates_toward_zero() {
    assert_eq!(fxdiv(7, 2), 3);
    assert_eq!(fxdiv(-7, 2), -3);
    assert_eq!(fxdiv_s(7, -2), -3);
    assert_eq!(fxdiv_s(-7, -2), 3);
}

#[test]
fn clamping() {
    assert_eq!(clamp64(5, 0, 10), 5);
    assert_eq!(clamp64(-5, 0, 10), 0);
    assert_eq!(clamp64(15, 0, 10), 10);
}
