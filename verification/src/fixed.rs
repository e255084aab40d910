//! Fixed-point arithmetic kernel.
//!
//! Every geometric quantity in this crate is a signed integer counting
//! millionths ([`SCALE`]) of a world unit.  This module supplies the scaled
//! division, integer square root, power and clamp routines the rest of the
//! pipeline builds on, together with the lemmas that bound them.

use vstd::prelude::*;
use vstd::arithmetic::div_mod::{
    lemma_div_is_ordered, lemma_div_multiples_vanish, lemma_div_pos_is_pos,
};
use vstd::arithmetic::mul::{lemma_mul_inequality, lemma_mul_upper_bound};

verus! {

/// Number of fixed-point units per world unit.
pub const SCALE: i64 = 1_000_000;

/// Half of [`SCALE`]; the smallest leading component of a normalized vector.
pub const HALF_SCALE: i64 = 500_000;

/// Largest magnitude, in units, of any coordinate of scene geometry,
/// light positions or the camera position.
pub const GEOM_MAX: i64 = 500_000_000_000;

/// Largest magnitude, in units, of a coordinate of an accepted hit point;
/// an intersection outside this cube counts as a miss.
pub const HIT_MAX: i64 = 2_000_000_000_000;

/// Largest magnitude, in units, of a ray origin coordinate: an accepted hit
/// point, possibly nudged by the reflection bias.
pub const RAY_ORIGIN_MAX: i64 = 2_000_000_001_000;

/// Largest accepted ray parameter, in units; a hit farther along a ray than
/// this counts as a miss.
pub const FAR_T: i64 = 1_500_000_000_000;

/// Offset, in units, applied along the surface normal to the origin of a
/// reflected or shadow ray so it cannot immediately re-hit its own surface.
pub const BIAS: i64 = 50;

/// Largest accepted light intensity, in units (one unit is a millionth).
pub const INTENSITY_MAX: i64 = 1_000_000_000_000;

/// Truncating division: the quotient is rounded toward zero, exactly as
/// machine division of signed integers rounds.  Meaningful for `b >= 1`.
pub open spec fn tdiv(a: int, b: int) -> int {
    if a >= 0 {
        a / b
    } else {
        -((-a) / b)
    }
}

/// Clamp `v` into the interval `[lo, hi]`.
pub open spec fn s_clamp(v: int, lo: int, hi: int) -> int {
    if v < lo {
        lo
    } else if v > hi {
        hi
    } else {
        v
    }
}

/// The floor of the square root of a non-negative integer.
pub open spec fn sqrt_floor(n: int) -> int {
    choose|r: int| 0 <= r && #[trigger] (r * r) <= n && n < (r + 1) * (r + 1)
}

/// Fixed-point power: `base` scaled by [`SCALE`], multiplied onto a scaled
/// unit `n` times, truncating at each step.
pub open spec fn s_powi(base: int, n: nat) -> int
    decreases n,
{
    if n == 0 {
        SCALE as int
    } else {
        tdiv(base * s_powi(base, (n - 1) as nat), SCALE as int)
    }
}

/// Any value between `-X` and `X` times any value between `-Y` and `Y`
/// stays between `-X*Y` and `X*Y`.
pub proof fn lemma_mul_abs_le(x: int, big_x: int, y: int, big_y: int)
    by (nonlinear_arith)
    requires
        -big_x <= x <= big_x,
        -big_y <= y <= big_y,
        0 <= big_x,
        0 <= big_y,
    ensures
        -(big_x * big_y) <= x * y <= big_x * big_y,
{
}

/// Truncating division by `b >= 1` of a value within `k*b` of zero yields a
/// quotient within `k` of zero.
pub proof fn lemma_tdiv_bounds(a: int, b: int, k: int)
    requires
        1 <= b,
        0 <= k,
        -(k * b) <= a <= k * b,
    ensures
        -k <= tdiv(a, b) <= k,
{
    assert(k * b == b * k) by (nonlinear_arith);
    lemma_div_multiples_vanish(k, b);
    if a >= 0 {
        lemma_div_pos_is_pos(a, b);
        lemma_div_is_ordered(a, k * b, b);
    } else {
        lemma_div_pos_is_pos(-a, b);
        lemma_div_is_ordered(-a, k * b, b);
    }
}

/// Truncating division undoes an exact multiplication.
pub proof fn lemma_tdiv_exact(k: int, b: int)
    requires
        1 <= b,
    ensures
        tdiv(k * b, b) == k,
{
    assert(k * b == b * k) by (nonlinear_arith);
    assert(-(k * b) == b * (-k)) by (nonlinear_arith);
    if k >= 0 {
        lemma_div_multiples_vanish(k, b);
    } else {
        lemma_div_multiples_vanish(-k, b);
    }
}

/// Truncating division keeps a lower bound that holds as an exact multiple.
pub proof fn lemma_tdiv_lower(a: int, b: int, k: int)
    requires
        1 <= b,
        0 <= k,
        k * b <= a,
    ensures
        k <= tdiv(a, b),
{
    assert(0 <= k * b && k * b == b * k) by (nonlinear_arith)
        requires
            0 <= k,
            1 <= b,
    ;
    lemma_div_is_ordered(k * b, a, b);
    lemma_div_multiples_vanish(k, b);
    lemma_div_pos_is_pos(a, b);
}

/// Truncating division never grows magnitude (for `b >= 1`).
pub proof fn lemma_tdiv_shrinks(a: int, b: int)
    requires
        1 <= b,
    ensures
        -a <= tdiv(a, b) <= a || a < 0 && a <= tdiv(a, b) <= -a,
        a >= 0 ==> 0 <= tdiv(a, b) <= a,
        a < 0 ==> a <= tdiv(a, b) <= 0,
{
    if a >= 0 {
        assert(a <= a * b && a * b == b * a) by (nonlinear_arith)
            requires
                0 <= a,
                1 <= b,
        ;
        lemma_div_pos_is_pos(a, b);
        lemma_div_is_ordered(a, a * b, b);
        lemma_div_multiples_vanish(a, b);
    } else {
        assert(-a <= (-a) * b && (-a) * b == b * (-a)) by (nonlinear_arith)
            requires
                a < 0,
                1 <= b,
        ;
        lemma_div_pos_is_pos(-a, b);
        lemma_div_is_ordered(-a, (-a) * b, b);
        lemma_div_multiples_vanish(-a, b);
    }
}

/// The square-root floor of `n` is the unique `r` with
/// `r*r <= n < (r+1)*(r+1)`.
pub proof fn lemma_sqrt_floor_unique(n: int, r: int)
    requires
        0 <= r,
        r * r <= n,
        n < (r + 1) * (r + 1),
    ensures
        sqrt_floor(n) == r,
{
    assert(exists|q: int| 0 <= q && #[trigger] (q * q) <= n && n < (q + 1) * (q + 1)) by {
        assert(0 <= r && r * r <= n && n < (r + 1) * (r + 1));
    }
    let c = sqrt_floor(n);
    assert(0 <= c && c * c <= n && n < (c + 1) * (c + 1));
    assert(c == r) by (nonlinear_arith)
        requires
            0 <= r,
            r * r <= n,
            n < (r + 1) * (r + 1),
            0 <= c,
            c * c <= n,
            n < (c + 1) * (c + 1),
    ;
}

/// Truncating division extended to a negative divisor, still rounding the
/// quotient toward zero.  Meaningful for `b != 0`.
pub open spec fn sdiv(a: int, b: int) -> int {
    if b >= 1 {
        tdiv(a, b)
    } else {
        -tdiv(a, -b)
    }
}

/// Truncating division of machine integers, rounding toward zero.
pub fn fxdiv(a: i128, b: i128) -> (r: i128)
    requires
        1 <= b,
        i128::MIN < a,
    ensures
        r as int == tdiv(a as int, b as int),
{
    proof {
        lemma_tdiv_shrinks(a as int, b as int);
    }
    if let Some(q) = a.checked_div(b) {
        q
    } else {
        proof {
            assert(false);
        }
        0
    }
}

/// Truncating division of machine integers by a nonzero divisor of either
/// sign, rounding toward zero.
pub fn fxdiv_s(a: i128, b: i128) -> (r: i128)
    requires
        b != 0,
        i128::MIN < a,
        i128::MIN < b,
    ensures
        r as int == sdiv(a as int, b as int),
{
    proof {
        if b >= 1 {
            lemma_tdiv_shrinks(a as int, b as int);
        } else {
            lemma_tdiv_shrinks(a as int, -(b as int));
        }
    }
    if let Some(q) = a.checked_div(b) {
        q
    } else {
        proof {
            assert(false);
        }
        0
    }
}

/// Floor of the square root, by bisection.
pub fn isqrt(n: u128) -> (r: u128)
    requires
        n < 0x4000_0000_0000_0000_0000_0000_0000_0000,
    ensures
        0 <= r <= 0x8000_0000_0000_0000,
        r * r <= n,
        n < (r + 1) * (r + 1),
        r as int == sqrt_floor(n as int),
{
    let mut lo: u128 = 0;
    let mut hi: u128 = 0x8000_0000_0000_0000;
    proof {
        assert((0x8000_0000_0000_0000 as int) * (0x8000_0000_0000_0000 as int)
            == 0x4000_0000_0000_0000_0000_0000_0000_0000) by (nonlinear_arith);
    }
    while lo + 1 < hi
        invariant
            0 <= lo < hi <= 0x8000_0000_0000_0000,
            lo * lo <= n,
            n < hi * hi,
        decreases hi - lo,
    {
        let mid = lo + (hi - lo) / 2;
        proof {
            lemma_mul_upper_bound(
                mid as int,
                0x8000_0000_0000_0000,
                mid as int,
                0x8000_0000_0000_0000,
            );
            assert((0x8000_0000_0000_0000 as int) * (0x8000_0000_0000_0000 as int)
                == 0x4000_0000_0000_0000_0000_0000_0000_0000) by (nonlinear_arith);
        }
        if mid * mid <= n {
            lo = mid;
        } else {
            hi = mid;
        }
    }
    proof {
        assert(hi <= lo + 1);
        lemma_mul_inequality(hi as int, lo as int + 1, hi as int);
        assert(hi * hi <= (lo + 1) * hi || hi == 0);
        assert(n < (lo + 1) * (lo + 1)) by (nonlinear_arith)
            requires
                n < hi * hi,
                hi <= lo + 1,
                0 <= lo,
        ;
        lemma_sqrt_floor_unique(n as int, lo as int);
    }
    lo
}

/// Fixed-point power of a scaled base in `[-SCALE, SCALE]`.
pub fn powi_fx(base: i64, n: u32) -> (r: i64)
    requires
        -SCALE <= base <= SCALE,
    ensures
        r as int == s_powi(base as int, n as nat),
        -SCALE <= r <= SCALE,
{
    let mut acc: i64 = SCALE;
    let mut i: u32 = 0;
    while i < n
        invariant
            0 <= i <= n,
            -SCALE <= base <= SCALE,
            -SCALE <= acc <= SCALE,
            acc as int == s_powi(base as int, i as nat),
        decreases n - i,
    {
        proof {
            lemma_mul_abs_le(base as int, SCALE as int, acc as int, SCALE as int);
            lemma_tdiv_bounds(base as int * acc as int, SCALE as int, SCALE as int);
        }
        acc = fxdiv(base as i128 * acc as i128, SCALE as i128) as i64;
        i = i + 1;
    }
    acc
}

/// Clamp a 64-bit value into `[lo, hi]`.
pub fn clamp64(v: i64, lo: i64, hi: i64) -> (r: i64)
    requires
        lo <= hi,
    ensures
        r as int == s_clamp(v as int, lo as int, hi as int),
{
    if v < lo {
        lo
    } else if v > hi {
        hi
    } else {
        v
    }
}

/// Clamp a 128-bit value into a 64-bit interval `[lo, hi]`.
pub fn clamp128(v: i128, lo: i64, hi: i64) -> (r: i64)
    requires
        lo <= hi,
    ensures
        r as int == s_clamp(v as int, lo as int, hi as int),
{
    if v < lo as i128 {
        lo
    } else if v > hi as i128 {
        hi
    } else {
        v as i64
    }
}

} // verus!
