//! Three-component vectors in fixed-point coordinates, with the algebra the
//! tracer is built on: arithmetic, dot and cross products, length,
//! normalization and Euler rotation.
//!
//! Every executable operation is specified against a mirror over unbounded
//! integers ([`V3`]), so callers reason about exact mathematical values and
//! the only preconditions are the machine-range bounds.

use vstd::prelude::*;
use crate::fixed::{
    tdiv, sqrt_floor, lemma_mul_abs_le, lemma_tdiv_bounds, lemma_tdiv_exact,
    lemma_tdiv_lower, lemma_sqrt_floor_unique, fxdiv, isqrt, SCALE, HALF_SCALE,
};

verus! {

/// Largest component magnitude accepted by `dot`, `cross` and `rotate`.
pub const DOT_ARG_MAX: i64 = 3_000_000_000_000_000_000;

/// Largest component magnitude accepted by `len` and `norm`.
pub const LEN_ARG_MAX: i64 = 3_000_000_000_000_000_000;

/// Largest component magnitude accepted by `rotate`.
pub const ROT_ARG_MAX: i64 = 1_000_000_000_000_000_000;

/// Largest component magnitude accepted by `rotate_by_point`.
pub const RBP_ARG_MAX: i64 = 500_000_000_000_000_000;

/// The unbounded-integer value of a [`Vec3`]: what contracts speak about.
pub struct V3 {
    pub x: int,
    pub y: int,
    pub z: int,
}

/// The unbounded-integer value of an [`Angle`].
pub struct A2 {
    pub sin: int,
    pub cos: int,
}

/// A vector (or point) with components in millionths of a world unit.
#[derive(Clone, Copy, Debug, PartialEq, Eq, Structural)]
pub struct Vec3 {
    pub x: i64,
    pub y: i64,
    pub z: i64,
}

/// A point in space; identical to [`Vec3`], kept as a separate name so
/// signatures can say which role a value plays.
pub type Point3 = Vec3;

/// An angle, represented by its sine and cosine in fixed-point scale.
/// The trigonometric evaluation happens outside the core (it needs floating
/// point); the rotation routines consume the pair exactly.
#[derive(Clone, Copy, Debug, PartialEq, Eq, Structural)]
pub struct Angle {
    pub sin: i64,
    pub cos: i64,
}

impl View for Vec3 {
    type V = V3;

    open spec fn view(&self) -> V3 {
        V3 { x: self.x as int, y: self.y as int, z: self.z as int }
    }
}

impl View for Angle {
    type V = A2;

    open spec fn view(&self) -> A2 {
        A2 { sin: self.sin as int, cos: self.cos as int }
    }
}

/// All three components lie within `b` of zero.
pub open spec fn in_range(v: V3, b: int) -> bool {
    &&& -b <= v.x <= b
    &&& -b <= v.y <= b
    &&& -b <= v.z <= b
}

/// A sine/cosine pair within the fixed-point unit interval.
pub open spec fn angle_wf(a: A2) -> bool {
    &&& -(SCALE as int) <= a.sin <= SCALE as int
    &&& -(SCALE as int) <= a.cos <= SCALE as int
}

/// The shape of a normalized vector: no component exceeds one unit, and the
/// largest component is at least half a unit.
pub open spec fn unitish(v: V3) -> bool {
    &&& in_range(v, SCALE as int)
    &&& (v.x >= HALF_SCALE as int || -(v.x) >= HALF_SCALE as int
        || v.y >= HALF_SCALE as int || -(v.y) >= HALF_SCALE as int
        || v.z >= HALF_SCALE as int || -(v.z) >= HALF_SCALE as int)
}

/// Fixed-point product of two scaled values.
pub open spec fn fm(a: int, b: int) -> int {
    tdiv(a * b, SCALE as int)
}

/// Componentwise sum.
pub open spec fn sv_add(a: V3, b: V3) -> V3 {
    V3 { x: a.x + b.x, y: a.y + b.y, z: a.z + b.z }
}

/// Componentwise difference.
pub open spec fn sv_sub(a: V3, b: V3) -> V3 {
    V3 { x: a.x - b.x, y: a.y - b.y, z: a.z - b.z }
}

/// Scaling by a fixed-point scalar.
pub open spec fn sv_scale(a: V3, k: int) -> V3 {
    V3 {
        x: tdiv(a.x * k, SCALE as int),
        y: tdiv(a.y * k, SCALE as int),
        z: tdiv(a.z * k, SCALE as int),
    }
}

/// Division by a positive fixed-point scalar.
pub open spec fn sv_div(a: V3, k: int) -> V3 {
    V3 {
        x: tdiv(a.x * SCALE as int, k),
        y: tdiv(a.y * SCALE as int, k),
        z: tdiv(a.z * SCALE as int, k),
    }
}

/// Componentwise negation.
pub open spec fn sv_neg(a: V3) -> V3 {
    V3 { x: -a.x, y: -a.y, z: -a.z }
}

/// The raw (unscaled) sum of products of components.
pub open spec fn sv_dot_raw(a: V3, b: V3) -> int {
    a.x * b.x + a.y * b.y + a.z * b.z
}

/// Fixed-point dot product.
pub open spec fn sv_dot(a: V3, b: V3) -> int {
    tdiv(sv_dot_raw(a, b), SCALE as int)
}

/// Fixed-point cross product.
pub open spec fn sv_cross(a: V3, b: V3) -> V3 {
    V3 {
        x: tdiv(a.y * b.z - a.z * b.y, SCALE as int),
        y: tdiv(a.z * b.x - a.x * b.z, SCALE as int),
        z: tdiv(a.x * b.y - a.y * b.x, SCALE as int),
    }
}

/// The raw sum of squared components.
pub open spec fn sv_norm2(a: V3) -> int {
    a.x * a.x + a.y * a.y + a.z * a.z
}

/// Euclidean length, in units: the square-root floor of the sum of squares.
pub open spec fn sv_len(a: V3) -> int {
    sqrt_floor(sv_norm2(a))
}

/// Normalization: each component rescaled by `SCALE / len`.
pub open spec fn sv_norm(a: V3) -> V3 {
    sv_div(a, sv_len(a))
}

/// Distance between two points.
pub open spec fn sv_dist(a: V3, b: V3) -> int {
    sv_len(sv_sub(a, b))
}

/// First row of the Euler rotation matrix built from the three angles.
pub open spec fn rot_row_x(ax: A2, ay: A2, az: A2) -> V3 {
    V3 {
        x: fm(az.cos, ay.cos),
        y: fm(fm(az.cos, ay.sin), ax.sin) - fm(az.sin, ax.cos),
        z: fm(fm(az.cos, ay.sin), ax.cos) + fm(az.sin, ax.sin),
    }
}

/// Second row of the Euler rotation matrix.
pub open spec fn rot_row_y(ax: A2, ay: A2, az: A2) -> V3 {
    V3 {
        x: fm(az.sin, ay.cos),
        y: fm(fm(az.sin, ay.sin), ax.sin) + fm(az.cos, ax.cos),
        z: fm(fm(az.sin, ay.sin), ax.cos) - fm(az.cos, ax.sin),
    }
}

/// Third row of the Euler rotation matrix.
pub open spec fn rot_row_z(ax: A2, ay: A2, az: A2) -> V3 {
    V3 {
        x: -ay.sin,
        y: fm(ay.cos, ax.sin),
        z: fm(ay.cos, ax.cos),
    }
}

/// Euler rotation: the vector dotted against each matrix row.
pub open spec fn sv_rotate(v: V3, ax: A2, ay: A2, az: A2) -> V3 {
    V3 {
        x: sv_dot(v, rot_row_x(ax, ay, az)),
        y: sv_dot(v, rot_row_y(ax, ay, az)),
        z: sv_dot(v, rot_row_z(ax, ay, az)),
    }
}

/// Rotation anchored at a pivot: translate so the pivot is at the origin,
/// rotate, translate back.
pub open spec fn sv_rotate_by_point(v: V3, ax: A2, ay: A2, az: A2, p: V3) -> V3 {
    sv_sub(sv_rotate(sv_add(v, p), ax, ay, az), sv_rotate(p, ax, ay, az))
}

impl Vec3 {
    /// Build a vector from its three scaled components.
    pub fn new(x: i64, y: i64, z: i64) -> (r: Vec3)
        ensures
            r@ == (V3 { x: x as int, y: y as int, z: z as int }),
    {
        Vec3 { x, y, z }
    }

    /// Componentwise sum.
    pub fn add(&self, rhs: Vec3) -> (r: Vec3)
        requires
            in_range(sv_add(self@, rhs@), i64::MAX as int),
        ensures
            r@ == sv_add(self@, rhs@),
    {
        Vec3 { x: self.x + rhs.x, y: self.y + rhs.y, z: self.z + rhs.z }
    }

    /// Componentwise difference.
    pub fn sub(&self, rhs: Vec3) -> (r: Vec3)
        requires
            in_range(sv_sub(self@, rhs@), i64::MAX as int),
        ensures
            r@ == sv_sub(self@, rhs@),
    {
        Vec3 { x: self.x - rhs.x, y: self.y - rhs.y, z: self.z - rhs.z }
    }

    /// Scale by a fixed-point scalar.
    pub fn mul(&self, rhs: i64) -> (r: Vec3)
        requires
            in_range(sv_scale(self@, rhs as int), i64::MAX as int),
        ensures
            r@ == sv_scale(self@, rhs as int),
    {
        Vec3 {
            x: fxdiv(self.x as i128 * rhs as i128, SCALE as i128) as i64,
            y: fxdiv(self.y as i128 * rhs as i128, SCALE as i128) as i64,
            z: fxdiv(self.z as i128 * rhs as i128, SCALE as i128) as i64,
        }
    }

    /// Divide by a positive fixed-point scalar.
    pub fn div(&self, rhs: i64) -> (r: Vec3)
        requires
            1 <= rhs,
            in_range(sv_div(self@, rhs as int), i64::MAX as int),
        ensures
            r@ == sv_div(self@, rhs as int),
    {
        Vec3 {
            x: fxdiv(self.x as i128 * SCALE as i128, rhs as i128) as i64,
            y: fxdiv(self.y as i128 * SCALE as i128, rhs as i128) as i64,
            z: fxdiv(self.z as i128 * SCALE as i128, rhs as i128) as i64,
        }
    }

    /// Fixed-point dot product.
    pub fn dot(&self, rhs: Vec3) -> (r: i64)
        requires
            in_range(self@, DOT_ARG_MAX as int),
            in_range(rhs@, DOT_ARG_MAX as int),
            -(i64::MAX as int) <= sv_dot(self@, rhs@) <= i64::MAX as int,
        ensures
            r as int == sv_dot(self@, rhs@),
    {
        proof {
            lemma_mul_abs_le(self@.x, DOT_ARG_MAX as int, rhs@.x, DOT_ARG_MAX as int);
            lemma_mul_abs_le(self@.y, DOT_ARG_MAX as int, rhs@.y, DOT_ARG_MAX as int);
            lemma_mul_abs_le(self@.z, DOT_ARG_MAX as int, rhs@.z, DOT_ARG_MAX as int);
        }
        let raw: i128 = self.x as i128 * rhs.x as i128 + self.y as i128 * rhs.y as i128
            + self.z as i128 * rhs.z as i128;
        fxdiv(raw, SCALE as i128) as i64
    }

    /// Fixed-point cross product.
    pub fn cross(&self, rhs: Vec3) -> (r: Vec3)
        requires
            in_range(self@, DOT_ARG_MAX as int),
            in_range(rhs@, DOT_ARG_MAX as int),
            in_range(sv_cross(self@, rhs@), i64::MAX as int),
        ensures
            r@ == sv_cross(self@, rhs@),
    {
        proof {
            lemma_mul_abs_le(self@.y, DOT_ARG_MAX as int, rhs@.z, DOT_ARG_MAX as int);
            lemma_mul_abs_le(self@.z, DOT_ARG_MAX as int, rhs@.y, DOT_ARG_MAX as int);
            lemma_mul_abs_le(self@.z, DOT_ARG_MAX as int, rhs@.x, DOT_ARG_MAX as int);
            lemma_mul_abs_le(self@.x, DOT_ARG_MAX as int, rhs@.z, DOT_ARG_MAX as int);
            lemma_mul_abs_le(self@.x, DOT_ARG_MAX as int, rhs@.y, DOT_ARG_MAX as int);
            lemma_mul_abs_le(self@.y, DOT_ARG_MAX as int, rhs@.x, DOT_ARG_MAX as int);
        }
        Vec3 {
            x: fxdiv(
                self.y as i128 * rhs.z as i128 - self.z as i128 * rhs.y as i128,
                SCALE as i128,
            ) as i64,
            y: fxdiv(
                self.z as i128 * rhs.x as i128 - self.x as i128 * rhs.z as i128,
                SCALE as i128,
            ) as i64,
            z: fxdiv(
                self.x as i128 * rhs.y as i128 - self.y as i128 * rhs.x as i128,
                SCALE as i128,
            ) as i64,
        }
    }

    /// Euclidean length in units.
    pub fn len(&self) -> (r: i64)
        requires
            in_range(self@, LEN_ARG_MAX as int),
        ensures
            r as int == sv_len(self@),
            0 <= r <= 6_000_000_000_000_000_000,
            (r as int) * (r as int) <= sv_norm2(self@),
            sv_norm2(self@) < (r as int + 1) * (r as int + 1),
            (r == 0 <==> self@ == (V3 { x: 0, y: 0, z: 0 })),
    {
        proof {
            lemma_mul_abs_le(self@.x, LEN_ARG_MAX as int, self@.x, LEN_ARG_MAX as int);
            lemma_mul_abs_le(self@.y, LEN_ARG_MAX as int, self@.y, LEN_ARG_MAX as int);
            lemma_mul_abs_le(self@.z, LEN_ARG_MAX as int, self@.z, LEN_ARG_MAX as int);
            assert(self@.x * self@.x >= 0) by (nonlinear_arith);
            assert(self@.y * self@.y >= 0) by (nonlinear_arith);
            assert(self@.z * self@.z >= 0) by (nonlinear_arith);
            assert(self@.x != 0 ==> self@.x * self@.x >= 1) by (nonlinear_arith);
            assert(self@.y != 0 ==> self@.y * self@.y >= 1) by (nonlinear_arith);
            assert(self@.z != 0 ==> self@.z * self@.z >= 1) by (nonlinear_arith);
        }
        let raw: i128 = self.x as i128 * self.x as i128 + self.y as i128 * self.y as i128
            + self.z as i128 * self.z as i128;
        let rq = isqrt(raw as u128);
        proof {
            assert(rq as int <= 6_000_000_000_000_000_000) by (nonlinear_arith)
                requires
                    (rq as int) * (rq as int) <= raw as int,
                    raw as int <= 3 * ((LEN_ARG_MAX as int) * (LEN_ARG_MAX as int)),
                    LEN_ARG_MAX as int == 3_000_000_000_000_000_000,
                    0 <= rq as int,
            ;
        }
        let r = rq as i64;
        proof {
            if self@ == (V3 { x: 0, y: 0, z: 0 }) {
                lemma_sqrt_floor_unique(0, 0);
            }
            assert(0 <= raw as int);
            assert((raw as u128) as int == raw as int);
            if raw as int >= 1 {
                assert(1 <= rq as int) by (nonlinear_arith)
                    requires
                        1 <= raw as int,
                        (raw as int) < (rq as int + 1) * (rq as int + 1),
                        0 <= rq as int,
                ;
            }
        }
        r
    }

    /// Normalize: rescale so the length is one unit.  The input must be
    /// nonzero; the result has unit shape ([`unitish`]).
    pub fn norm(&self) -> (r: Vec3)
        requires
            in_range(self@, LEN_ARG_MAX as int),
            self@ != (V3 { x: 0, y: 0, z: 0 }),
        ensures
            r@ == sv_norm(self@),
            unitish(r@),
    {
        let l = self.len();
        proof {
            lemma_norm_shape(self@, l as int);
        }
        let r = Vec3 {
            x: fxdiv(self.x as i128 * SCALE as i128, l as i128) as i64,
            y: fxdiv(self.y as i128 * SCALE as i128, l as i128) as i64,
            z: fxdiv(self.z as i128 * SCALE as i128, l as i128) as i64,
        };
        r
    }

    /// Euler rotation by three angles (their sine/cosine pairs), about the
    /// X, then Y, then Z axes, as one composed matrix.
    pub fn rotate(&self, ax: Angle, ay: Angle, az: Angle) -> (r: Vec3)
        requires
            in_range(self@, ROT_ARG_MAX as int),
            angle_wf(ax@),
            angle_wf(ay@),
            angle_wf(az@),
        ensures
            r@ == sv_rotate(self@, ax@, ay@, az@),
            in_range(r@, 6 * ROT_ARG_MAX as int),
    {
        let rx = rot_entry_row_x(ax, ay, az);
        let ry = rot_entry_row_y(ax, ay, az);
        let rz = rot_entry_row_z(ax, ay, az);
        proof {
            lemma_rot_dot_fits(self@, rx@);
            lemma_rot_dot_fits(self@, ry@);
            lemma_rot_dot_fits(self@, rz@);
        }
        Vec3 { x: self.dot(rx), y: self.dot(ry), z: self.dot(rz) }
    }

    /// Rotate as if anchored at `p`: translate so `p` is the origin, rotate,
    /// translate back.
    pub fn rotate_by_point(&self, ax: Angle, ay: Angle, az: Angle, p: Point3) -> (r: Vec3)
        requires
            in_range(self@, RBP_ARG_MAX as int),
            in_range(p@, RBP_ARG_MAX as int),
            angle_wf(ax@),
            angle_wf(ay@),
            angle_wf(az@),
        ensures
            r@ == sv_rotate_by_point(self@, ax@, ay@, az@, p@),
            in_range(r@, 18 * RBP_ARG_MAX as int),
    {
        let end = self.add(p);
        let rot_end = end.rotate(ax, ay, az);
        let rot_begin = p.rotate(ax, ay, az);
        proof {
            lemma_rotate_range(end@, ax@, ay@, az@, 2 * RBP_ARG_MAX as int);
            lemma_rotate_range(p@, ax@, ay@, az@, RBP_ARG_MAX as int);
        }
        rot_end.sub(rot_begin)
    }

    /// Distance from this point to another.
    pub fn distance(&self, other: Point3) -> (r: i64)
        requires
            in_range(self@, (LEN_ARG_MAX / 2) as int),
            in_range(other@, (LEN_ARG_MAX / 2) as int),
        ensures
            r as int == sv_dist(self@, other@),
            0 <= r <= 6_000_000_000_000_000_000,
    {
        self.sub(other).len()
    }
}

impl Angle {
    /// Build an angle from a scaled sine/cosine pair, clamping both into the
    /// fixed-point unit interval.
    pub fn new(sin: i64, cos: i64) -> (r: Angle)
        ensures
            angle_wf(r@),
            -SCALE <= sin <= SCALE ==> r.sin == sin,
            -SCALE <= cos <= SCALE ==> r.cos == cos,
    {
        let s = crate::fixed::clamp64(sin, -SCALE, SCALE);
        let c = crate::fixed::clamp64(cos, -SCALE, SCALE);
        Angle { sin: s, cos: c }
    }

    /// The zero angle: sine zero, cosine one.  Also the sine/cosine pair of
    /// a full turn, so rotating by it returns every vector unchanged.
    pub fn zero() -> (r: Angle)
        ensures
            r@ == (A2 { sin: 0, cos: SCALE as int }),
            angle_wf(r@),
    {
        Angle { sin: 0, cos: SCALE }
    }
}

/// A fixed-point multiply of two values already bounded by one unit stays
/// bounded by one unit.
fn fmul_unit(a: i64, b: i64) -> (r: i64)
    requires
        -SCALE <= a <= SCALE,
        -SCALE <= b <= SCALE,
    ensures
        r as int == fm(a as int, b as int),
        -SCALE <= r <= SCALE,
{
    proof {
        lemma_mul_abs_le(a as int, SCALE as int, b as int, SCALE as int);
        lemma_tdiv_bounds(a as int * b as int, SCALE as int, SCALE as int);
    }
    fxdiv(a as i128 * b as i128, SCALE as i128) as i64
}

/// First rotation-matrix row, as an executable vector.
fn rot_entry_row_x(ax: Angle, ay: Angle, az: Angle) -> (r: Vec3)
    requires
        angle_wf(ax@),
        angle_wf(ay@),
        angle_wf(az@),
    ensures
        r@ == rot_row_x(ax@, ay@, az@),
        in_range(r@, 2 * SCALE as int),
{
    let a = fmul_unit(az.cos, ay.cos);
    let b = fmul_unit(fmul_unit(az.cos, ay.sin), ax.sin) - fmul_unit(az.sin, ax.cos);
    let c = fmul_unit(fmul_unit(az.cos, ay.sin), ax.cos) + fmul_unit(az.sin, ax.sin);
    Vec3 { x: a, y: b, z: c }
}

/// Second rotation-matrix row, as an executable vector.
fn rot_entry_row_y(ax: Angle, ay: Angle, az: Angle) -> (r: Vec3)
    requires
        angle_wf(ax@),
        angle_wf(ay@),
        angle_wf(az@),
    ensures
        r@ == rot_row_y(ax@, ay@, az@),
        in_range(r@, 2 * SCALE as int),
{
    let a = fmul_unit(az.sin, ay.cos);
    let b = fmul_unit(fmul_unit(az.sin, ay.sin), ax.sin) + fmul_unit(az.cos, ax.cos);
    let c = fmul_unit(fmul_unit(az.sin, ay.sin), ax.cos) - fmul_unit(az.cos, ax.sin);
    Vec3 { x: a, y: b, z: c }
}

/// Third rotation-matrix row, as an executable vector.
fn rot_entry_row_z(ax: Angle, ay: Angle, az: Angle) -> (r: Vec3)
    requires
        angle_wf(ax@),
        angle_wf(ay@),
        angle_wf(az@),
    ensures
        r@ == rot_row_z(ax@, ay@, az@),
        in_range(r@, 2 * SCALE as int),
{
    let a = fmul_unit(ay.cos, ax.sin);
    let b = fmul_unit(ay.cos, ax.cos);
    Vec3 { x: -ay.sin, y: a, z: b }
}

/// A dot product of a vector within [`ROT_ARG_MAX`] against a matrix row
/// within two units fits comfortably in 64 bits.
proof fn lemma_rot_dot_fits(v: V3, row: V3)
    requires
        in_range(v, ROT_ARG_MAX as int),
        in_range(row, 2 * SCALE as int),
    ensures
        -(i64::MAX as int) <= sv_dot(v, row) <= i64::MAX as int,
        -(6 * ROT_ARG_MAX as int) <= sv_dot(v, row) <= 6 * ROT_ARG_MAX as int,
        in_range(row, DOT_ARG_MAX as int),
{
    lemma_mul_abs_le(v.x, ROT_ARG_MAX as int, row.x, 2 * SCALE as int);
    lemma_mul_abs_le(v.y, ROT_ARG_MAX as int, row.y, 2 * SCALE as int);
    lemma_mul_abs_le(v.z, ROT_ARG_MAX as int, row.z, 2 * SCALE as int);
    assert(6 * (ROT_ARG_MAX as int) * (SCALE as int)
        == (6 * ROT_ARG_MAX as int) * (SCALE as int)) by (nonlinear_arith);
    lemma_tdiv_bounds(sv_dot_raw(v, row), SCALE as int, 6 * ROT_ARG_MAX as int);
}

/// A rotation result is bounded by six times the input bound.
pub proof fn lemma_rotate_range(v: V3, ax: A2, ay: A2, az: A2, b: int)
    requires
        0 <= b,
        in_range(v, b),
        angle_wf(ax),
        angle_wf(ay),
        angle_wf(az),
    ensures
        in_range(sv_rotate(v, ax, ay, az), 6 * b),
{
    lemma_rot_row_range(ax, ay, az);
    lemma_rot_dot_range(v, rot_row_x(ax, ay, az), b);
    lemma_rot_dot_range(v, rot_row_y(ax, ay, az), b);
    lemma_rot_dot_range(v, rot_row_z(ax, ay, az), b);
}

/// Every entry of the rotation matrix lies within two units.
proof fn lemma_rot_row_range(ax: A2, ay: A2, az: A2)
    requires
        angle_wf(ax),
        angle_wf(ay),
        angle_wf(az),
    ensures
        in_range(rot_row_x(ax, ay, az), 2 * SCALE as int),
        in_range(rot_row_y(ax, ay, az), 2 * SCALE as int),
        in_range(rot_row_z(ax, ay, az), 2 * SCALE as int),
{
    lemma_fm_unit(az.cos, ay.cos);
    lemma_fm_unit(az.cos, ay.sin);
    lemma_fm_unit(fm(az.cos, ay.sin), ax.sin);
    lemma_fm_unit(az.sin, ax.cos);
    lemma_fm_unit(fm(az.cos, ay.sin), ax.cos);
    lemma_fm_unit(az.sin, ax.sin);
    lemma_fm_unit(az.sin, ay.cos);
    lemma_fm_unit(az.sin, ay.sin);
    lemma_fm_unit(fm(az.sin, ay.sin), ax.sin);
    lemma_fm_unit(az.cos, ax.cos);
    lemma_fm_unit(fm(az.sin, ay.sin), ax.cos);
    lemma_fm_unit(az.cos, ax.sin);
    lemma_fm_unit(ay.cos, ax.sin);
    lemma_fm_unit(ay.cos, ax.cos);
}

/// The fixed-point product of two values within one unit stays within one.
proof fn lemma_fm_unit(a: int, b: int)
    requires
        -(SCALE as int) <= a <= SCALE as int,
        -(SCALE as int) <= b <= SCALE as int,
    ensures
        -(SCALE as int) <= fm(a, b) <= SCALE as int,
{
    lemma_mul_abs_le(a, SCALE as int, b, SCALE as int);
    lemma_tdiv_bounds(a * b, SCALE as int, SCALE as int);
}

/// A dot product against a matrix row within two units is bounded by six
/// times the vector's bound.
proof fn lemma_rot_dot_range(v: V3, row: V3, b: int)
    requires
        0 <= b,
        in_range(v, b),
        in_range(row, 2 * SCALE as int),
    ensures
        -(6 * b) <= sv_dot(v, row) <= 6 * b,
{
    lemma_mul_abs_le(v.x, b, row.x, 2 * SCALE as int);
    lemma_mul_abs_le(v.y, b, row.y, 2 * SCALE as int);
    lemma_mul_abs_le(v.z, b, row.z, 2 * SCALE as int);
    assert(3 * (b * (2 * SCALE as int)) == (6 * b) * (SCALE as int)) by (nonlinear_arith);
    lemma_tdiv_bounds(sv_dot_raw(v, row), SCALE as int, 6 * b);
}

/// Shape of a normalized vector: given the length of a nonzero vector, each
/// rescaled component is within one unit and the largest is at least half.
proof fn lemma_norm_shape(v: V3, l: int)
    requires
        in_range(v, LEN_ARG_MAX as int),
        v != (V3 { x: 0, y: 0, z: 0 }),
        l == sv_len(v),
        l * l <= sv_norm2(v),
        sv_norm2(v) < (l + 1) * (l + 1),
        0 <= l,
    ensures
        1 <= l,
        unitish(sv_div(v, l)),
        in_range(sv_div(v, l), i64::MAX as int),
        sv_div(v, l) == sv_norm(v),
{
    let n2 = sv_norm2(v);
    assert(v.x * v.x >= 0 && v.y * v.y >= 0 && v.z * v.z >= 0) by (nonlinear_arith);
    assert(v.x != 0 ==> v.x * v.x >= 1) by (nonlinear_arith);
    assert(v.y != 0 ==> v.y * v.y >= 1) by (nonlinear_arith);
    assert(v.z != 0 ==> v.z * v.z >= 1) by (nonlinear_arith);
    assert(n2 >= 1);
    if l == 0 {
        assert(n2 < (0 + 1) * (0 + 1)) by (nonlinear_arith)
            requires
                n2 < (l + 1) * (l + 1),
                l == 0,
        ;
        assert(false);
    }
    // Each component is bounded by the length.
    assert(-l <= v.x <= l) by (nonlinear_arith)
        requires
            v.x * v.x <= n2,
            l * l <= n2,
            n2 < (l + 1) * (l + 1),
            0 <= l,
            v.y * v.y >= 0,
            v.z * v.z >= 0,
            n2 == v.x * v.x + v.y * v.y + v.z * v.z,
    ;
    assert(-l <= v.y <= l) by (nonlinear_arith)
        requires
            l * l <= n2,
            n2 < (l + 1) * (l + 1),
            0 <= l,
            v.x * v.x >= 0,
            v.z * v.z >= 0,
            n2 == v.x * v.x + v.y * v.y + v.z * v.z,
    ;
    assert(-l <= v.z <= l) by (nonlinear_arith)
        requires
            l * l <= n2,
            n2 < (l + 1) * (l + 1),
            0 <= l,
            v.x * v.x >= 0,
            v.y * v.y >= 0,
            n2 == v.x * v.x + v.y * v.y + v.z * v.z,
    ;
    // Components within one unit after rescaling.
    lemma_div_comp_unit(v.x, l);
    lemma_div_comp_unit(v.y, l);
    lemma_div_comp_unit(v.z, l);
    // The largest component is at least half the length, so its rescaled
    // value is at least half a unit.
    let m = if v.x >= v.y && v.x >= -v.y && v.x >= v.z && v.x >= -v.z {
        v.x
    } else if -v.x >= v.y && -v.x >= -v.y && -v.x >= v.z && -v.x >= -v.z {
        -v.x
    } else if v.y >= v.z && v.y >= -v.z {
        v.y
    } else if -v.y >= v.z && -v.y >= -v.z {
        -v.y
    } else if v.z >= 0 {
        v.z
    } else {
        -v.z
    };
    assert(m >= v.x && m >= -v.x && m >= v.y && m >= -v.y && m >= v.z && m >= -v.z);
    assert(n2 <= 3 * (m * m)) by (nonlinear_arith)
        requires
            m >= v.x && m >= -v.x && m >= v.y && m >= -v.y && m >= v.z && m >= -v.z,
            n2 == v.x * v.x + v.y * v.y + v.z * v.z,
    ;
    assert(l <= 2 * m) by (nonlinear_arith)
        requires
            l * l <= n2,
            n2 <= 3 * (m * m),
            0 <= l,
            0 <= m,
    ;
    // m * SCALE >= HALF_SCALE * l, so the rescaled component reaches half.
    assert(m * SCALE as int >= HALF_SCALE as int * l) by (nonlinear_arith)
        requires
            l <= 2 * m,
            0 <= m,
    ;
    lemma_tdiv_lower(m * SCALE as int, l, HALF_SCALE as int);
    // tdiv is odd, so the bound transfers to whichever signed component m is.
    assert(tdiv((-m) * SCALE as int, l) == -tdiv(m * SCALE as int, l)) by {
        assert((-m) * SCALE as int == -(m * SCALE as int)) by (nonlinear_arith);
    }
}

/// Range of a dot product from ranges of its arguments: if the raw product
/// sum is within `k * SCALE`, the scaled dot product is within `k`.
pub proof fn lemma_dot_range(a: V3, b: V3, ba: int, bb: int, k: int)
    requires
        0 <= ba,
        0 <= bb,
        0 <= k,
        in_range(a, ba),
        in_range(b, bb),
        3 * (ba * bb) <= k * SCALE as int,
    ensures
        -(3 * (ba * bb)) <= sv_dot_raw(a, b) <= 3 * (ba * bb),
        -k <= sv_dot(a, b) <= k,
{
    lemma_mul_abs_le(a.x, ba, b.x, bb);
    lemma_mul_abs_le(a.y, ba, b.y, bb);
    lemma_mul_abs_le(a.z, ba, b.z, bb);
    lemma_tdiv_bounds(sv_dot_raw(a, b), SCALE as int, k);
}

/// Range of a cross product from ranges of its arguments: if twice the raw
/// component product is within `k * SCALE`, the result is within `k`.
pub proof fn lemma_cross_range(a: V3, b: V3, ba: int, bb: int, k: int)
    requires
        0 <= ba,
        0 <= bb,
        0 <= k,
        in_range(a, ba),
        in_range(b, bb),
        2 * (ba * bb) <= k * SCALE as int,
    ensures
        in_range(sv_cross(a, b), k),
{
    lemma_mul_abs_le(a.y, ba, b.z, bb);
    lemma_mul_abs_le(a.z, ba, b.y, bb);
    lemma_mul_abs_le(a.z, ba, b.x, bb);
    lemma_mul_abs_le(a.x, ba, b.z, bb);
    lemma_mul_abs_le(a.x, ba, b.y, bb);
    lemma_mul_abs_le(a.y, ba, b.x, bb);
    lemma_tdiv_bounds(a.y * b.z - a.z * b.y, SCALE as int, k);
    lemma_tdiv_bounds(a.z * b.x - a.x * b.z, SCALE as int, k);
    lemma_tdiv_bounds(a.x * b.y - a.y * b.x, SCALE as int, k);
}

/// Range of a scalar rescale: if the component-scalar product is within
/// `k * SCALE`, the result is within `k`.
pub proof fn lemma_scale_range(a: V3, ba: int, s: int, bs: int, k: int)
    requires
        0 <= ba,
        0 <= bs,
        0 <= k,
        in_range(a, ba),
        -bs <= s <= bs,
        ba * bs <= k * SCALE as int,
    ensures
        in_range(sv_scale(a, s), k),
{
    lemma_mul_abs_le(a.x, ba, s, bs);
    lemma_mul_abs_le(a.y, ba, s, bs);
    lemma_mul_abs_le(a.z, ba, s, bs);
    lemma_tdiv_bounds(a.x * s, SCALE as int, k);
    lemma_tdiv_bounds(a.y * s, SCALE as int, k);
    lemma_tdiv_bounds(a.z * s, SCALE as int, k);
}

/// The scaled dot product of a normalized vector with itself lies between a
/// quarter and three times the unit.
pub proof fn lemma_unit_self_dot(d: V3)
    requires
        unitish(d),
    ensures
        250_000 <= sv_dot(d, d) <= 3_000_000,
{
    let s = SCALE as int;
    let h = HALF_SCALE as int;
    assert(d.x * d.x >= 0 && d.y * d.y >= 0 && d.z * d.z >= 0) by (nonlinear_arith);
    lemma_mul_abs_le(d.x, s, d.x, s);
    lemma_mul_abs_le(d.y, s, d.y, s);
    lemma_mul_abs_le(d.z, s, d.z, s);
    assert(d.x >= h || -d.x >= h ==> d.x * d.x >= h * h) by (nonlinear_arith)
        requires
            0 <= h,
    ;
    assert(d.y >= h || -d.y >= h ==> d.y * d.y >= h * h) by (nonlinear_arith)
        requires
            0 <= h,
    ;
    assert(d.z >= h || -d.z >= h ==> d.z * d.z >= h * h) by (nonlinear_arith)
        requires
            0 <= h,
    ;
    assert(h * h == 250_000 * s);
    assert(3 * (s * s) == 3_000_000 * s);
    lemma_tdiv_lower(sv_dot_raw(d, d), s, 250_000);
    lemma_tdiv_bounds(sv_dot_raw(d, d), s, 3_000_000);
}

/// The X axis unit vector, in fixed-point scale.
pub open spec fn unit_x() -> V3 {
    V3 { x: SCALE as int, y: 0, z: 0 }
}

/// The Y axis unit vector, in fixed-point scale.
pub open spec fn unit_y() -> V3 {
    V3 { x: 0, y: SCALE as int, z: 0 }
}

/// The Z axis unit vector, in fixed-point scale.
pub open spec fn unit_z() -> V3 {
    V3 { x: 0, y: 0, z: SCALE as int }
}

/// The axis unit vectors form an orthonormal basis, exactly: each has unit
/// dot product with itself, the dot product of two distinct axes is zero,
/// and the cross products cycle (`x cross y == z` and its rotations).
pub proof fn lemma_basis_products()
    ensures
        sv_dot(unit_x(), unit_x()) == SCALE as int,
        sv_dot(unit_y(), unit_y()) == SCALE as int,
        sv_dot(unit_z(), unit_z()) == SCALE as int,
        sv_dot(unit_x(), unit_y()) == 0,
        sv_dot(unit_y(), unit_z()) == 0,
        sv_dot(unit_z(), unit_x()) == 0,
        sv_cross(unit_x(), unit_y()) == unit_z(),
        sv_cross(unit_y(), unit_z()) == unit_x(),
        sv_cross(unit_z(), unit_x()) == unit_y(),
{
    let s = SCALE as int;
    lemma_tdiv_exact(s, s);
    lemma_tdiv_exact(0, s);
    assert(s * s - 0 * 0 == s * s) by (nonlinear_arith);
}

/// Rotating by a full turn about any single axis is the identity, exactly:
/// the sine/cosine pair of a full turn equals that of the zero angle
/// (sine zero, cosine one), and rotating with that pair on every axis
/// returns the vector unchanged.
pub proof fn lemma_rotate_full_turn(v: V3)
    ensures
        sv_rotate(
            v,
            A2 { sin: 0, cos: SCALE as int },
            A2 { sin: 0, cos: SCALE as int },
            A2 { sin: 0, cos: SCALE as int },
        ) == v,
{
    let s = SCALE as int;
    let id = A2 { sin: 0, cos: s };
    lemma_tdiv_exact(s, s);
    lemma_tdiv_exact(0, s);
    assert(fm(s, s) == s);
    assert(fm(s, 0) == 0 && fm(0, s) == 0 && fm(0, 0) == 0);
    assert(rot_row_x(id, id, id) == (V3 { x: s, y: 0, z: 0 }));
    assert(rot_row_y(id, id, id) == (V3 { x: 0, y: s, z: 0 }));
    assert(rot_row_z(id, id, id) == (V3 { x: 0, y: 0, z: s }));
    lemma_tdiv_exact(v.x, s);
    lemma_tdiv_exact(v.y, s);
    lemma_tdiv_exact(v.z, s);
    assert(sv_dot(v, V3 { x: s, y: 0, z: 0 }) == v.x) by {
        assert(v.x * s + v.y * 0 + v.z * 0 == v.x * s);
    }
    assert(sv_dot(v, V3 { x: 0, y: s, z: 0 }) == v.y) by {
        assert(v.x * 0 + v.y * s + v.z * 0 == v.y * s);
    }
    assert(sv_dot(v, V3 { x: 0, y: 0, z: s }) == v.z) by {
        assert(v.x * 0 + v.y * 0 + v.z * s == v.z * s);
    }
}

/// A quarter turn about the X axis, pivoting at the Y axis unit point,
/// carries the Z axis unit vector to the negative Y axis unit vector,
/// exactly.
pub proof fn lemma_quarter_turn_about_pivot()
    ensures
        sv_rotate_by_point(
            unit_z(),
            A2 { sin: SCALE as int, cos: 0 },
            A2 { sin: 0, cos: SCALE as int },
            A2 { sin: 0, cos: SCALE as int },
            unit_y(),
        ) == (V3 { x: 0, y: -(SCALE as int), z: 0 }),
{
    let s = SCALE as int;
    let ax = A2 { sin: s, cos: 0 };
    let id = A2 { sin: 0, cos: s };
    lemma_tdiv_exact(s, s);
    lemma_tdiv_exact(0, s);
    lemma_tdiv_exact(-s, s);
    assert((-s) * s == -(s * s)) by (nonlinear_arith);
    assert(fm(s, s) == s && fm(s, 0) == 0 && fm(0, s) == 0 && fm(0, 0) == 0);
    assert(rot_row_x(ax, id, id) == (V3 { x: s, y: 0, z: 0 }));
    assert(rot_row_y(ax, id, id) == (V3 { x: 0, y: 0, z: -s })) by {
        assert(fm(fm(0, 0), s) == 0);
        assert(fm(fm(0, 0), 0) == 0);
    }
    assert(rot_row_z(ax, id, id) == (V3 { x: 0, y: s, z: 0 }));
    let end = sv_add(unit_z(), unit_y());
    assert(end == (V3 { x: 0, y: s, z: s }));
    assert(sv_rotate(end, ax, id, id) == (V3 { x: 0, y: -s, z: s })) by {
        assert(0 * s + s * 0 + s * 0 == 0);
        assert(0 * 0 + s * 0 + s * (-s) == -(s * s)) by (nonlinear_arith);
        assert(0 * 0 + s * s + s * 0 == s * s);
        lemma_tdiv_exact(-s, s);
    }
    assert(sv_rotate(unit_y(), ax, id, id) == (V3 { x: 0, y: 0, z: s })) by {
        assert(0 * s + s * 0 + 0 * 0 == 0);
        assert(0 * 0 + s * 0 + 0 * (-s) == 0);
        assert(0 * 0 + s * s + 0 * 0 == s * s);
    }
}

/// A component bounded by the (positive) length rescales to within one unit.
proof fn lemma_div_comp_unit(c: int, l: int)
    requires
        1 <= l,
        -l <= c <= l,
    ensures
        -(SCALE as int) <= tdiv(c * SCALE as int, l) <= SCALE as int,
{
    lemma_mul_abs_le(c, l, SCALE as int, SCALE as int);
    assert(l * (SCALE as int) == (SCALE as int) * l) by (nonlinear_arith);
    lemma_tdiv_bounds(c * SCALE as int, l, SCALE as int);
}

} // verus!
