//! Geometric primitives and their ray-intersection routines: plane, sphere
//! and triangle (polygon), plus the shared hit post-processing that orients
//! the surface normal toward the viewer, computes the mirrored direction and
//! nudges the hit point off the surface.
//!
//! Each `intersection` returns `Some((point, reflected_direction, normal))`
//! exactly when its specification mirror does, and the contract says which
//! triple comes back.  A hit farther along the ray than [`FAR_T`] or outside
//! the [`HIT_MAX`] world cube counts as a miss.

use vstd::prelude::*;
use crate::fixed::{
    tdiv, sdiv, sqrt_floor, fxdiv, fxdiv_s, isqrt, lemma_mul_abs_le,
    lemma_tdiv_bounds, BIAS, FAR_T, GEOM_MAX, HIT_MAX, RAY_ORIGIN_MAX, SCALE,
};
use crate::vector::{
    in_range, sv_add, sv_cross, sv_dot, sv_dot_raw, sv_neg, sv_norm, sv_scale,
    sv_sub, unitish, lemma_cross_range, lemma_dot_range, lemma_scale_range,
    lemma_unit_self_dot, Point3, Vec3, V3, LEN_ARG_MAX,
};
use crate::ray::{ray_wf, Ray, RayV};

verus! {

/// Largest component magnitude of an intersection candidate point, before
/// the world-cube check: a ray origin plus at most [`FAR_T`] of travel.
pub const HIT_CAND_MAX: i64 = 4_000_000_000_000;

/// The value of a hit: the nudged hit point, the mirrored direction and the
/// viewer-facing unit normal.
pub struct HitV {
    pub point: V3,
    pub reflect_dir: V3,
    pub normal: V3,
}

/// Mirror reflection of `v` about the unit normal `n`:
/// `v - 2 (v . n) n`.
pub open spec fn s_reflect(v: V3, n: V3) -> V3 {
    sv_sub(v, sv_scale(n, 2 * sv_dot(v, n)))
}

/// Shared hit post-processing.  Normalizes the raw normal, flips it toward
/// the viewer if needed, mirrors the ray direction about it, and nudges the
/// hit point by [`BIAS`] along the corrected normal.  Misses are: a zero raw
/// normal, a hit point outside the world cube, and a mirrored direction that
/// collapses to zero at fixed-point resolution.
pub open spec fn s_fix_point_reflect(p: V3, v: V3, n_raw: V3) -> Option<HitV> {
    if n_raw == (V3 { x: 0, y: 0, z: 0 }) {
        None
    } else if !in_range(p, HIT_MAX as int) {
        None
    } else {
        let n0 = sv_norm(n_raw);
        let n1 = if sv_dot(n0, v) > 0 {
            sv_neg(n0)
        } else {
            n0
        };
        let rdir = s_reflect(v, n1);
        if rdir == (V3 { x: 0, y: 0, z: 0 }) {
            None
        } else {
            Some(
                HitV {
                    point: sv_add(p, sv_scale(n1, BIAS as int)),
                    reflect_dir: rdir,
                    normal: n1,
                },
            )
        }
    }
}

/// What every produced hit satisfies: the nudged point can serve as a ray
/// origin, the mirrored direction is nonzero and small, and the normal is
/// normalized.
pub open spec fn hit_wf(h: HitV) -> bool {
    &&& in_range(h.point, RAY_ORIGIN_MAX as int)
    &&& in_range(h.reflect_dir, 7 * SCALE as int)
    &&& h.reflect_dir != (V3 { x: 0, y: 0, z: 0 })
    &&& unitish(h.normal)
}

/// The executable result agrees with the specification hit, member by
/// member.
pub open spec fn hit_matches(r: Option<(Point3, Vec3, Vec3)>, s: Option<HitV>) -> bool {
    match (r, s) {
        (Some(t), Some(h)) => t.0@ == h.point && t.1@ == h.reflect_dir && t.2@ == h.normal,
        (None, None) => true,
        _ => false,
    }
}

/// The executable point agrees with the specification point.
pub open spec fn opt_point_matches(r: Option<Point3>, s: Option<V3>) -> bool {
    match (r, s) {
        (Some(p), Some(q)) => p@ == q,
        (None, None) => true,
        _ => false,
    }
}

/// Ray-plane intersection for a normalized plane normal `n` and offset `d`:
/// a miss when the scaled dot of normal and direction truncates to zero
/// (the ray is parallel to the plane), when the plane lies behind the ray,
/// and when the hit is farther than [`FAR_T`].
pub open spec fn s_intersect_plane(ray: RayV, n: V3, d: int) -> Option<V3> {
    let den = sv_dot(n, ray.direction);
    if den == 0 {
        None
    } else {
        let t = sdiv(-(sv_dot(n, ray.point) + d) * SCALE as int, den);
        if t < 0 || t > FAR_T as int {
            None
        } else {
            Some(sv_add(ray.point, sv_scale(ray.direction, t)))
        }
    }
}

/// A well-formed plane: normalized normal, offset within [`FAR_T`].
pub open spec fn plane_wf(n: V3, d: int) -> bool {
    &&& unitish(n)
    &&& -(FAR_T as int) <= d <= FAR_T as int
}

/// Hit of a ray against a plane.
pub open spec fn s_plane_hit(n: V3, d: int, ray: RayV) -> Option<HitV> {
    match s_intersect_plane(ray, n, d) {
        None => None,
        Some(p) => s_fix_point_reflect(p, ray.direction, n),
    }
}

/// A well-formed sphere: center in the scene cube, radius nonnegative and
/// bounded by it.
pub open spec fn sphere_wf(center: V3, radius: int) -> bool {
    &&& in_range(center, GEOM_MAX as int)
    &&& 0 <= radius <= GEOM_MAX as int
}

/// Hit of a ray against a sphere, by the quadratic in the ray parameter:
/// a negative discriminant is a miss; otherwise the smaller root is
/// preferred and the larger is the fallback when the smaller lies behind
/// the ray; both behind is a miss.
pub open spec fn s_sphere_hit(center: V3, radius: int, ray: RayV) -> Option<HitV> {
    let oc = sv_sub(ray.point, center);
    let a = sv_dot(ray.direction, ray.direction);
    let b = 2 * sv_dot(ray.direction, oc);
    let c = sv_dot(oc, oc) - tdiv(radius * radius, SCALE as int);
    let det = b * b - 4 * (a * c);
    if det < 0 {
        None
    } else {
        let sq = sqrt_floor(det);
        let t1 = sdiv((-b - sq) * SCALE as int, 2 * a);
        let t2 = sdiv((-b + sq) * SCALE as int, 2 * a);
        let t = if t1 >= 0 {
            t1
        } else {
            t2
        };
        if t < 0 || t > FAR_T as int {
            None
        } else {
            let p = sv_add(ray.point, sv_scale(ray.direction, t));
            s_fix_point_reflect(p, ray.direction, sv_sub(p, center))
        }
    }
}

/// A well-formed polygon: all three vertices in the scene cube.
pub open spec fn polygon_wf(p0: V3, p1: V3, p2: V3) -> bool {
    &&& in_range(p0, GEOM_MAX as int)
    &&& in_range(p1, GEOM_MAX as int)
    &&& in_range(p2, GEOM_MAX as int)
}

/// Half-plane test for one ordered edge: the raw dot of the plane normal
/// with `(edge cross (hit - edge_start))` is nonnegative.
pub open spec fn s_edge_ok(n: V3, pb: V3, pe: V3, pt: V3) -> bool {
    sv_dot_raw(n, sv_cross(sv_sub(pe, pb), sv_sub(pt, pb))) >= 0
}

/// Hit of a ray against a triangle: intersect its supporting plane, then
/// require the hit to pass the half-plane test of every ordered edge.
/// A degenerate triangle (zero cross product of its edges) never hits.
pub open spec fn s_polygon_hit(p0: V3, p1: V3, p2: V3, ray: RayV) -> Option<HitV> {
    let n_raw = sv_cross(sv_sub(p1, p0), sv_sub(p2, p0));
    if n_raw == (V3 { x: 0, y: 0, z: 0 }) {
        None
    } else {
        let n = sv_norm(n_raw);
        let d = -sv_dot(n, p0);
        match s_intersect_plane(ray, n, d) {
            None => None,
            Some(pt) => {
                if s_edge_ok(n, p0, p1, pt) && s_edge_ok(n, p1, p2, pt)
                    && s_edge_ok(n, p2, p0, pt) {
                    s_fix_point_reflect(pt, ray.direction, n)
                } else {
                    None
                }
            },
        }
    }
}

/// A ray parallel to a plane — the scaled dot product of the plane's
/// normal and the ray's direction truncates to zero — never intersects
/// it, whatever the ray's origin and the plane's offset.
pub proof fn lemma_parallel_plane_misses(n: V3, d: int, ray: RayV)
    requires
        sv_dot(n, ray.direction) == 0,
    ensures
        s_intersect_plane(ray, n, d) is None,
        s_plane_hit(n, d, ray) is None,
{
}

/// The raw (unscaled) dot product, computed at full width.
fn dot_raw128(a: Vec3, b: Vec3) -> (r: i128)
    requires
        in_range(a@, 3_000_000_000_000),
        in_range(b@, i64::MAX as int),
    ensures
        r as int == sv_dot_raw(a@, b@),
{
    proof {
        lemma_mul_abs_le(a@.x, 3_000_000_000_000, b@.x, i64::MAX as int);
        lemma_mul_abs_le(a@.y, 3_000_000_000_000, b@.y, i64::MAX as int);
        lemma_mul_abs_le(a@.z, 3_000_000_000_000, b@.z, i64::MAX as int);
    }
    a.x as i128 * b.x as i128 + a.y as i128 * b.y as i128 + a.z as i128 * b.z as i128
}

/// Executable hit post-processing; see [`s_fix_point_reflect`].
fn fix_point_reflect(p: Point3, v: Vec3, n: Vec3) -> (r: Option<(Point3, Vec3, Vec3)>)
    requires
        in_range(p@, HIT_CAND_MAX as int),
        unitish(v@),
        in_range(n@, LEN_ARG_MAX as int),
    ensures
        hit_matches(r, s_fix_point_reflect(p@, v@, n@)),
        (match s_fix_point_reflect(p@, v@, n@) {
            Some(h) => hit_wf(h),
            None => true,
        }),
{
    if n.x == 0 && n.y == 0 && n.z == 0 {
        return None;
    }
    if p.x > HIT_MAX || p.x < -HIT_MAX || p.y > HIT_MAX || p.y < -HIT_MAX || p.z > HIT_MAX
        || p.z < -HIT_MAX {
        return None;
    }
    let n0 = n.norm();
    proof {
        lemma_dot_range(n0@, v@, SCALE as int, SCALE as int, 3_000_000);
    }
    let dv = n0.dot(v);
    let n1 = if dv > 0 {
        Vec3 { x: -n0.x, y: -n0.y, z: -n0.z }
    } else {
        n0
    };
    proof {
        lemma_dot_range(v@, n1@, SCALE as int, SCALE as int, 3_000_000);
    }
    let dvn = v.dot(n1);
    let k2: i64 = 2 * dvn;
    proof {
        lemma_scale_range(n1@, SCALE as int, k2 as int, 6_000_000, 6 * SCALE as int);
    }
    let scaled = n1.mul(k2);
    let rdir = v.sub(scaled);
    if rdir.x == 0 && rdir.y == 0 && rdir.z == 0 {
        return None;
    }
    proof {
        lemma_scale_range(n1@, SCALE as int, BIAS as int, BIAS as int, BIAS as int);
    }
    let offset = n1.mul(BIAS);
    let pb = p.add(offset);
    Some((pb, rdir, n1))
}

/// Executable ray-plane intersection; see [`s_intersect_plane`].
fn intersect_plane(ray: &Ray, n: Vec3, d: i64) -> (r: Option<Point3>)
    requires
        ray_wf(ray@),
        plane_wf(n@, d as int),
    ensures
        opt_point_matches(r, s_intersect_plane(ray@, n@, d as int)),
        (match s_intersect_plane(ray@, n@, d as int) {
            Some(q) => in_range(q, HIT_CAND_MAX as int),
            None => true,
        }),
{
    proof {
        lemma_dot_range(n@, ray@.direction, SCALE as int, SCALE as int, 3_000_000);
        lemma_dot_range(n@, ray@.point, SCALE as int, RAY_ORIGIN_MAX as int,
            7_000_000_000_000);
    }
    let den = n.dot(ray.direction);
    if den == 0 {
        return None;
    }
    let no = n.dot(ray.point);
    let num: i64 = -(no + d);
    let t128 = fxdiv_s(num as i128 * SCALE as i128, den as i128);
    if t128 < 0 {
        return None;
    }
    if t128 > FAR_T as i128 {
        return None;
    }
    let t = t128 as i64;
    proof {
        lemma_scale_range(ray@.direction, SCALE as int, t as int, FAR_T as int,
            FAR_T as int);
    }
    let disp = ray.direction.mul(t);
    let pt = ray.point.add(disp);
    Some(pt)
}

/// A triangle given by its three vertices.
pub struct Polygon(pub Point3, pub Point3, pub Point3);

/// A sphere given by its center and radius.
pub struct Sphere(pub Point3, pub i64);

/// A plane given by its unit normal and scaled offset from the origin.
pub struct Plane(pub Vec3, pub i64);

impl Plane {
    /// Intersect a ray with the plane.
    pub fn intersection(&self, ray: &Ray) -> (r: Option<(Point3, Vec3, Vec3)>)
        requires
            ray_wf(ray@),
            plane_wf(self.0@, self.1 as int),
        ensures
            hit_matches(r, s_plane_hit(self.0@, self.1 as int, ray@)),
            (match s_plane_hit(self.0@, self.1 as int, ray@) {
                Some(h) => hit_wf(h),
                None => true,
            }),
    {
        match intersect_plane(ray, self.0, self.1) {
            None => None,
            Some(p) => fix_point_reflect(p, ray.direction, self.0),
        }
    }
}

impl Sphere {
    /// Intersect a ray with the sphere.
    pub fn intersection(&self, ray: &Ray) -> (r: Option<(Point3, Vec3, Vec3)>)
        requires
            ray_wf(ray@),
            sphere_wf(self.0@, self.1 as int),
        ensures
            hit_matches(r, s_sphere_hit(self.0@, self.1 as int, ray@)),
            (match s_sphere_hit(self.0@, self.1 as int, ray@) {
                Some(h) => hit_wf(h),
                None => true,
            }),
    {
        let oc = ray.point.sub(self.0);
        proof {
            lemma_unit_self_dot(ray@.direction);
            lemma_dot_range(ray@.direction, ray@.direction, SCALE as int, SCALE as int,
                3_000_000);
            lemma_dot_range(ray@.direction, oc@, SCALE as int, 2_500_000_001_000,
                8_000_000_000_000);
            lemma_dot_range(oc@, oc@, 2_500_000_001_000, 2_500_000_001_000,
                20_000_000_000_000_000_000);
            lemma_mul_abs_le(self.1 as int, GEOM_MAX as int, self.1 as int,
                GEOM_MAX as int);
            lemma_tdiv_bounds(self.1 as int * self.1 as int, SCALE as int,
                250_000_000_000_000_000);
        }
        let a: i64 = ray.direction.dot(ray.direction);
        let b128: i128 = 2 * fxdiv(dot_raw128(ray.direction, oc), SCALE as i128);
        let c128: i128 = fxdiv(dot_raw128(oc, oc), SCALE as i128)
            - fxdiv(self.1 as i128 * self.1 as i128, SCALE as i128);
        proof {
            lemma_mul_abs_le(b128 as int, 16_000_000_000_000, b128 as int,
                16_000_000_000_000);
            lemma_mul_abs_le(a as int, 3_000_000, c128 as int,
                20_250_000_000_000_000_000);
        }
        let det: i128 = b128 * b128 - 4 * (a as i128 * c128);
        if det < 0 {
            return None;
        }
        let sq = isqrt(det as u128);
        proof {
            assert(sq as int <= 30_000_000_000_000) by (nonlinear_arith)
                requires
                    (sq as int) * (sq as int) <= det as int,
                    det as int <= 900_000_000_000_000_000_000_000_000,
                    0 <= sq as int,
            ;
        }
        let sq128 = sq as i128;
        let t1 = fxdiv((-b128 - sq128) * SCALE as i128, 2 * a as i128);
        let t2 = fxdiv((-b128 + sq128) * SCALE as i128, 2 * a as i128);
        let t128 = if t1 >= 0 {
            t1
        } else {
            t2
        };
        if t128 < 0 {
            return None;
        }
        if t128 > FAR_T as i128 {
            return None;
        }
        let t = t128 as i64;
        proof {
            lemma_scale_range(ray@.direction, SCALE as int, t as int, FAR_T as int,
                FAR_T as int);
        }
        let disp = ray.direction.mul(t);
        let p = ray.point.add(disp);
        let ns = p.sub(self.0);
        fix_point_reflect(p, ray.direction, ns)
    }
}

/// Executable half-plane test for one ordered edge; see [`s_edge_ok`].
fn edge_ok(n: Vec3, pb: Point3, pe: Point3, pt: Point3) -> (r: bool)
    requires
        unitish(n@),
        in_range(pb@, GEOM_MAX as int),
        in_range(pe@, GEOM_MAX as int),
        in_range(pt@, HIT_CAND_MAX as int),
    ensures
        r == s_edge_ok(n@, pb@, pe@, pt@),
{
    let e = pe.sub(pb);
    let q = pt.sub(pb);
    proof {
        lemma_cross_range(e@, q@, 2 * GEOM_MAX as int, 4_500_000_000_000,
            9_000_000_000_000_000_000);
    }
    let c = e.cross(q);
    let s = dot_raw128(n, c);
    s >= 0
}

impl Polygon {
    /// Intersect a ray with the triangle.
    pub fn intersection(&self, ray: &Ray) -> (r: Option<(Point3, Vec3, Vec3)>)
        requires
            ray_wf(ray@),
            polygon_wf(self.0@, self.1@, self.2@),
        ensures
            hit_matches(r, s_polygon_hit(self.0@, self.1@, self.2@, ray@)),
            (match s_polygon_hit(self.0@, self.1@, self.2@, ray@) {
                Some(h) => hit_wf(h),
                None => true,
            }),
    {
        let e1 = self.1.sub(self.0);
        let e2 = self.2.sub(self.0);
        proof {
            lemma_cross_range(e1@, e2@, 2 * GEOM_MAX as int, 2 * GEOM_MAX as int,
                2_000_000_000_000_000_000);
        }
        let n_raw = e1.cross(e2);
        if n_raw.x == 0 && n_raw.y == 0 && n_raw.z == 0 {
            return None;
        }
        let n = n_raw.norm();
        proof {
            lemma_dot_range(n@, self.0@, SCALE as int, GEOM_MAX as int,
                1_500_000_000_000);
        }
        let dd = n.dot(self.0);
        let d: i64 = -dd;
        match intersect_plane(ray, n, d) {
            None => None,
            Some(pt) => {
                if edge_ok(n, self.0, self.1, pt) && edge_ok(n, self.1, self.2, pt)
                    && edge_ok(n, self.2, self.0, pt) {
                    fix_point_reflect(pt, ray.direction, n)
                } else {
                    None
                }
            },
        }
    }
}

} // verus!
