//! The camera: position, view direction, focal distance and the two screen
//! basis vectors, with the pixel-to-ray mapping and the in-place transforms
//! the host drives.
//!
//! A transform that would push the camera outside its representable range
//! (screen vectors beyond [`SCREEN_MAX`], the focal distance outside
//! `[1, DIST_MAX]`, the position outside the scene cube, or a rotation that
//! collapses the direction to zero at fixed-point resolution) leaves the
//! camera unchanged; the contract says exactly when that happens.

use vstd::prelude::*;
use crate::fixed::{fxdiv, tdiv, GEOM_MAX, HALF_SCALE, SCALE};
use crate::ray::{ray_wf, Ray, RayV};
use crate::vector::{
    angle_wf, in_range, sv_add, sv_cross, sv_norm, sv_norm2, sv_rotate, sv_rotate_by_point,
    sv_scale, unitish, lemma_rotate_range, lemma_scale_range, Angle, Point3, Vec3,
    A2, V3,
};

verus! {

/// Largest magnitude, in units, of a screen basis vector component.
pub const SCREEN_MAX: i64 = 1_000_000_000_000;

/// Largest focal distance, in units.
pub const DIST_MAX: i64 = 1_000_000_000_000;

/// Largest screen resolution, per axis, in pixels.
pub const RES_MAX: u32 = 65536;

/// The unbounded-integer value of a [`Camera`].
pub struct CamV {
    pub position: V3,
    pub direction: V3,
    pub distance: int,
    pub screen_x: V3,
    pub screen_y: V3,
    pub width: int,
    pub height: int,
}

/// A camera transform command.  Scalars are fixed-point; rotations carry the
/// sine/cosine pair of their angle, evaluated by the host.
/// `RotateVertical` carries the two pairs for the angle as decomposed onto
/// the camera's current right axis (see [`Camera::vertical_axis`]): first
/// the X-axis share, then the Z-axis share.
#[derive(Clone, Copy, Debug)]
pub enum CameraTransform {
    ScaleScreen(i64),
    ScaleDistance(i64),
    Move(i64),
    RotateHorizontal(Angle),
    RotateVertical(Angle, Angle),
}

/// Camera state: position, unit view direction, focal distance, the screen
/// basis spanning the image plane, and the resolution.
#[derive(Clone, Copy, Debug)]
pub struct Camera {
    pub position: Point3,
    pub direction: Vec3,
    pub distance: i64,
    pub screen_x: Vec3,
    pub screen_y: Vec3,
    pub screen_width: u32,
    pub screen_height: u32,
}

impl View for Camera {
    type V = CamV;

    open spec fn view(&self) -> CamV {
        CamV {
            position: self.position@,
            direction: self.direction@,
            distance: self.distance as int,
            screen_x: self.screen_x@,
            screen_y: self.screen_y@,
            width: self.screen_width as int,
            height: self.screen_height as int,
        }
    }
}

/// A well-formed camera: position inside the scene cube, normalized
/// direction, focal distance and screen vectors in range, and a positive
/// resolution within [`RES_MAX`].
pub open spec fn camera_wf(c: CamV) -> bool {
    &&& in_range(c.position, GEOM_MAX as int)
    &&& unitish(c.direction)
    &&& 1 <= c.distance <= DIST_MAX as int
    &&& in_range(c.screen_x, SCREEN_MAX as int)
    &&& in_range(c.screen_y, SCREEN_MAX as int)
    &&& 1 <= c.width <= RES_MAX as int
    &&& 1 <= c.height <= RES_MAX as int
}

/// A fresh camera: half a unit above the origin, one unit back, looking
/// along positive Z, with a screen basis of one pixel per `1/width` and
/// `1/height` of a unit, pointing left and down.
pub open spec fn s_camera_new(w: int, h: int) -> CamV {
    CamV {
        position: V3 { x: 0, y: HALF_SCALE as int, z: -(SCALE as int) },
        direction: V3 { x: 0, y: 0, z: SCALE as int },
        distance: SCALE as int,
        screen_x: V3 { x: -tdiv(SCALE as int, w), y: 0, z: 0 },
        screen_y: V3 { x: 0, y: -tdiv(SCALE as int, h), z: 0 },
        width: w,
        height: h,
    }
}

/// The screen-plane offset of a pixel: its distance from the image center,
/// along each screen basis vector.
pub open spec fn s_screen_coords(c: CamV, x: int, y: int) -> V3 {
    let dx = x * SCALE as int - c.width * HALF_SCALE as int;
    let dy = y * SCALE as int - c.height * HALF_SCALE as int;
    sv_add(sv_scale(c.screen_x, dx), sv_scale(c.screen_y, dy))
}

/// The world point where a pixel's ray crosses the image plane.
pub open spec fn s_screen_intersection(c: CamV, x: int, y: int) -> V3 {
    sv_add(sv_add(c.position, sv_scale(c.direction, c.distance)), s_screen_coords(c, x, y))
}

/// The ray of a pixel: from the camera position toward the pixel's point on
/// the image plane.  Should the combined direction collapse to zero at
/// fixed-point resolution, the view direction itself is used.
pub open spec fn s_get_ray(c: CamV, x: int, y: int) -> RayV {
    let cand = sv_add(sv_scale(c.direction, c.distance), s_screen_coords(c, x, y));
    if cand == (V3 { x: 0, y: 0, z: 0 }) {
        RayV { point: c.position, direction: c.direction }
    } else {
        RayV { point: c.position, direction: sv_norm(cand) }
    }
}

/// Rotation of the whole camera about the focal point: the direction is
/// rotated (and re-normalized), the screen basis is rotated about the pivot
/// `direction * distance`.  If the rotated direction collapses to zero or a
/// screen vector leaves its range, the camera is unchanged.
pub open spec fn s_rotate(c: CamV, ax: A2, ay: A2, az: A2) -> CamV {
    let pivot = sv_scale(c.direction, c.distance);
    let nd_raw = sv_rotate(c.direction, ax, ay, az);
    let nsx = sv_rotate_by_point(c.screen_x, ax, ay, az, pivot);
    let nsy = sv_rotate_by_point(c.screen_y, ax, ay, az, pivot);
    if nd_raw != (V3 { x: 0, y: 0, z: 0 }) && in_range(nsx, SCREEN_MAX as int) && in_range(
        nsy,
        SCREEN_MAX as int,
    ) {
        CamV { direction: sv_norm(nd_raw), screen_x: nsx, screen_y: nsy, ..c }
    } else {
        c
    }
}

/// A well-formed transform command: any rotation angles it carries are
/// within the fixed-point unit interval (as [`Angle::new`] guarantees).
pub open spec fn transform_wf(t: CameraTransform) -> bool {
    match t {
        CameraTransform::RotateHorizontal(angle) => angle_wf(angle@),
        CameraTransform::RotateVertical(ax, az) => angle_wf(ax@) && angle_wf(az@),
        _ => true,
    }
}

/// The new camera state after a transform command; a command whose result
/// would leave the representable range is ignored.
pub open spec fn s_transform(c: CamV, t: CameraTransform) -> CamV {
    match t {
        CameraTransform::ScaleScreen(f) => {
            let sx = sv_scale(c.screen_x, f as int);
            let sy = sv_scale(c.screen_y, f as int);
            if in_range(sx, SCREEN_MAX as int) && in_range(sy, SCREEN_MAX as int) {
                CamV { screen_x: sx, screen_y: sy, ..c }
            } else {
                c
            }
        },
        CameraTransform::ScaleDistance(f) => {
            let nd = tdiv(c.distance * f as int, SCALE as int);
            if 1 <= nd <= DIST_MAX as int {
                CamV { distance: nd, ..c }
            } else {
                c
            }
        },
        CameraTransform::Move(dist) => {
            let np = sv_add(c.position, sv_scale(c.direction, dist as int));
            if in_range(np, GEOM_MAX as int) {
                CamV { position: np, ..c }
            } else {
                c
            }
        },
        CameraTransform::RotateHorizontal(angle) => s_rotate(
            c,
            A2 { sin: 0, cos: SCALE as int },
            angle@,
            A2 { sin: 0, cos: SCALE as int },
        ),
        CameraTransform::RotateVertical(ax, az) => s_rotate(
            c,
            ax@,
            A2 { sin: 0, cos: SCALE as int },
            az@,
        ),
    }
}

/// Scale a vector by a fixed-point scalar, accepting the result only when
/// every component stays within `bound`.
fn scale_checked(v: Vec3, f: i64, bound: i64) -> (r: Option<Vec3>)
    requires
        0 <= bound,
    ensures
        in_range(sv_scale(v@, f as int), bound as int) ==> (r is Some && r->0@ == sv_scale(
            v@,
            f as int,
        )),
        !in_range(sv_scale(v@, f as int), bound as int) ==> r is None,
{
    proof {
        crate::fixed::lemma_mul_abs_le(v@.x, 0x8000_0000_0000_0000, f as int,
            0x8000_0000_0000_0000);
        crate::fixed::lemma_mul_abs_le(v@.y, 0x8000_0000_0000_0000, f as int,
            0x8000_0000_0000_0000);
        crate::fixed::lemma_mul_abs_le(v@.z, 0x8000_0000_0000_0000, f as int,
            0x8000_0000_0000_0000);
    }
    let x = fxdiv(v.x as i128 * f as i128, SCALE as i128);
    let y = fxdiv(v.y as i128 * f as i128, SCALE as i128);
    let z = fxdiv(v.z as i128 * f as i128, SCALE as i128);
    let b = bound as i128;
    if -b <= x && x <= b && -b <= y && y <= b && -b <= z && z <= b {
        Some(Vec3 { x: x as i64, y: y as i64, z: z as i64 })
    } else {
        None
    }
}

impl Camera {
    /// A fresh camera of the given resolution.
    pub fn new(width: u32, height: u32) -> (r: Camera)
        requires
            1 <= width <= RES_MAX,
            1 <= height <= RES_MAX,
        ensures
            r@ == s_camera_new(width as int, height as int),
            camera_wf(r@),
    {
        proof {
            crate::fixed::lemma_tdiv_shrinks(SCALE as int, width as int);
            crate::fixed::lemma_tdiv_shrinks(SCALE as int, height as int);
        }
        Camera {
            position: Vec3 { x: 0, y: HALF_SCALE, z: -SCALE },
            direction: Vec3 { x: 0, y: 0, z: SCALE },
            distance: SCALE,
            screen_x: Vec3 { x: -(fxdiv(SCALE as i128, width as i128) as i64), y: 0, z: 0 },
            screen_y: Vec3 { x: 0, y: -(fxdiv(SCALE as i128, height as i128) as i64), z: 0 },
            screen_width: width,
            screen_height: height,
        }
    }

    /// The right axis for vertical rotation: `up cross direction`,
    /// normalized; `None` when the view direction is parallel to `up`
    /// at fixed-point resolution.
    pub fn vertical_axis(&self) -> (r: Option<Vec3>)
        requires
            camera_wf(self@),
        ensures
            ({
                let cr = sv_cross(V3 { x: 0, y: SCALE as int, z: 0 }, self@.direction);
                if cr == (V3 { x: 0, y: 0, z: 0 }) {
                    r is None
                } else {
                    r is Some && r->0@ == sv_norm(cr) && unitish(r->0@)
                }
            }),
    {
        let up = Vec3 { x: 0, y: SCALE, z: 0 };
        proof {
            crate::vector::lemma_cross_range(up@, self@.direction, SCALE as int,
                SCALE as int, 2 * SCALE as int);
        }
        let cr = up.cross(self.direction);
        if cr.x == 0 && cr.y == 0 && cr.z == 0 {
            None
        } else {
            Some(cr.norm())
        }
    }

    /// Rotate the camera about the focal point by three angles.
    pub fn rotate(&mut self, ax: Angle, ay: Angle, az: Angle)
        requires
            camera_wf(old(self)@),
            angle_wf(ax@),
            angle_wf(ay@),
            angle_wf(az@),
        ensures
            final(self)@ == s_rotate(old(self)@, ax@, ay@, az@),
            camera_wf(final(self)@),
    {
        proof {
            lemma_scale_range(self@.direction, SCALE as int, self@.distance,
                DIST_MAX as int, DIST_MAX as int);
            lemma_rotate_range(self@.direction, ax@, ay@, az@, SCALE as int);
        }
        let pivot = self.direction.mul(self.distance);
        let nd_raw = self.direction.rotate(ax, ay, az);
        let nsx = self.screen_x.rotate_by_point(ax, ay, az, pivot);
        let nsy = self.screen_y.rotate_by_point(ax, ay, az, pivot);
        let nd_zero = nd_raw.x == 0 && nd_raw.y == 0 && nd_raw.z == 0;
        let sx_ok = -SCREEN_MAX <= nsx.x && nsx.x <= SCREEN_MAX && -SCREEN_MAX <= nsx.y
            && nsx.y <= SCREEN_MAX && -SCREEN_MAX <= nsx.z && nsx.z <= SCREEN_MAX;
        let sy_ok = -SCREEN_MAX <= nsy.x && nsy.x <= SCREEN_MAX && -SCREEN_MAX <= nsy.y
            && nsy.y <= SCREEN_MAX && -SCREEN_MAX <= nsy.z && nsy.z <= SCREEN_MAX;
        if !nd_zero && sx_ok && sy_ok {
            self.direction = nd_raw.norm();
            self.screen_x = nsx;
            self.screen_y = nsy;
        }
    }

    /// Apply one transform command.
    pub fn transform(&mut self, t: CameraTransform)
        requires
            camera_wf(old(self)@),
            transform_wf(t),
        ensures
            final(self)@ == s_transform(old(self)@, t),
            camera_wf(final(self)@),
    {
        match t {
            CameraTransform::ScaleScreen(factor) => {
                let sx = scale_checked(self.screen_x, factor, SCREEN_MAX);
                let sy = scale_checked(self.screen_y, factor, SCREEN_MAX);
                if let (Some(nsx), Some(nsy)) = (sx, sy) {
                    self.screen_x = nsx;
                    self.screen_y = nsy;
                }
            },
            CameraTransform::ScaleDistance(factor) => {
                proof {
                    crate::fixed::lemma_mul_abs_le(self@.distance, 0x8000_0000_0000_0000,
                        factor as int, 0x8000_0000_0000_0000);
                }
                let nd = fxdiv(self.distance as i128 * factor as i128, SCALE as i128);
                if 1 <= nd && nd <= DIST_MAX as i128 {
                    self.distance = nd as i64;
                }
            },
            CameraTransform::Move(distance) => {
                proof {
                    crate::fixed::lemma_tdiv_shrinks(self@.direction.x * distance as int,
                        SCALE as int);
                    crate::fixed::lemma_tdiv_shrinks(self@.direction.y * distance as int,
                        SCALE as int);
                    crate::fixed::lemma_tdiv_shrinks(self@.direction.z * distance as int,
                        SCALE as int);
                }
                proof {
                    crate::fixed::lemma_mul_abs_le(self@.direction.x, 0x8000_0000_0000_0000,
                        distance as int, 0x8000_0000_0000_0000);
                    crate::fixed::lemma_mul_abs_le(self@.direction.y, 0x8000_0000_0000_0000,
                        distance as int, 0x8000_0000_0000_0000);
                    crate::fixed::lemma_mul_abs_le(self@.direction.z, 0x8000_0000_0000_0000,
                        distance as int, 0x8000_0000_0000_0000);
                }
                let dx = fxdiv(self.direction.x as i128 * distance as i128, SCALE as i128);
                let dy = fxdiv(self.direction.y as i128 * distance as i128, SCALE as i128);
                let dz = fxdiv(self.direction.z as i128 * distance as i128, SCALE as i128);
                let nx = self.position.x as i128 + dx;
                let ny = self.position.y as i128 + dy;
                let nz = self.position.z as i128 + dz;
                let g = GEOM_MAX as i128;
                if -g <= nx && nx <= g && -g <= ny && ny <= g && -g <= nz && nz <= g {
                    self.position = Vec3 { x: nx as i64, y: ny as i64, z: nz as i64 };
                }
            },
            CameraTransform::RotateHorizontal(angle) => {
                self.rotate(Angle::zero(), angle, Angle::zero());
            },
            CameraTransform::RotateVertical(ax, az) => {
                self.rotate(ax, Angle::zero(), az);
            },
        }
    }

    /// The screen-plane offset of a pixel from the image center.
    fn screen_coords(&self, coords: (u32, u32)) -> (r: Vec3)
        requires
            camera_wf(self@),
            coords.0 <= RES_MAX,
            coords.1 <= RES_MAX,
        ensures
            r@ == s_screen_coords(self@, coords.0 as int, coords.1 as int),
            in_range(r@, 200_000_000_000_000_000),
    {
        let dx: i64 = coords.0 as i64 * SCALE - self.screen_width as i64 * HALF_SCALE;
        let dy: i64 = coords.1 as i64 * SCALE - self.screen_height as i64 * HALF_SCALE;
        proof {
            lemma_scale_range(self@.screen_x, SCREEN_MAX as int, dx as int,
                100_000_000_000, 100_000_000_000_000_000);
            lemma_scale_range(self@.screen_y, SCREEN_MAX as int, dy as int,
                100_000_000_000, 100_000_000_000_000_000);
        }
        let vx = self.screen_x.mul(dx);
        let vy = self.screen_y.mul(dy);
        vx.add(vy)
    }

    /// The world point where a pixel's ray crosses the image plane.
    pub fn screen_intersection(&self, coords: (u32, u32)) -> (r: Point3)
        requires
            camera_wf(self@),
            coords.0 <= RES_MAX,
            coords.1 <= RES_MAX,
        ensures
            r@ == s_screen_intersection(self@, coords.0 as int, coords.1 as int),
    {
        proof {
            lemma_scale_range(self@.direction, SCALE as int, self@.distance,
                DIST_MAX as int, DIST_MAX as int);
        }
        let ahead = self.direction.mul(self.distance);
        let center = self.position.add(ahead);
        let sc = self.screen_coords(coords);
        center.add(sc)
    }

    /// The ray of a pixel.
    pub fn get_ray(&self, coords: (u32, u32)) -> (r: Ray)
        requires
            camera_wf(self@),
            coords.0 <= RES_MAX,
            coords.1 <= RES_MAX,
        ensures
            r@ == s_get_ray(self@, coords.0 as int, coords.1 as int),
            ray_wf(r@),
    {
        let sc = self.screen_coords(coords);
        proof {
            lemma_scale_range(self@.direction, SCALE as int, self@.distance,
                DIST_MAX as int, DIST_MAX as int);
        }
        let ahead = self.direction.mul(self.distance);
        let cand = ahead.add(sc);
        if cand.x == 0 && cand.y == 0 && cand.z == 0 {
            Ray { point: self.position, direction: self.direction }
        } else {
            Ray::new(self.position, cand)
        }
    }
}

/// A fresh camera's screen basis is oriented with its view direction:
/// normalizing the cross product of the screen basis vectors gives back the
/// direction, exactly, for any resolution up to a thousand pixels per axis
/// (a finer screen basis falls below fixed-point resolution).
pub proof fn lemma_camera_new_orientation(w: int, h: int)
    requires
        1 <= w <= 1000,
        1 <= h <= 1000,
    ensures
        sv_norm(sv_cross(s_camera_new(w, h).screen_x, s_camera_new(w, h).screen_y))
            == s_camera_new(w, h).direction,
{
    let s = SCALE as int;
    let a = tdiv(s, w);
    let b = tdiv(s, h);
    crate::fixed::lemma_tdiv_shrinks(s, w);
    crate::fixed::lemma_tdiv_shrinks(s, h);
    vstd::arithmetic::div_mod::lemma_div_is_ordered_by_denominator(s, w, 1000);
    vstd::arithmetic::div_mod::lemma_div_is_ordered_by_denominator(s, h, 1000);
    assert(a >= 1000 && b >= 1000);
    let sx = s_camera_new(w, h).screen_x;
    let sy = s_camera_new(w, h).screen_y;
    let k = tdiv((-a) * (-b) - 0 * 0, s);
    assert(sv_cross(sx, sy) == (V3 { x: tdiv(0 * 0 - 0 * (-b), s), y: tdiv(
        0 * 0 - (-a) * 0,
        s,
    ), z: k }));
    crate::fixed::lemma_tdiv_exact(0, s);
    assert((-a) * (-b) == a * b) by (nonlinear_arith);
    assert(1_000_000 <= a * b <= s * s) by (nonlinear_arith)
        requires
            1000 <= a <= s,
            1000 <= b <= s,
            s == 1_000_000,
    ;
    assert(1 * s <= a * b);
    crate::fixed::lemma_tdiv_lower(a * b, s, 1);
    assert(s * s == s * s);
    crate::fixed::lemma_tdiv_bounds(a * b, s, s);
    assert(1 <= k <= s);
    let cr = V3 { x: 0, y: 0, z: k };
    assert(sv_cross(sx, sy) == cr);
    // The length of (0, 0, k) is exactly k, so normalization rescales the
    // last component to exactly one unit.
    assert(sv_norm2(cr) == k * k) by {
        assert(0 * 0 + 0 * 0 + k * k == k * k);
    }
    assert(k * k <= k * k < (k + 1) * (k + 1)) by (nonlinear_arith)
        requires
            1 <= k,
    ;
    crate::fixed::lemma_sqrt_floor_unique(k * k, k);
    assert(crate::vector::sv_len(cr) == k);
    crate::fixed::lemma_tdiv_exact(s, k);
    assert(k * s == s * k) by (nonlinear_arith);
    assert(tdiv(k * s, k) == s) by {
        assert(k * s == s * k);
    }
    crate::fixed::lemma_tdiv_exact(0, k);
    assert(sv_norm(cr) == (V3 { x: 0, y: 0, z: s }));
}

} // verus!
