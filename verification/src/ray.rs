//! Rays: an origin point and a direction that is always stored normalized.

use vstd::prelude::*;
use crate::fixed::RAY_ORIGIN_MAX;
use crate::vector::{
    in_range, sv_dist, sv_norm, unitish, Point3, Vec3, V3, LEN_ARG_MAX,
};

verus! {

/// The unbounded-integer value of a [`Ray`].
pub struct RayV {
    pub point: V3,
    pub direction: V3,
}

/// A half-line: origin plus unit direction.  Constructors normalize the
/// direction, and every intersection routine relies on that invariant.
#[derive(Clone, Copy, Debug, PartialEq, Eq, Structural)]
pub struct Ray {
    pub point: Point3,
    pub direction: Vec3,
}

impl View for Ray {
    type V = RayV;

    open spec fn view(&self) -> RayV {
        RayV { point: self.point@, direction: self.direction@ }
    }
}

/// A well-formed ray: the origin is a world point (possibly nudged by the
/// reflection bias) and the direction is normalized.
pub open spec fn ray_wf(r: RayV) -> bool {
    &&& in_range(r.point, RAY_ORIGIN_MAX as int)
    &&& unitish(r.direction)
}

impl Ray {
    /// Build a ray; the direction is normalized before it is stored.
    /// The direction must be nonzero.
    pub fn new(point: Point3, direction: Vec3) -> (r: Ray)
        requires
            in_range(point@, RAY_ORIGIN_MAX as int),
            in_range(direction@, LEN_ARG_MAX as int),
            direction@ != (V3 { x: 0, y: 0, z: 0 }),
        ensures
            r@.point == point@,
            r@.direction == sv_norm(direction@),
            ray_wf(r@),
    {
        Ray { point, direction: direction.norm() }
    }

    /// Distance from the ray's origin to a point.
    pub fn distance(&self, other: Point3) -> (r: i64)
        requires
            in_range(self@.point, (LEN_ARG_MAX / 2) as int),
            in_range(other@, (LEN_ARG_MAX / 2) as int),
        ensures
            r as int == sv_dist(self@.point, other@),
            0 <= r <= 6_000_000_000_000_000_000,
    {
        self.point.distance(other)
    }
}

} // verus!
