//! The object layer: primitives paired with materials, the closed set of
//! body kinds the scene holds, and the intersection record the tracer and
//! the lights consume.

use vstd::prelude::*;
use crate::figures;
use crate::figures::{
    hit_wf, hit_matches, plane_wf, polygon_wf, s_plane_hit, s_polygon_hit,
    s_sphere_hit, sphere_wf, HitV,
};
use crate::fixed::{sdiv, fxdiv_s, FAR_T, RAY_ORIGIN_MAX, SCALE};
use crate::material::{material_wf, Material, MatV};
use crate::ray::{ray_wf, Ray, RayV};
use crate::vector::{in_range, sv_len, sv_norm, unitish, Point3, Vec3, V3, LEN_ARG_MAX};

verus! {

/// The unbounded-integer value of an [`Intersection`].
pub struct IntV {
    pub point: V3,
    pub n: V3,
    pub reflect: RayV,
    pub material: MatV,
}

/// A ray-primitive hit: the (nudged) hit point, the viewer-facing surface
/// normal, the ready-made reflected ray, and a copy of the hit primitive's
/// material.  Created and consumed within one trace step.
pub struct Intersection {
    pub point: Point3,
    pub n: Vec3,
    pub reflect: Ray,
    pub material: Material,
}

impl View for Intersection {
    type V = IntV;

    open spec fn view(&self) -> IntV {
        IntV {
            point: self.point@,
            n: self.n@,
            reflect: self.reflect@,
            material: self.material@,
        }
    }
}

/// A well-formed intersection: the point can serve as a ray origin, the
/// normal is normalized, the reflected ray is well-formed and starts at the
/// point, and the material is well-formed.
pub open spec fn int_wf(i: IntV) -> bool {
    &&& in_range(i.point, RAY_ORIGIN_MAX as int)
    &&& unitish(i.n)
    &&& ray_wf(i.reflect)
    &&& i.reflect.point == i.point
    &&& material_wf(i.material)
}

impl Intersection {
    /// Assemble an intersection record.
    pub fn new(point: Point3, n: Vec3, reflect: Ray, material: Material) -> (r: Self)
        ensures
            r@.point == point@,
            r@.n == n@,
            r@.reflect == reflect@,
            r@.material == material@,
    {
        Self { point, n, reflect, material }
    }
}

/// The intersection record built from a hit and the primitive's material:
/// the reflected ray starts at the hit point, with the mirrored direction
/// normalized.
pub open spec fn s_int_of_hit(h: HitV, m: MatV) -> IntV {
    IntV {
        point: h.point,
        n: h.normal,
        reflect: RayV { point: h.point, direction: sv_norm(h.reflect_dir) },
        material: m,
    }
}

/// The executable intersection agrees with the specification one.
pub open spec fn int_matches(r: Option<Intersection>, s: Option<IntV>) -> bool {
    match (r, s) {
        (Some(i), Some(v)) => i@ == v,
        (None, None) => true,
        _ => false,
    }
}

/// The unbounded-integer value of a [`Body`].
pub enum BodyV {
    Polygon { p0: V3, p1: V3, p2: V3, material: MatV },
    Plane { n: V3, d: int, material: MatV },
    Sphere { center: V3, radius: int, material: MatV },
}

/// A well-formed body: its shape and its material are well-formed.
pub open spec fn body_wf(b: BodyV) -> bool {
    match b {
        BodyV::Polygon { p0, p1, p2, material } => polygon_wf(p0, p1, p2) && material_wf(
            material,
        ),
        BodyV::Plane { n, d, material } => plane_wf(n, d) && material_wf(material),
        BodyV::Sphere { center, radius, material } => sphere_wf(center, radius)
            && material_wf(material),
    }
}

/// The hit of a ray against a body's shape.
pub open spec fn s_body_hit(b: BodyV, ray: RayV) -> Option<HitV> {
    match b {
        BodyV::Polygon { p0, p1, p2, material } => s_polygon_hit(p0, p1, p2, ray),
        BodyV::Plane { n, d, material } => s_plane_hit(n, d, ray),
        BodyV::Sphere { center, radius, material } => s_sphere_hit(center, radius, ray),
    }
}

/// The material of a body.
pub open spec fn body_material(b: BodyV) -> MatV {
    match b {
        BodyV::Polygon { p0, p1, p2, material } => material,
        BodyV::Plane { n, d, material } => material,
        BodyV::Sphere { center, radius, material } => material,
    }
}

/// The intersection of a ray with a body.
pub open spec fn s_intersect(b: BodyV, ray: RayV) -> Option<IntV> {
    match s_body_hit(b, ray) {
        Some(h) => Some(s_int_of_hit(h, body_material(b))),
        None => None,
    }
}

/// A triangle with its material.
pub struct Polygon {
    pub polygon: figures::Polygon,
    pub material: Material,
}

/// A plane with its material.
pub struct Plane {
    pub plane: figures::Plane,
    pub material: Material,
}

/// A sphere with its material.
pub struct Sphere {
    pub sphere: figures::Sphere,
    pub material: Material,
}

impl View for Polygon {
    type V = BodyV;

    open spec fn view(&self) -> BodyV {
        BodyV::Polygon {
            p0: self.polygon.0@,
            p1: self.polygon.1@,
            p2: self.polygon.2@,
            material: self.material@,
        }
    }
}

impl View for Plane {
    type V = BodyV;

    open spec fn view(&self) -> BodyV {
        BodyV::Plane { n: self.plane.0@, d: self.plane.1 as int, material: self.material@ }
    }
}

impl View for Sphere {
    type V = BodyV;

    open spec fn view(&self) -> BodyV {
        BodyV::Sphere {
            center: self.sphere.0@,
            radius: self.sphere.1 as int,
            material: self.material@,
        }
    }
}

/// Build the intersection record from a shape's hit triple.
fn int_of_hit(
    hit: Option<(Point3, Vec3, Vec3)>,
    material: Material,
    Ghost(spec_hit): Ghost<Option<HitV>>,
) -> (r: Option<Intersection>)
    requires
        hit_matches(hit, spec_hit),
        (match spec_hit {
            Some(h) => hit_wf(h),
            None => true,
        }),
        material_wf(material@),
    ensures
        (match (r, spec_hit) {
            (Some(i), Some(h)) => i@ == s_int_of_hit(h, material@) && int_wf(i@),
            (None, None) => true,
            _ => false,
        }),
{
    match hit {
        None => None,
        Some((p, refl, n)) => Some(Intersection::new(p, n, Ray::new(p, refl), material)),
    }
}

impl Polygon {
    /// A triangle from its vertices and material.
    pub fn new(p1: Point3, p2: Point3, p3: Point3, material: Material) -> (r: Self)
        requires
            polygon_wf(p1@, p2@, p3@),
            material_wf(material@),
        ensures
            r@ == (BodyV::Polygon { p0: p1@, p1: p2@, p2: p3@, material: material@ }),
            body_wf(r@),
    {
        Self { polygon: figures::Polygon(p1, p2, p3), material }
    }

    /// Intersect a ray with the triangle.
    pub fn intersect(&self, ray: &Ray) -> (r: Option<Intersection>)
        requires
            ray_wf(ray@),
            body_wf(self@),
        ensures
            int_matches(r, s_intersect(self@, ray@)),
            (match s_intersect(self@, ray@) {
                Some(iv) => int_wf(iv),
                None => true,
            }),
    {
        let hit = self.polygon.intersection(ray);
        int_of_hit(
            hit,
            self.material,
            Ghost(s_polygon_hit(self.polygon.0@, self.polygon.1@, self.polygon.2@, ray@)),
        )
    }
}

impl Plane {
    /// A plane from a (nonzero) normal, an offset and a material.  The
    /// normal is normalized before it is stored and the offset is rescaled
    /// accordingly, which leaves the plane itself unchanged; the rescaled
    /// offset must stay within [`FAR_T`].
    pub fn new(n: Vec3, d: i64, material: Material) -> (r: Self)
        requires
            in_range(n@, LEN_ARG_MAX as int),
            n@ != (V3 { x: 0, y: 0, z: 0 }),
            -(FAR_T as int) <= sdiv(d * SCALE, sv_len(n@)) <= FAR_T as int,
            material_wf(material@),
        ensures
            r@ == (BodyV::Plane {
                n: sv_norm(n@),
                d: sdiv(d * SCALE, sv_len(n@)),
                material: material@,
            }),
            body_wf(r@),
    {
        let len = n.len();
        let nn = n.norm();
        let dd = fxdiv_s(d as i128 * SCALE as i128, len as i128) as i64;
        Self { plane: figures::Plane(nn, dd), material }
    }

    /// Intersect a ray with the plane.
    pub fn intersect(&self, ray: &Ray) -> (r: Option<Intersection>)
        requires
            ray_wf(ray@),
            body_wf(self@),
        ensures
            int_matches(r, s_intersect(self@, ray@)),
            (match s_intersect(self@, ray@) {
                Some(iv) => int_wf(iv),
                None => true,
            }),
    {
        let hit = self.plane.intersection(ray);
        int_of_hit(hit, self.material, Ghost(s_plane_hit(self.plane.0@, self.plane.1 as int, ray@)))
    }
}

impl Sphere {
    /// A sphere from its center, radius and material.
    pub fn new(center: Point3, radius: i64, material: Material) -> (r: Sphere)
        requires
            sphere_wf(center@, radius as int),
            material_wf(material@),
        ensures
            r@ == (BodyV::Sphere { center: center@, radius: radius as int, material: material@ }),
            body_wf(r@),
    {
        Sphere { sphere: figures::Sphere(center, radius), material }
    }

    /// Intersect a ray with the sphere.
    pub fn intersect(&self, ray: &Ray) -> (r: Option<Intersection>)
        requires
            ray_wf(ray@),
            body_wf(self@),
        ensures
            int_matches(r, s_intersect(self@, ray@)),
            (match s_intersect(self@, ray@) {
                Some(iv) => int_wf(iv),
                None => true,
            }),
    {
        let hit = self.sphere.intersection(ray);
        int_of_hit(
            hit,
            self.material,
            Ghost(s_sphere_hit(self.sphere.0@, self.sphere.1 as int, ray@)),
        )
    }
}

/// The closed set of primitives a scene can hold.
pub enum Body {
    Polygon(Polygon),
    Plane(Plane),
    Sphere(Sphere),
}

impl View for Body {
    type V = BodyV;

    open spec fn view(&self) -> BodyV {
        match self {
            Body::Polygon(p) => p@,
            Body::Plane(p) => p@,
            Body::Sphere(s) => s@,
        }
    }
}

impl Body {
    /// Intersect a ray with this body.
    pub fn intersect(&self, ray: &Ray) -> (r: Option<Intersection>)
        requires
            ray_wf(ray@),
            body_wf(self@),
        ensures
            int_matches(r, s_intersect(self@, ray@)),
            (match s_intersect(self@, ray@) {
                Some(iv) => int_wf(iv),
                None => true,
            }),
    {
        match self {
            Body::Polygon(p) => p.intersect(ray),
            Body::Plane(p) => p.intersect(ray),
            Body::Sphere(s) => s.intersect(ray),
        }
    }
}

} // verus!
