//! Ray-primitive intersections on exact fixed-point scenes.

use raytracer::fixed::{BIAS, SCALE};
use raytracer::figures::{Plane, Polygon, Sphere};
use raytracer::ray::Ray;
use raytracer::vector::Vec3;

#[test]
fn sphere_hit_toward_center() {
    // A unit sphere at the origin, a ray from two units back aimed at its
    // center: the hit sits one unit out, so the distance from the origin
    // is |origin - center| - radius (up to the surface bias).
    let sphere = Sphere(Vec3::new(0, 0, 0), SCALE);
    let ray = Ray::new(Vec3::new(0, 0, -2 * SCALE), Vec3::new(0, 0, SCALE));
    let (point, _reflect, normal) = sphere.intersection(&ray).unwrap();
    assert_eq!(point, Vec3::new(0, 0, -SCALE - BIAS));
    assert_eq!(normal, Vec3::new(0, 0, -SCALE));
    let d = ray.distance(point);
    assert_eq!(d, SCALE - BIAS);
}

#[test]
fn sphere_miss_aimed_away() {
    let sphere = Sphere(Vec3::new(0, 0, 0), SCALE);
    let ray = Ray::new(Vec3::new(0, 0, 2 * SCALE), Vec3::new(0, 0, SCALE));
    assert!(sphere.intersection(&ray).is_none());
}

#[test]
fn sphere_miss_beside() {
    // A ray passing well beside the sphere: negative discriminant.
    let sphere = Sphere(Vec3::new(0, 0, 0), SCALE);
    let ray = Ray::new(Vec3::new(0, 3 * SCALE, -2 * SCALE), Vec3::new(0, 0, SCALE));
    assert!(sphere.intersection(&ray).is_none());
}

#[test]
fn plane_parallel_ray_misses() {
    // A ray parallel to the plane returns no intersection, regardless of
    // which side of the plane its origin lies on.
    let plane = Plane(Vec3::new(0, SCALE, 0), 0);
    let above = Ray::new(Vec3::new(0, SCALE, 0), Vec3::new(SCALE, 0, 0));
    let below = Ray::new(Vec3::new(0, -SCALE, 0), Vec3::new(-SCALE, 0, 0));
    assert!(plane.intersection(&above).is_none());
    assert!(plane.intersection(&below).is_none());
}

#[test]
fn plane_hit_from_above() {
    let plane = Plane(Vec3::new(0, SCALE, 0), 0);
    let ray = Ray::new(Vec3::new(0, SCALE, 0), Vec3::new(0, -SCALE, 0));
    let (point, reflect, normal) = plane.intersection(&ray).unwrap();
    // The hit point is nudged off the surface along the corrected normal.
    assert_eq!(point, Vec3::new(0, BIAS, 0));
    assert_eq!(normal, Vec3::new(0, SCALE, 0));
    assert_eq!(reflect, Vec3::new(0, SCALE, 0));
}

#[test]
fn plane_behind_ray_misses() {
    let plane = Plane(Vec3::new(0, SCALE, 0), 0);
    let ray = Ray::new(Vec3::new(0, SCALE, 0), Vec3::new(0, SCALE, 0));
    assert!(plane.intersection(&ray).is_none());
}

#[test]
fn polygon_hit_inside() {
    let polygon = Polygon(
        Vec3::new(0, 0, SCALE),
        Vec3::new(0, 0, -SCALE),
        Vec3::new(SCALE, 0, 0),
    );
    let ray = Ray::new(Vec3::new(SCALE / 4, SCALE, 0), Vec3::new(0, -SCALE, 0));
    let (point, reflect, normal) = polygon.intersection(&ray).unwrap();
    assert_eq!(point, Vec3::new(SCALE / 4, BIAS, 0));
    assert_eq!(normal, Vec3::new(0, SCALE, 0));
    assert_eq!(reflect, Vec3::new(0, SCALE, 0));
}

#[test]
fn polygon_miss_outside() {
    let polygon = Polygon(
        Vec3::new(0, 0, SCALE),
        Vec3::new(0, 0, -SCALE),
        Vec3::new(SCALE, 0, 0),
    );
    // The supporting plane is hit, but outside the triangle.
    let ray = Ray::new(Vec3::new(-SCALE / 4, SCALE, 0), Vec3::new(0, -SCALE, 0));
    assert!(polygon.intersection(&ray).is_none());
}
