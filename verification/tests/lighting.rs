//! Shadow occlusion and per-light contributions.

use raytracer::fixed::SCALE;
use raytracer::light::{AmbientLight, DirectLight, LightColor, PointLight};
use raytracer::material::{Color, Material};
use raytracer::object::{Body, Plane, Sphere};
use raytracer::ray::Ray;
use raytracer::vector::Vec3;

fn floor_hit() -> (Ray, raytracer::object::Intersection) {
    // A ray straight down onto the floor plane at the origin.
    let floor = Plane::new(Vec3::new(0, SCALE, 0), 0, Material::new(Color::white(), 0));
    let ray = Ray::new(Vec3::new(0, SCALE, 0), Vec3::new(0, -SCALE, 0));
    let hit = floor.intersect(&ray).unwrap();
    (ray, hit)
}

#[test]
fn point_light_reaches_unoccluded_point() {
    let (ray, hit) = floor_hit();
    let light = PointLight::new(Vec3::new(0, 2 * SCALE, 0), 500_000);
    let bodies: Vec<Body> = Vec::new();
    let c = light.calc(&ray, &hit, &bodies).unwrap();
    assert!(c.intensity > 0);
}

#[test]
fn point_light_occluded_by_plane() {
    let (ray, hit) = floor_hit();
    let light = PointLight::new(Vec3::new(0, 2 * SCALE, 0), 500_000);
    // An opaque plane at one unit of height, squarely between the hit
    // point and the light.
    let blocker = Plane::new(Vec3::new(0, SCALE, 0), -SCALE, Material::new(Color::white(), 0));
    let bodies: Vec<Body> = vec![Body::Plane(blocker)];
    assert!(light.calc(&ray, &hit, &bodies).is_none());
}

#[test]
fn point_light_not_occluded_by_body_beyond_it() {
    let (ray, hit) = floor_hit();
    let light = PointLight::new(Vec3::new(0, 2 * SCALE, 0), 500_000);
    // A plane at three units of height: past the light, so no shadow.
    let beyond = Plane::new(Vec3::new(0, SCALE, 0), -3 * SCALE, Material::new(Color::white(), 0));
    let bodies: Vec<Body> = vec![Body::Plane(beyond)];
    assert!(light.calc(&ray, &hit, &bodies).is_some());
}

#[test]
fn direct_light_occluded_by_any_hit() {
    let (ray, hit) = floor_hit();
    // Light arriving straight down; its shadow ray goes straight up.
    let light = DirectLight::new(Vec3::new(0, -SCALE, 0), 200_000);
    let clear: Vec<Body> = Vec::new();
    assert!(light.calc(&ray, &hit, &clear).is_some());
    // Any intersection occludes a light at infinity, however far away.
    let far = Plane::new(Vec3::new(0, SCALE, 0), -100 * SCALE, Material::new(Color::white(), 0));
    let bodies: Vec<Body> = vec![Body::Plane(far)];
    assert!(light.calc(&ray, &hit, &bodies).is_none());
}

#[test]
fn ambient_light_ignores_occlusion() {
    let (ray, hit) = floor_hit();
    let light = AmbientLight::new(50_000);
    let blocker = Plane::new(Vec3::new(0, SCALE, 0), -SCALE, Material::new(Color::white(), 0));
    let bodies: Vec<Body> = vec![Body::Plane(blocker)];
    let c = light.calc(&ray, &hit, &bodies).unwrap();
    assert_eq!(c.intensity, 50_000);
    assert_eq!(c.color, None);
}

#[test]
fn specular_highlight_adds_intensity() {
    // A grazing view ray on a shiny floor: the mirrored direction leans
    // toward the view direction, so the specular term contributes on top
    // of the diffuse term.  All values land exactly on the fixed-point
    // grid (a 3-4-5 triangle).
    let shiny = Plane::new(
        Vec3::new(0, SCALE, 0),
        0,
        Material::new_shine(Color::white(), 2, 0),
    );
    let ray = Ray::new(Vec3::new(-1_600_000, 1_200_000, 0), Vec3::new(800_000, -600_000, 0));
    let hit = shiny.intersect(&ray).unwrap();
    let matte = Plane::new(Vec3::new(0, SCALE, 0), 0, Material::new(Color::white(), 0));
    let matte_hit = matte.intersect(&ray).unwrap();
    let light = PointLight::new(Vec3::new(0, 2 * SCALE, 0), 500_000);
    let none: Vec<Body> = Vec::new();
    let with_shine = light.calc(&ray, &hit, &none).unwrap();
    let without = light.calc(&ray, &matte_hit, &none).unwrap();
    assert_eq!(without.intensity, 500_000);
    assert_eq!(with_shine.intensity, 539_200);
}

#[test]
fn point_light_diffuse_value_is_exact() {
    let (ray, hit) = floor_hit();
    // Light far overhead: the cosine is exactly one at fixed-point
    // resolution, so the whole intensity arrives.
    let light = PointLight::new(Vec3::new(0, 400_000 * SCALE, 0), 500_000);
    let bodies: Vec<Body> = Vec::new();
    let c = light.calc(&ray, &hit, &bodies).unwrap();
    assert_eq!(c.intensity, 500_000);
}

#[test]
fn tinted_point_light_keeps_tint() {
    let (ray, hit) = floor_hit();
    let light = PointLight::new_color(
        Vec3::new(0, 400_000 * SCALE, 0),
        500_000,
        Color::new(255, 0, 0),
    );
    let bodies: Vec<Body> = Vec::new();
    let c = light.calc(&ray, &hit, &bodies).unwrap();
    assert_eq!(c.color, Some(Color::new(255, 0, 0)));
    assert_eq!(c.intensity, 500_000);
}

#[test]
fn sphere_occludes_point_light() {
    let (ray, hit) = floor_hit();
    let light = PointLight::new(Vec3::new(0, 2 * SCALE, 0), 500_000);
    let blocker = Sphere::new(
        Vec3::new(0, SCALE, 0),
        SCALE / 2,
        Material::new(Color::white(), 0),
    );
    let bodies: Vec<Body> = vec![Body::Sphere(blocker)];
    assert!(light.calc(&ray, &hit, &bodies).is_none());
}

#[test]
fn light_color_constructor() {
    let l = LightColor::new(Some(Color::new(1, 2, 3)), 42);
    assert_eq!(l.intensity, 42);
    assert_eq!(l.color, Some(Color::new(1, 2, 3)));
}
