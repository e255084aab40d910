//! The scene, the recursive tracer and full renders.

use raytracer::camera::{Camera, CameraTransform};
use raytracer::fixed::SCALE;
use raytracer::light::{AmbientLight, LightKind, PointLight};
use raytracer::material::{Color, Material};
use raytracer::object::{Body, Plane, Sphere};
use raytracer::ray::Ray;
use raytracer::raytracer::{Canvas, Pixel, Raytracer, Scene};
use raytracer::vector::{Angle, Vec3};

#[test]
fn canvas_new_iter_size() {
    let canvas = Canvas::new(3, 2);
    assert_eq!(canvas.size(), (3, 2));
    let pixels = canvas.iter();
    assert_eq!(pixels.len(), 6);
    for p in pixels {
        assert_eq!(p, Pixel(0, 0, 0));
    }
}

#[test]
fn nearest_intersection_picks_closest() {
    let mut scene = Scene::new(4, 4);
    let far = Sphere::new(Vec3::new(0, 0, 4 * SCALE), SCALE, Material::new(Color::new(1, 0, 0), 0));
    let near = Sphere::new(Vec3::new(0, 0, 2 * SCALE), SCALE / 2,
        Material::new(Color::new(0, 1, 0), 0));
    scene.add(Body::Sphere(far));
    scene.add(Body::Sphere(near));
    let ray = Ray::new(Vec3::new(0, 0, -2 * SCALE), Vec3::new(0, 0, SCALE));
    let hit = scene.nearest_intersection(&ray).unwrap();
    // The nearer sphere's front face, half a unit before its center.
    assert_eq!(hit.point.z, 2 * SCALE - SCALE / 2 - raytracer::fixed::BIAS);
    assert_eq!(hit.material.color, Color::new(0, 1, 0));
}

#[test]
fn trace_background_is_black() {
    let scene = Scene::new(4, 4);
    let tracer = Raytracer::new(scene);
    let ray = Ray::new(Vec3::new(0, 0, 0), Vec3::new(0, 0, SCALE));
    let c = tracer.trace(ray, 0);
    assert_eq!(c, Color::new(0, 0, 0));
}

#[test]
fn trace_depth_limit_in_mirror_box() {
    // A fully mirrored closed box around the camera: the recursion stops
    // at the depth limit and the render completes.
    let mirror = Material::new(Color::white(), SCALE);
    let mut scene = Scene::new(4, 4);
    scene.add(Body::Plane(Plane::new(Vec3::new(0, SCALE, 0), 2 * SCALE, mirror)));
    scene.add(Body::Plane(Plane::new(Vec3::new(0, SCALE, 0), -2 * SCALE, mirror)));
    scene.add(Body::Plane(Plane::new(Vec3::new(SCALE, 0, 0), 2 * SCALE, mirror)));
    scene.add(Body::Plane(Plane::new(Vec3::new(SCALE, 0, 0), -2 * SCALE, mirror)));
    scene.add(Body::Plane(Plane::new(Vec3::new(0, 0, SCALE), 2 * SCALE, mirror)));
    scene.add(Body::Plane(Plane::new(Vec3::new(0, 0, SCALE), -2 * SCALE, mirror)));
    scene.add_light(LightKind::Ambient(AmbientLight::new(100_000)));
    let mut tracer = Raytracer::new(scene);
    tracer.render();
    assert_eq!(tracer.canvas.size(), (4, 4));
}

#[test]
fn render_flat_lit_plane_is_uniform() {
    // One upward-facing floor plane, one point light far overhead, and
    // the camera turned straight down: every pixel of the canvas gets
    // exactly the same color.
    let mut scene = Scene::new(8, 8);
    scene.add(Body::Plane(Plane::new(
        Vec3::new(0, -SCALE, 0),
        0,
        Material::new(Color::new(100, 200, 40), 0),
    )));
    scene.add_light(LightKind::Point(PointLight::new(
        Vec3::new(0, 100_000 * SCALE, -SCALE),
        500_000,
    )));
    // Pitch the camera straight down: a quarter turn about its right
    // axis, which for a fresh camera is the X axis.
    let down = Angle::new(SCALE, 0);
    scene.camera.transform(CameraTransform::RotateVertical(down, Angle::zero()));
    let mut tracer = Raytracer::new(scene);
    tracer.render();
    let pixels = tracer.canvas.iter();
    assert_eq!(pixels.len(), 64);
    for p in &pixels {
        assert_eq!(*p, pixels[0]);
    }
    // Half the light's intensity arrives, so each channel is halved.
    assert_eq!(pixels[0], Pixel(50, 100, 20));
}

#[test]
fn render_reflective_blend() {
    // A mirror floor under a lit scene: the traced color blends the local
    // shade with the reflected background by the reflectivity.
    let mut scene = Scene::new(4, 4);
    scene.add(Body::Plane(Plane::new(
        Vec3::new(0, -SCALE, 0),
        0,
        Material::new(Color::new(200, 100, 0), SCALE / 2),
    )));
    scene.add_light(LightKind::Ambient(AmbientLight::new(SCALE)));
    let down = Angle::new(SCALE, 0);
    scene.camera.transform(CameraTransform::RotateVertical(down, Angle::zero()));
    let tracer = Raytracer::new(scene);
    let ray = scene_ray();
    let c = tracer.trace(ray, 0);
    // Local shade: full ambient intensity lights the material color.
    // The reflected ray leaves the scene (black), so the blend halves it.
    assert_eq!(c, Color::new(100, 50, 0));
}

fn scene_ray() -> Ray {
    // Straight down onto the floor from above.
    Ray::new(Vec3::new(0, SCALE, 0), Vec3::new(0, -SCALE, 0))
}

#[test]
fn canvas_iter_is_row_major() {
    // Render a scene whose image is not uniform, and check that the
    // flattened pixels come out row by row.
    let mut scene = Scene::new(6, 5);
    scene.add(Body::Sphere(Sphere::new(
        Vec3::new(0, SCALE / 2, 2 * SCALE),
        SCALE / 2,
        Material::new(Color::new(200, 0, 0), 0),
    )));
    scene.add_light(LightKind::Ambient(AmbientLight::new(SCALE)));
    let mut tracer = Raytracer::new(scene);
    tracer.render();
    let flat = tracer.canvas.iter();
    assert_eq!(flat.len(), 30);
    for y in 0..5 {
        for x in 0..6 {
            assert_eq!(flat[y * 6 + x], tracer.canvas.matrix[y][x]);
        }
    }
    // The sphere in front of the camera colors some pixels and not others.
    assert!(flat.iter().any(|p| *p != flat[0]));
}

#[test]
fn scene_add_and_add_light_grow() {
    let mut scene = Scene::new(4, 4);
    assert_eq!(scene.bodies.len(), 0);
    assert_eq!(scene.lights.len(), 0);
    scene.add(Body::Sphere(Sphere::new(
        Vec3::new(0, 0, 0),
        SCALE,
        Material::new(Color::white(), 0),
    )));
    scene.add_light(LightKind::Ambient(AmbientLight::new(1)));
    assert_eq!(scene.bodies.len(), 1);
    assert_eq!(scene.lights.len(), 1);
}

#[test]
fn camera_transforms() {
    let mut camera = Camera::new(100, 100);
    // Move one unit forward, along the view direction.
    camera.transform(CameraTransform::Move(SCALE));
    assert_eq!(camera.position, Vec3::new(0, SCALE / 2, 0));
    // Double the focal distance.
    camera.transform(CameraTransform::ScaleDistance(2 * SCALE));
    assert_eq!(camera.distance, 2 * SCALE);
    // Halve the screen basis.
    let sx = camera.screen_x;
    camera.transform(CameraTransform::ScaleScreen(SCALE / 2));
    assert_eq!(camera.screen_x.x, sx.x / 2);
    // A quarter turn to the left about the vertical axis.
    camera.transform(CameraTransform::RotateHorizontal(Angle::new(SCALE, 0)));
    assert_eq!(camera.direction, Vec3::new(SCALE, 0, 0));
}

#[test]
fn camera_vertical_axis() {
    let camera = Camera::new(100, 100);
    // Fresh camera looks along +Z with +Y up, so the right axis is +X.
    assert_eq!(camera.vertical_axis(), Some(Vec3::new(SCALE, 0, 0)));
}

#[test]
fn camera_screen_intersection_center() {
    let camera = Camera::new(100, 100);
    // The center pixel's ray crosses the image plane one focal distance
    // ahead of the camera.
    let p = camera.screen_intersection((50, 50));
    assert_eq!(p, Vec3::new(0, SCALE / 2, 0));
}
