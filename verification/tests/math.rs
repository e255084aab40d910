//! Vector algebra and camera orientation, on exact fixed-point values.

use raytracer::fixed::SCALE;
use raytracer::vector::{Angle, Vec3};
use raytracer::camera::Camera;

fn vx() -> Vec3 {
    Vec3::new(SCALE, 0, 0)
}

fn vy() -> Vec3 {
    Vec3::new(0, SCALE, 0)
}

fn vz() -> Vec3 {
    Vec3::new(0, 0, SCALE)
}

/// The sine/cosine pair of an angle given in radians.
fn angle(rad: f64) -> Angle {
    Angle::new((rad.sin() * SCALE as f64) as i64, (rad.cos() * SCALE as f64) as i64)
}

#[test]
fn primitives_sum_scalar() {
    let x = vx();
    let y = vy();
    let z = vz();

    let sum1 = x.add(y).add(z);
    let sum2 = x.add(y.mul(2 * SCALE)).add(z.mul(3 * SCALE));
    let sum3 = x.sub(y.mul(2 * SCALE)).add(z.mul(3 * SCALE));
    assert_eq!(sum1, Vec3::new(SCALE, SCALE, SCALE));
    assert_eq!(sum2, Vec3::new(SCALE, 2 * SCALE, 3 * SCALE));
    assert_eq!(sum3, Vec3::new(SCALE, -2 * SCALE, 3 * SCALE));
}

#[test]
fn primitives_dot_product() {
    let x = vx();
    let y = vy();
    let z = vz();

    let a = x.mul(2 * SCALE).add(y.mul(3 * SCALE)).add(z.mul(4 * SCALE));
    let b = x.add(y).add(z);

    let zero = Vec3::new(0, 0, 0);
    assert_eq!(a.dot(b), (2 + 3 + 4) * SCALE);
    assert_eq!(zero.dot(b), 0);
    assert_eq!(zero.dot(a), 0);
}

#[test]
fn primitives_cross_product() {
    let x = vx();
    let y = vy();
    let z = vz();

    assert_eq!(z.cross(x), y);
    assert_eq!(y.cross(z), x);
    assert_eq!(x.cross(y), z);

    let a = x.mul(3 * SCALE).add(y.mul(3 * SCALE));
    let b = x.mul(-3 * SCALE).add(y.mul(3 * SCALE));

    assert_eq!(a.cross(b).norm(), z);
}

#[test]
fn primitives_rotation() {
    let x = vx();
    let y = vy();
    let z = vz();
    let pi = std::f64::consts::PI;
    let zero = Angle::zero();

    assert_eq!(x.rotate(angle(pi), zero, zero), x);
    assert_eq!(y.rotate(zero, angle(pi), zero), y);
    assert_eq!(z.rotate(zero, zero, angle(pi)), z);

    assert_eq!(x.rotate(zero, angle(-pi / 2.0), zero), z);
    assert_eq!(x.rotate(zero, zero, angle(pi / 2.0)), y);

    assert_eq!(y.rotate(angle(pi / 2.0), zero, zero), z);
    assert_eq!(y.rotate(zero, zero, angle(-pi / 2.0)), x);

    assert_eq!(z.rotate(angle(-pi / 2.0), zero, zero), y);
    assert_eq!(z.rotate(zero, angle(pi / 2.0), zero), x);

    assert_eq!(
        z.rotate_by_point(angle(pi / 2.0), zero, zero, y),
        y.mul(-SCALE)
    );
}

#[test]
fn camera() {
    let camera = Camera::new(100, 100);

    assert_eq!(camera.screen_x.cross(camera.screen_y).norm(), camera.direction);
}

#[test]
fn rotation_full_turn_returns_vector() {
    let two_pi = 2.0 * std::f64::consts::PI;
    let v = Vec3::new(123_456, -987_654, 555_555);
    assert_eq!(v.rotate(angle(two_pi), Angle::zero(), Angle::zero()), v);
    assert_eq!(v.rotate(Angle::zero(), angle(two_pi), Angle::zero()), v);
    assert_eq!(v.rotate(Angle::zero(), Angle::zero(), angle(two_pi)), v);
}

#[test]
fn normalization_shape() {
    let v = Vec3::new(3 * SCALE, 4 * SCALE, 0);
    let n = v.norm();
    assert_eq!(n, Vec3::new(600_000, 800_000, 0));
    let d = Vec3::new(0, 0, 0).distance(n);
    assert_eq!(d, SCALE);
}

#[test]
fn camera_get_ray_center() {
    let camera = Camera::new(100, 100);
    let ray = camera.get_ray((50, 50));
    assert_eq!(ray.point, camera.position);
    assert_eq!(ray.direction, Vec3::new(0, 0, SCALE));
}
