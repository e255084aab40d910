//! Saturating color arithmetic and the light accumulator.

use raytracer::fixed::SCALE;
use raytracer::material::{Color, Material};
use raytracer::light::LightColor;
use raytracer::raytracer::Pixel;

#[test]
fn color_add_saturates() {
    let a = Color::new(200, 10, 255);
    let b = Color::new(100, 20, 1);
    let c = a.add(b);
    assert_eq!(c, Color::new(255, 30, 255));
}

#[test]
fn color_sub_saturates() {
    let a = Color::new(10, 200, 0);
    let b = Color::new(20, 50, 1);
    let c = a.sub(b);
    assert_eq!(c, Color::new(0, 150, 0));
}

#[test]
fn color_mul_saturates() {
    let a = Color::new(100, 2, 0);
    let c = a.mul(3);
    assert_eq!(c, Color::new(255, 6, 0));
}

#[test]
fn color_div_floors() {
    let a = Color::new(100, 7, 255);
    let c = a.div(2);
    assert_eq!(c, Color::new(50, 3, 127));
}

#[test]
fn color_mul_scaled_fractional() {
    let a = Color::new(100, 200, 41);
    // Half intensity truncates toward zero.
    assert_eq!(a.mul_scaled(SCALE / 2), Color::new(50, 100, 20));
    // An intensity above one saturates at the channel cap.
    assert_eq!(a.mul_scaled(2 * SCALE), Color::new(200, 255, 82));
}

#[test]
fn color_white_and_pixel() {
    let w = Color::white();
    assert_eq!(w, Color::new(255, 255, 255));
    let p = w.pixel();
    assert_eq!(p, Pixel(255, 255, 255));
    let d: Color = Default::default();
    assert_eq!(d, Color::new(0, 0, 0));
}

#[test]
fn light_color_add_commutes_in_intensity() {
    let a = LightColor::new(Some(Color::new(255, 0, 0)), 300_000);
    let b = LightColor::new(Some(Color::new(0, 0, 255)), 700_000);
    let ab = a.add(b);
    let ba = b.add(a);
    assert_eq!(ab.intensity, 1_000_000);
    assert_eq!(ba.intensity, 1_000_000);
}

#[test]
fn light_color_add_zero_identity() {
    let a = LightColor::new(Some(Color::new(10, 20, 30)), 250_000);
    let z = LightColor::new(None, 0);
    let az = a.add(z);
    let za = z.add(a);
    assert_eq!(az.intensity, 250_000);
    assert_eq!(az.color, Some(Color::new(10, 20, 30)));
    assert_eq!(za.intensity, 250_000);
    assert_eq!(za.color, Some(Color::new(10, 20, 30)));
}

#[test]
fn light_color_add_blends_tints() {
    // Equal intensities blend the tints half and half.
    let a = LightColor::new(Some(Color::new(200, 0, 100)), 500_000);
    let b = LightColor::new(Some(Color::new(100, 50, 100)), 500_000);
    let ab = a.add(b);
    assert_eq!(ab.intensity, 1_000_000);
    assert_eq!(ab.color, Some(Color::new(150, 25, 100)));
    // An untinted contribution keeps the other side's tint.
    let c = LightColor::new(None, 500_000);
    let ac = a.add(c);
    assert_eq!(ac.intensity, 1_000_000);
    assert_eq!(ac.color, Some(Color::new(200, 0, 100)));
}

#[test]
fn calc_color_without_tint_scales_material() {
    let m = Material::new(Color::new(100, 200, 40), 0);
    let l = LightColor::new(None, SCALE / 2);
    assert_eq!(l.calc_color(m), Color::new(50, 100, 20));
}

#[test]
fn calc_color_with_tint_blends_three_to_one() {
    let m = Material::new(Color::new(200, 0, 0), 0);
    let l = LightColor::new(Some(Color::new(0, 200, 0)), SCALE);
    // Three quarters of the intensity light the material color, one
    // quarter the tint.
    assert_eq!(l.calc_color(m), Color::new(150, 50, 0));
}

#[test]
fn material_constructors() {
    let m = Material::new(Color::new(1, 2, 3), 800_000);
    assert!(m.shine.is_none());
    assert_eq!(m.reflection, 800_000);
    let s = Material::new_shine(Color::new(1, 2, 3), 8, 600_000);
    assert_eq!(s.shine, Some(8));
    assert_eq!(s.reflection, 600_000);
}
