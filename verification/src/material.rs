//! Color and material: three 8-bit channels with saturating arithmetic, and
//! the material descriptor of base color, optional specular exponent and
//! reflectivity.

use vstd::prelude::*;
use crate::fixed::{s_clamp, tdiv, clamp128, fxdiv, SCALE};
use crate::raytracer::Pixel;

verus! {

/// The unbounded-integer value of a [`Color`].
pub struct ColorV {
    pub r: int,
    pub g: int,
    pub b: int,
}

/// Channel addition, saturating at 255.
pub open spec fn sat_add(a: int, b: int) -> int {
    if a + b > 255 {
        255
    } else {
        a + b
    }
}

/// Channel subtraction, saturating at 0.
pub open spec fn sat_sub(a: int, b: int) -> int {
    if a - b < 0 {
        0
    } else {
        a - b
    }
}

/// Channel multiplication, saturating at 255.
pub open spec fn sat_mul(a: int, b: int) -> int {
    if a * b > 255 {
        255
    } else {
        a * b
    }
}

/// Channel scaling by a nonnegative fixed-point factor, truncating toward
/// zero and clamping into the 8-bit range.
pub open spec fn s_chan_scaled(c: int, fact: int) -> int {
    s_clamp(tdiv(c * fact, SCALE as int), 0, 255)
}

/// Componentwise saturating color sum.
pub open spec fn s_color_add(a: ColorV, b: ColorV) -> ColorV {
    ColorV { r: sat_add(a.r, b.r), g: sat_add(a.g, b.g), b: sat_add(a.b, b.b) }
}

/// Componentwise color scaling by a fixed-point factor.
pub open spec fn s_color_scaled(a: ColorV, fact: int) -> ColorV {
    ColorV {
        r: s_chan_scaled(a.r, fact),
        g: s_chan_scaled(a.g, fact),
        b: s_chan_scaled(a.b, fact),
    }
}

/// One channel's saturating multiple.
fn sat_mul_u8(a: u8, b: u8) -> (r: u8)
    ensures
        r as int == sat_mul(a as int, b as int),
{
    proof {
        crate::fixed::lemma_mul_abs_le(a as int, 255, b as int, 255);
    }
    let m: u16 = a as u16 * b as u16;
    if m > 255 {
        255
    } else {
        m as u8
    }
}

/// An 8-bit RGB color with saturating channel arithmetic.
#[derive(Clone, Copy, Debug, PartialEq, Eq, Structural)]
pub struct Color {
    pub r: u8,
    pub g: u8,
    pub b: u8,
}

impl View for Color {
    type V = ColorV;

    open spec fn view(&self) -> ColorV {
        ColorV { r: self.r as int, g: self.g as int, b: self.b as int }
    }
}

impl Default for Color {
    /// Black.
    fn default() -> (r: Self)
        ensures
            r@ == (ColorV { r: 0, g: 0, b: 0 }),
    {
        Color::new(0x00, 0x00, 0x00)
    }
}

impl Color {
    /// Build a color from its three channels.
    pub fn new(r: u8, g: u8, b: u8) -> (c: Self)
        ensures
            c@ == (ColorV { r: r as int, g: g as int, b: b as int }),
    {
        Self { r, g, b }
    }

    /// Full white.
    pub fn white() -> (c: Color)
        ensures
            c@ == (ColorV { r: 255, g: 255, b: 255 }),
    {
        Color::new(0xff, 0xff, 0xff)
    }

    /// The color as a canvas pixel.
    pub fn pixel(&self) -> (p: Pixel)
        ensures
            p.0 == self.r,
            p.1 == self.g,
            p.2 == self.b,
    {
        Pixel(self.r, self.g, self.b)
    }

    /// Saturating channelwise sum.
    pub fn add(&self, rhs: Color) -> (c: Color)
        ensures
            c@ == s_color_add(self@, rhs@),
    {
        Color::new(
            self.r.saturating_add(rhs.r),
            self.g.saturating_add(rhs.g),
            self.b.saturating_add(rhs.b),
        )
    }

    /// Saturating channelwise difference.
    pub fn sub(&self, rhs: Color) -> (c: Color)
        ensures
            c@.r == sat_sub(self@.r, rhs@.r),
            c@.g == sat_sub(self@.g, rhs@.g),
            c@.b == sat_sub(self@.b, rhs@.b),
    {
        Color::new(
            self.r.saturating_sub(rhs.r),
            self.g.saturating_sub(rhs.g),
            self.b.saturating_sub(rhs.b),
        )
    }

    /// Saturating channelwise multiple.
    pub fn mul(&self, fact: u8) -> (c: Color)
        ensures
            c@.r == sat_mul(self@.r, fact as int),
            c@.g == sat_mul(self@.g, fact as int),
            c@.b == sat_mul(self@.b, fact as int),
    {
        Color::new(
            sat_mul_u8(self.r, fact),
            sat_mul_u8(self.g, fact),
            sat_mul_u8(self.b, fact),
        )
    }

    /// Scale every channel by a nonnegative fixed-point factor (used for
    /// light intensities, which may be fractional or exceed one).
    pub fn mul_scaled(&self, fact: i64) -> (c: Color)
        requires
            0 <= fact,
        ensures
            c@ == s_color_scaled(self@, fact as int),
    {
        proof {
            crate::fixed::lemma_mul_abs_le(self@.r, 255, fact as int, i64::MAX as int);
            crate::fixed::lemma_mul_abs_le(self@.g, 255, fact as int, i64::MAX as int);
            crate::fixed::lemma_mul_abs_le(self@.b, 255, fact as int, i64::MAX as int);
        }
        let r = clamp128(fxdiv(self.r as i128 * fact as i128, SCALE as i128), 0, 255);
        let g = clamp128(fxdiv(self.g as i128 * fact as i128, SCALE as i128), 0, 255);
        let b = clamp128(fxdiv(self.b as i128 * fact as i128, SCALE as i128), 0, 255);
        Color::new(r as u8, g as u8, b as u8)
    }

    /// Channelwise division by a positive factor.
    pub fn div(&self, fact: u8) -> (c: Color)
        requires
            fact > 0,
        ensures
            c@.r == self@.r / fact as int,
            c@.g == self@.g / fact as int,
            c@.b == self@.b / fact as int,
    {
        Color::new(self.r / fact, self.g / fact, self.b / fact)
    }
}

/// The unbounded-integer value of a [`Material`].
pub struct MatV {
    pub color: ColorV,
    pub shine: Option<int>,
    pub reflection: int,
}

/// A material: base color, optional specular exponent (absent means no
/// specular highlight at all), and a reflectivity in `[0, SCALE]`
/// (zero fully diffuse, `SCALE` a mirror).
#[derive(Clone, Copy, Debug)]
pub struct Material {
    pub color: Color,
    pub shine: Option<i32>,
    pub reflection: i64,
}

impl View for Material {
    type V = MatV;

    open spec fn view(&self) -> MatV {
        MatV {
            color: self.color@,
            shine: match self.shine {
                Some(s) => Some(s as int),
                None => None,
            },
            reflection: self.reflection as int,
        }
    }
}

/// A well-formed material: reflectivity within `[0, SCALE]` and a
/// nonnegative specular exponent when one is present.
pub open spec fn material_wf(m: MatV) -> bool {
    &&& 0 <= m.reflection <= SCALE as int
    &&& match m.shine {
        Some(s) => 0 <= s,
        None => true,
    }
}

impl Default for Material {
    /// Black, fully diffuse.
    fn default() -> (r: Self)
        ensures
            r@.color == (ColorV { r: 0, g: 0, b: 0 }),
            r@.shine is None,
            r@.reflection == 0,
            material_wf(r@),
    {
        Material::new(Color::default(), 0)
    }
}

impl Material {
    /// A material without a specular highlight.
    pub fn new(color: Color, reflection: i64) -> (m: Self)
        requires
            0 <= reflection <= SCALE,
        ensures
            m@.color == color@,
            m@.shine is None,
            m@.reflection == reflection as int,
            material_wf(m@),
    {
        Self { color, shine: None, reflection }
    }

    /// A material with a specular exponent.
    pub fn new_shine(color: Color, shine: i32, reflection: i64) -> (m: Self)
        requires
            0 <= shine,
            0 <= reflection <= SCALE,
        ensures
            m@.color == color@,
            m@.shine == Some(shine as int),
            m@.reflection == reflection as int,
            material_wf(m@),
    {
        Self { color, shine: Some(shine), reflection }
    }
}

} // verus!
