//! Light sources and illumination: point, directional and ambient lights,
//! the shadow-occlusion tests against the scene's bodies, the diffuse and
//! specular terms, and the tint/intensity accumulator that merges the
//! contributions of several lights.
//!
//! Following the design notes of the lighting model, a negative diffuse
//! cosine (light behind the surface) is clamped to zero rather than
//! subtracting light, and each term is capped at the light's intensity,
//! which also absorbs fixed-point truncation slop.

use vstd::prelude::*;
use crate::fixed::{
    powi_fx, s_clamp, s_powi, tdiv, clamp128, fxdiv, INTENSITY_MAX, SCALE,
};
use crate::material::{
    s_color_add, s_color_scaled, Color, ColorV, Material, MatV,
};
use crate::object::{
    body_wf, int_wf, s_intersect, Body, BodyV, Intersection, IntV,
};
use crate::ray::{ray_wf, Ray, RayV};
use crate::vector::{
    in_range, sv_dist, sv_dot, sv_len, sv_neg, sv_norm, sv_sub, Point3, Vec3, V3,
    lemma_dot_range,
};

verus! {

/// Largest accumulated intensity a [`LightColor`] may carry.
pub const LC_MAX: i64 = 3_000_000_000_000_000_000;

/// The unbounded-integer value of a [`LightColor`].
pub struct LCV {
    pub color: Option<ColorV>,
    pub intensity: int,
}

/// An accumulator pairing an optional tint with a scalar intensity.
/// "No tint" is distinct from a black tint: it means the material's own
/// color is used unmodified.
#[derive(Clone, Copy, Debug)]
pub struct LightColor {
    pub color: Option<Color>,
    pub intensity: i64,
}

/// The value of an optional tint.
pub open spec fn opt_color_view(c: Option<Color>) -> Option<ColorV> {
    match c {
        Some(x) => Some(x@),
        None => None,
    }
}

impl View for LightColor {
    type V = LCV;

    open spec fn view(&self) -> LCV {
        LCV { color: opt_color_view(self.color), intensity: self.intensity as int }
    }
}

/// A well-formed accumulator: nonnegative intensity within [`LC_MAX`].
pub open spec fn lc_wf(l: LCV) -> bool {
    0 <= l.intensity <= LC_MAX as int
}

/// Merging two contributions: a zero-intensity operand passes the other
/// through; otherwise the intensities add and the tints blend, weighted by
/// each side's share of the total intensity.  Two absent tints stay absent.
pub open spec fn s_lc_add(a: LCV, b: LCV) -> LCV {
    if a.intensity == 0 {
        b
    } else if b.intensity == 0 {
        a
    } else {
        let fact = tdiv(b.intensity * SCALE as int, a.intensity + b.intensity);
        let intensity = a.intensity + b.intensity;
        match (a.color, b.color) {
            (Some(c), Some(oc)) => LCV {
                color: Some(
                    s_color_add(s_color_scaled(c, SCALE as int - fact), s_color_scaled(oc, fact)),
                ),
                intensity,
            },
            (Some(c), None) => LCV { color: Some(c), intensity },
            (None, Some(oc)) => LCV { color: Some(oc), intensity },
            (None, None) => LCV { color: None, intensity },
        }
    }
}

/// The final color of a hit: with a tint, three quarters of the intensity
/// drive the material's color and one quarter the tint; with no tint, the
/// material's color alone is scaled by the full intensity.
pub open spec fn s_calc_color(l: LCV, m: MatV) -> ColorV {
    match l.color {
        Some(c) => s_color_add(
            s_color_scaled(m.color, tdiv(l.intensity * 3, 4)),
            s_color_scaled(c, tdiv(l.intensity, 4)),
        ),
        None => s_color_scaled(m.color, l.intensity),
    }
}

impl LightColor {
    /// Pair a tint with an intensity.
    pub fn new(color: Option<Color>, intensity: i64) -> (r: Self)
        ensures
            r@.color == opt_color_view(color),
            r@.intensity == intensity as int,
    {
        Self { color, intensity }
    }

    /// Merge another contribution into this one.
    pub fn add(&self, other: LightColor) -> (r: LightColor)
        requires
            lc_wf(self@),
            lc_wf(other@),
            self@.intensity + other@.intensity <= LC_MAX as int,
        ensures
            r@ == s_lc_add(self@, other@),
            lc_wf(r@),
    {
        if self.intensity == 0 {
            other
        } else if other.intensity == 0 {
            *self
        } else {
            let total = self.intensity + other.intensity;
            proof {
                assert(other@.intensity * SCALE as int <= total as int * SCALE as int)
                    by (nonlinear_arith)
                    requires
                        0 <= other@.intensity <= total as int,
                        0 <= SCALE as int,
                ;
                assert(total as int * SCALE as int == SCALE as int * total as int)
                    by (nonlinear_arith);
                crate::fixed::lemma_tdiv_bounds(other@.intensity * SCALE as int,
                    total as int, SCALE as int);
                crate::fixed::lemma_tdiv_shrinks(other@.intensity * SCALE as int,
                    total as int);
                assert(0 <= other@.intensity * SCALE as int) by (nonlinear_arith)
                    requires
                        0 <= other@.intensity,
                ;
            }
            let fact = fxdiv(other.intensity as i128 * SCALE as i128, total as i128) as i64;
            match (self.color, other.color) {
                (Some(color), Some(other_color)) => LightColor::new(
                    Some(color.mul_scaled(SCALE - fact).add(other_color.mul_scaled(fact))),
                    total,
                ),
                (Some(color), None) => LightColor::new(Some(color), total),
                (None, Some(other_color)) => LightColor::new(Some(other_color), total),
                (None, None) => LightColor::new(None, total),
            }
        }
    }

    /// The final color of a hit with this accumulated light.
    pub fn calc_color(&self, material: Material) -> (r: Color)
        requires
            lc_wf(self@),
        ensures
            r@ == s_calc_color(self@, material@),
    {
        match self.color {
            Some(color) => {
                let f1 = fxdiv(self.intensity as i128 * 3, 4) as i64;
                let f2 = fxdiv(self.intensity as i128, 4) as i64;
                proof {
                    crate::fixed::lemma_tdiv_shrinks(self@.intensity * 3, 4);
                    crate::fixed::lemma_tdiv_shrinks(self@.intensity, 4);
                }
                material.color.mul_scaled(f1).add(color.mul_scaled(f2))
            },
            None => material.color.mul_scaled(self.intensity),
        }
    }
}

/// Intensity commutes under merging: A then B carries the same total
/// intensity as B then A.
pub proof fn lemma_lc_add_intensity_commutes(a: LCV, b: LCV)
    ensures
        s_lc_add(a, b).intensity == s_lc_add(b, a).intensity,
{
}

/// A zero-intensity operand is the identity of merging, on either side,
/// for any contribution that itself carries intensity.  (Merging two
/// zero-intensity contributions keeps the zero operand itself, so the
/// intensity is still unchanged.)
pub proof fn lemma_lc_add_zero_identity(a: LCV, z: LCV)
    requires
        z.intensity == 0,
    ensures
        a.intensity != 0 ==> s_lc_add(a, z) == a && s_lc_add(z, a) == a,
        s_lc_add(a, z).intensity == a.intensity,
        s_lc_add(z, a).intensity == a.intensity,
{
}

/// The diffuse term: the light's intensity scaled by the cosine between the
/// light direction and the surface normal, clamped into `[0, intensity]`
/// (no negative light from behind the surface); zero when the direction
/// degenerates.
pub open spec fn s_diffuse(dir: V3, n: V3, intensity: int) -> int {
    let den = tdiv(sv_len(dir) * sv_len(n), SCALE as int);
    if den == 0 {
        0
    } else {
        s_clamp(tdiv(intensity * sv_dot(dir, n), den), 0, intensity)
    }
}

/// The specular base: the cosine between the reflected direction and the
/// viewing direction, clamped into `[0, SCALE]`.
pub open spec fn s_shine_base(rdir: V3, vdir: V3) -> int {
    let den = tdiv(sv_len(rdir) * sv_len(vdir), SCALE as int);
    if den == 0 {
        0
    } else {
        s_clamp(tdiv(sv_dot(rdir, vdir) * SCALE as int, den), 0, SCALE as int)
    }
}

/// The specular term: intensity times the specular base raised to the
/// material's exponent, clamped into `[0, intensity]`; zero without an
/// exponent.
pub open spec fn s_shine_term(it: IntV, ray: RayV, intensity: int) -> int {
    match it.material.shine {
        Some(sh) => s_clamp(
            tdiv(intensity * s_powi(s_shine_base(it.reflect.direction, ray.direction), sh as nat),
                SCALE as int),
            0,
            intensity,
        ),
        None => 0,
    }
}

/// One light's contribution at a hit: its tint, with the diffuse plus
/// specular intensity.
pub open spec fn s_calc_light(
    dir: V3,
    ray: RayV,
    intensity: int,
    color: Option<ColorV>,
    it: IntV,
) -> LCV {
    LCV { color, intensity: s_diffuse(dir, it.n, intensity) + s_shine_term(it, ray, intensity) }
}

/// Evaluate the diffuse and specular formula for one light.
fn calc_light(
    dir: Vec3,
    ray: &Ray,
    intensity: i64,
    color: Option<Color>,
    intersection: &Intersection,
) -> (r: LightColor)
    requires
        in_range(dir@, 5_000_000_000_000),
        ray_wf(ray@),
        0 <= intensity <= INTENSITY_MAX,
        int_wf(intersection@),
    ensures
        r@ == s_calc_light(dir@, ray@, intensity as int, opt_color_view(color), intersection@),
        lc_wf(r@),
        r@.intensity <= 2 * intensity as int,
{
    proof {
        lemma_dot_range(dir@, intersection@.n, 5_000_000_000_000, SCALE as int,
            20_000_000_000_000);
        lemma_dot_range(intersection@.reflect.direction, ray@.direction, SCALE as int,
            SCALE as int, 3_000_000);
    }
    let ld = dir.len();
    let ln = intersection.n.len();
    proof {
        crate::fixed::lemma_mul_abs_le(ld as int, 6_000_000_000_000_000_000, ln as int,
            6_000_000_000_000_000_000);
    }
    let den: i128 = fxdiv(ld as i128 * ln as i128, SCALE as i128);
    proof {
        assert(0 <= ld as int * ln as int) by (nonlinear_arith)
            requires
                0 <= ld as int,
                0 <= ln as int,
        ;
        crate::fixed::lemma_tdiv_shrinks(ld as int * ln as int, SCALE as int);
        crate::fixed::lemma_mul_abs_le(intensity as int, INTENSITY_MAX as int,
            sv_dot(dir@, intersection@.n), 20_000_000_000_000);
    }
    let num = dir.dot(intersection.n);
    let diffuse: i64 = if den == 0 {
        0
    } else {
        clamp128(fxdiv(intensity as i128 * num as i128, den), 0, intensity)
    };
    let shine_term: i64 = match intersection.material.shine {
        Some(shine) => {
            let rd = intersection.reflect.direction;
            let lrd = rd.len();
            let lvd = ray.direction.len();
            proof {
                crate::fixed::lemma_mul_abs_le(lrd as int, 6_000_000_000_000_000_000,
                    lvd as int, 6_000_000_000_000_000_000);
            }
            let sden: i128 = fxdiv(lrd as i128 * lvd as i128, SCALE as i128);
            proof {
                assert(0 <= lrd as int * lvd as int) by (nonlinear_arith)
                    requires
                        0 <= lrd as int,
                        0 <= lvd as int,
                ;
                crate::fixed::lemma_tdiv_shrinks(lrd as int * lvd as int, SCALE as int);
            }
            let sb = rd.dot(ray.direction);
            let base: i64 = if sden == 0 {
                0
            } else {
                clamp128(fxdiv(sb as i128 * SCALE as i128, sden), 0, SCALE)
            };
            let p = powi_fx(base, shine as u32);
            proof {
                crate::fixed::lemma_mul_abs_le(intensity as int, INTENSITY_MAX as int,
                    p as int, SCALE as int);
            }
            clamp128(fxdiv(intensity as i128 * p as i128, SCALE as i128), 0, intensity)
        },
        None => 0,
    };
    LightColor::new(color, diffuse + shine_term)
}

/// All bodies of a sequence are well-formed.
pub open spec fn bodies_wf(s: Seq<Body>) -> bool {
    forall|i: int| 0 <= i < s.len() ==> body_wf((#[trigger] s[i])@)
}

/// The values of a sequence of bodies.
pub open spec fn body_views(s: Seq<Body>) -> Seq<BodyV> {
    Seq::new(s.len(), |i: int| s[i]@)
}

/// The executable contribution agrees with the specification one.
pub open spec fn opt_lc_matches(r: Option<LightColor>, s: Option<LCV>) -> bool {
    match (r, s) {
        (Some(l), Some(v)) => l@ == v,
        (None, None) => true,
        _ => false,
    }
}

/// A body occludes a point light when the shadow ray meets it strictly
/// closer than the light.
pub open spec fn s_occludes_point(b: BodyV, shadow: RayV, dist: int) -> bool {
    match s_intersect(b, shadow) {
        Some(iv) => sv_dist(shadow.point, iv.point) < dist,
        None => false,
    }
}

/// A point light's contribution: none when any body occludes the shadow
/// ray toward the light, else diffuse plus specular from the direction to
/// the light.  A light sitting exactly at the hit point casts no shadow
/// ray and contributes through the degenerate-direction rule.
pub open spec fn s_point_light_calc(
    position: V3,
    color: Option<ColorV>,
    intensity: int,
    ray: RayV,
    it: IntV,
    bodies: Seq<BodyV>,
) -> Option<LCV> {
    let p = it.point;
    let dir = sv_sub(position, p);
    if dir == (V3 { x: 0, y: 0, z: 0 }) {
        Some(s_calc_light(dir, ray, intensity, color, it))
    } else {
        let dist = sv_dist(p, position);
        let shadow = RayV { point: p, direction: sv_norm(dir) };
        if exists|i: int|
            0 <= i < bodies.len() && s_occludes_point(#[trigger] bodies[i], shadow, dist) {
            None
        } else {
            Some(s_calc_light(dir, ray, intensity, color, it))
        }
    }
}

/// A directional light's contribution: none when any body intersects the
/// shadow ray against the light's direction (the light is at infinity, so
/// any hit occludes), else diffuse plus specular from the reversed
/// direction.
pub open spec fn s_direct_light_calc(
    direction: V3,
    color: Option<ColorV>,
    intensity: int,
    ray: RayV,
    it: IntV,
    bodies: Seq<BodyV>,
) -> Option<LCV> {
    let shadow = RayV { point: it.point, direction: sv_norm(sv_neg(direction)) };
    if exists|i: int|
        0 <= i < bodies.len() && s_intersect(#[trigger] bodies[i], shadow) is Some {
        None
    } else {
        Some(s_calc_light(sv_neg(direction), ray, intensity, color, it))
    }
}

/// An ambient light's contribution: its tint and intensity, always.
pub open spec fn s_ambient_light_calc(color: Option<ColorV>, intensity: int) -> Option<LCV> {
    Some(LCV { color, intensity })
}


/// Scan the bodies for one that occludes a point light's shadow ray.
#[verifier::rlimit(100)]
fn point_occluded(sray: &Ray, dist: i64, it: &Vec<Body>) -> (r: bool)
    requires
        ray_wf(sray@),
        bodies_wf(it@),
    ensures
        r == exists|i: int|
            0 <= i < it@.len() && s_occludes_point(#[trigger] body_views(it@)[i], sray@,
                dist as int),
{
    let ghost bodies = body_views(it@);
    let mut i: usize = 0;
    while i < it.len()
        invariant
            0 <= i <= it@.len(),
            bodies == body_views(it@),
            ray_wf(sray@),
            bodies_wf(it@),
            forall|j: int| 0 <= j < i ==> !s_occludes_point(#[trigger] bodies[j], sray@, dist as int),
        decreases it@.len() - i,
    {
        let b = &it[i];
        if let Some(int2) = b.intersect(sray) {
            let d2 = sray.distance(int2.point);
            if d2 < dist {
                proof {
                    assert(s_occludes_point(bodies[i as int], sray@, dist as int));
                }
                return true;
            }
        }
        i = i + 1;
    }
    false
}

/// Scan the bodies for one that intersects a directional light's shadow
/// ray at all.
#[verifier::rlimit(100)]
fn direct_occluded(sray: &Ray, it: &Vec<Body>) -> (r: bool)
    requires
        ray_wf(sray@),
        bodies_wf(it@),
    ensures
        r == exists|i: int|
            0 <= i < it@.len() && s_intersect(#[trigger] body_views(it@)[i], sray@) is Some,
{
    let ghost bodies = body_views(it@);
    let mut i: usize = 0;
    while i < it.len()
        invariant
            0 <= i <= it@.len(),
            bodies == body_views(it@),
            ray_wf(sray@),
            bodies_wf(it@),
            forall|j: int| 0 <= j < i ==> !(s_intersect(#[trigger] bodies[j], sray@) is Some),
        decreases it@.len() - i,
    {
        let b = &it[i];
        if let Some(_int2) = b.intersect(sray) {
            proof {
                assert(s_intersect(bodies[i as int], sray@) is Some);
            }
            return true;
        }
        i = i + 1;
    }
    false
}

/// A light that radiates from a point in space.
pub struct PointLight {
    pub position: Point3,
    pub color: Option<Color>,
    pub intensity: i64,
}

/// A light at infinity, arriving from a fixed direction.
pub struct DirectLight {
    pub color: Option<Color>,
    pub intensity: i64,
    pub direction: Vec3,
}

/// A light that illuminates every point equally, without occlusion.
pub struct AmbientLight {
    pub color: Option<Color>,
    pub intensity: i64,
}

/// The unbounded-integer value of a light.
pub enum LightV {
    Point { position: V3, color: Option<ColorV>, intensity: int },
    Direct { direction: V3, color: Option<ColorV>, intensity: int },
    Ambient { color: Option<ColorV>, intensity: int },
}

impl View for PointLight {
    type V = LightV;

    open spec fn view(&self) -> LightV {
        LightV::Point {
            position: self.position@,
            color: opt_color_view(self.color),
            intensity: self.intensity as int,
        }
    }
}

impl View for DirectLight {
    type V = LightV;

    open spec fn view(&self) -> LightV {
        LightV::Direct {
            direction: self.direction@,
            color: opt_color_view(self.color),
            intensity: self.intensity as int,
        }
    }
}

impl View for AmbientLight {
    type V = LightV;

    open spec fn view(&self) -> LightV {
        LightV::Ambient { color: opt_color_view(self.color), intensity: self.intensity as int }
    }
}

/// A well-formed light: intensity within `[0, INTENSITY_MAX]`, position or
/// direction inside the scene cube, and a nonzero direction for a
/// directional light.
pub open spec fn light_wf(l: LightV) -> bool {
    match l {
        LightV::Point { position, color, intensity } => in_range(
            position,
            crate::fixed::GEOM_MAX as int,
        ) && 0 <= intensity <= INTENSITY_MAX as int,
        LightV::Direct { direction, color, intensity } => in_range(
            direction,
            crate::fixed::GEOM_MAX as int,
        ) && direction != (V3 { x: 0, y: 0, z: 0 }) && 0 <= intensity <= INTENSITY_MAX as int,
        LightV::Ambient { color, intensity } => 0 <= intensity <= INTENSITY_MAX as int,
    }
}

impl PointLight {
    /// A point light without a tint.
    pub fn new(position: Point3, intensity: i64) -> (r: Self)
        requires
            in_range(position@, crate::fixed::GEOM_MAX as int),
            0 <= intensity <= INTENSITY_MAX,
        ensures
            r@ == (LightV::Point { position: position@, color: None, intensity: intensity as int }),
            light_wf(r@),
    {
        Self { position, color: None, intensity }
    }

    /// A point light with a tint.
    pub fn new_color(position: Point3, intensity: i64, color: Color) -> (r: Self)
        requires
            in_range(position@, crate::fixed::GEOM_MAX as int),
            0 <= intensity <= INTENSITY_MAX,
        ensures
            r@ == (LightV::Point {
                position: position@,
                color: Some(color@),
                intensity: intensity as int,
            }),
            light_wf(r@),
    {
        Self { position, color: Some(color), intensity }
    }

    /// This light's contribution at a hit, or `None` when occluded.
    #[verifier::rlimit(100)]
    pub fn calc(&self, ray: &Ray, intersection: &Intersection, it: &Vec<Body>) -> (r: Option<
        LightColor,
    >)
        requires
            ray_wf(ray@),
            int_wf(intersection@),
            bodies_wf(it@),
            light_wf(self@),
        ensures
            opt_lc_matches(
                r,
                s_point_light_calc(
                    self.position@,
                    opt_color_view(self.color),
                    self.intensity as int,
                    ray@,
                    intersection@,
                    body_views(it@),
                ),
            ),
            (match r {
                Some(l) => lc_wf(l@) && l@.intensity <= 2 * self.intensity as int,
                None => true,
            }),
    {
        let p = intersection.point;
        let dir = self.position.sub(p);
        if dir.x == 0 && dir.y == 0 && dir.z == 0 {
            return Some(calc_light(dir, ray, self.intensity, self.color, intersection));
        }
        let dist = p.distance(self.position);
        let sray = Ray::new(p, dir);
        if point_occluded(&sray, dist, it) {
            None
        } else {
            Some(calc_light(dir, ray, self.intensity, self.color, intersection))
        }
    }
}

impl DirectLight {
    /// A directional light without a tint.
    pub fn new(direction: Vec3, intensity: i64) -> (r: Self)
        requires
            in_range(direction@, crate::fixed::GEOM_MAX as int),
            direction@ != (V3 { x: 0, y: 0, z: 0 }),
            0 <= intensity <= INTENSITY_MAX,
        ensures
            r@ == (LightV::Direct {
                direction: direction@,
                color: None,
                intensity: intensity as int,
            }),
            light_wf(r@),
    {
        Self { color: None, intensity, direction }
    }

    /// This light's contribution at a hit, or `None` when occluded.
    #[verifier::rlimit(60)]
    pub fn calc(&self, ray: &Ray, intersection: &Intersection, it: &Vec<Body>) -> (r: Option<
        LightColor,
    >)
        requires
            ray_wf(ray@),
            int_wf(intersection@),
            bodies_wf(it@),
            light_wf(self@),
        ensures
            opt_lc_matches(
                r,
                s_direct_light_calc(
                    self.direction@,
                    opt_color_view(self.color),
                    self.intensity as int,
                    ray@,
                    intersection@,
                    body_views(it@),
                ),
            ),
            (match r {
                Some(l) => lc_wf(l@) && l@.intensity <= 2 * self.intensity as int,
                None => true,
            }),
    {
        let nd = Vec3 { x: -self.direction.x, y: -self.direction.y, z: -self.direction.z };
        let sray = Ray::new(intersection.point, nd);
        if direct_occluded(&sray, it) {
            None
        } else {
            Some(calc_light(nd, ray, self.intensity, self.color, intersection))
        }
    }
}

impl AmbientLight {
    /// An ambient light without a tint.
    pub fn new(intensity: i64) -> (r: Self)
        requires
            0 <= intensity <= INTENSITY_MAX,
        ensures
            r@ == (LightV::Ambient { color: None, intensity: intensity as int }),
            light_wf(r@),
    {
        Self { color: None, intensity }
    }

    /// This light's contribution: its own tint and intensity, always.
    pub fn calc(&self, _ray: &Ray, _intersection: &Intersection, _it: &Vec<Body>) -> (r: Option<
        LightColor,
    >)
        requires
            light_wf(self@),
        ensures
            opt_lc_matches(
                r,
                s_ambient_light_calc(opt_color_view(self.color), self.intensity as int),
            ),
            (match r {
                Some(l) => lc_wf(l@) && l@.intensity <= 2 * self.intensity as int,
                None => true,
            }),
    {
        Some(LightColor::new(self.color, self.intensity))
    }
}

/// The closed set of light kinds a scene can hold.
pub enum LightKind {
    Point(PointLight),
    Direct(DirectLight),
    Ambient(AmbientLight),
}

impl View for LightKind {
    type V = LightV;

    open spec fn view(&self) -> LightV {
        match self {
            LightKind::Point(l) => l@,
            LightKind::Direct(l) => l@,
            LightKind::Ambient(l) => l@,
        }
    }
}

/// One light's contribution at a hit, whatever its kind.
pub open spec fn s_light_calc(l: LightV, ray: RayV, it: IntV, bodies: Seq<BodyV>) -> Option<
    LCV,
> {
    match l {
        LightV::Point { position, color, intensity } => s_point_light_calc(
            position,
            color,
            intensity,
            ray,
            it,
            bodies,
        ),
        LightV::Direct { direction, color, intensity } => s_direct_light_calc(
            direction,
            color,
            intensity,
            ray,
            it,
            bodies,
        ),
        LightV::Ambient { color, intensity } => s_ambient_light_calc(color, intensity),
    }
}

/// The intensity a light can contribute.
pub open spec fn light_intensity(l: LightV) -> int {
    match l {
        LightV::Point { position, color, intensity } => intensity,
        LightV::Direct { direction, color, intensity } => intensity,
        LightV::Ambient { color, intensity } => intensity,
    }
}

impl LightKind {
    /// This light's contribution at a hit, or `None` when occluded.
    pub fn calc(&self, ray: &Ray, intersection: &Intersection, it: &Vec<Body>) -> (r: Option<
        LightColor,
    >)
        requires
            ray_wf(ray@),
            int_wf(intersection@),
            bodies_wf(it@),
            light_wf(self@),
        ensures
            opt_lc_matches(r, s_light_calc(self@, ray@, intersection@, body_views(it@))),
            (match r {
                Some(l) => lc_wf(l@) && l@.intensity <= 2 * light_intensity(self@),
                None => true,
            }),
    {
        match self {
            LightKind::Point(l) => l.calc(ray, intersection, it),
            LightKind::Direct(l) => l.calc(ray, intersection, it),
            LightKind::Ambient(l) => l.calc(ray, intersection, it),
        }
    }
}

} // verus!
