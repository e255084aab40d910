//! The canvas of pixels, the scene that owns primitives, lights and camera,
//! and the recursive tracer that fills the canvas.

use vstd::prelude::*;
use crate::camera::{camera_wf, s_camera_new, s_get_ray, Camera, RES_MAX};
use crate::fixed::{INTENSITY_MAX, SCALE};
use crate::light::{
    bodies_wf, body_views, lc_wf, light_wf, s_calc_color, s_lc_add, s_light_calc,
    LightColor, LightKind, LightV, LCV,
};
use crate::material::{Color, ColorV};
use crate::object::{int_matches, int_wf, s_intersect, Body, BodyV, Intersection, IntV};
use crate::ray::{ray_wf, Ray, RayV};
use crate::vector::sv_dist;

verus! {

/// Largest number of lights a scene will hold; keeps the total accumulated
/// intensity within range.
pub const MAX_LIGHTS: usize = 1_000_000;

/// One canvas cell: three 8-bit channels.
#[derive(Clone, Copy, Debug, PartialEq, Eq, Structural)]
pub struct Pixel(pub u8, pub u8, pub u8);

impl Default for Pixel {
    /// Black.
    fn default() -> (r: Self)
        ensures
            r == (Pixel(0, 0, 0)),
    {
        Color::default().pixel()
    }
}

/// The pixels of the first `k` rows, in row-major order.
pub open spec fn canvas_flat(m: Seq<Vec<Pixel>>, k: int) -> Seq<Pixel>
    decreases k,
{
    if k <= 0 {
        Seq::empty()
    } else {
        canvas_flat(m, k - 1) + m[k - 1]@
    }
}

/// The canvas has `height` rows of `width` pixels each.
pub open spec fn canvas_dims(m: Seq<Vec<Pixel>>, width: int, height: int) -> bool {
    &&& m.len() == height
    &&& forall|y: int| 0 <= y < height ==> (#[trigger] m[y])@.len() == width
}

/// A 2-D grid of pixels, row-major, fully overwritten on every render.
pub struct Canvas {
    pub matrix: Vec<Vec<Pixel>>,
}

impl Canvas {
    /// A canvas of the given size, all pixels black.
    pub fn new(width: u32, height: u32) -> (r: Canvas)
        ensures
            canvas_dims(r.matrix@, width as int, height as int),
            forall|y: int, x: int|
                0 <= y < height && 0 <= x < width ==> (#[trigger] r.matrix@[y]@[x]) == (Pixel(
                    0,
                    0,
                    0,
                )),
    {
        let mut matrix: Vec<Vec<Pixel>> = Vec::new();
        let mut y: u32 = 0;
        while y < height
            invariant
                0 <= y <= height,
                matrix@.len() == y as int,
                forall|i: int| 0 <= i < y as int ==> (#[trigger] matrix@[i])@.len() == width as int,
                forall|i: int, x: int|
                    0 <= i < y as int && 0 <= x < width ==> (#[trigger] matrix@[i]@[x]) == (Pixel(
                        0,
                        0,
                        0,
                    )),
            decreases height - y,
        {
            let mut row: Vec<Pixel> = Vec::new();
            let mut x: u32 = 0;
            while x < width
                invariant
                    0 <= x <= width,
                    row@.len() == x as int,
                    forall|j: int| 0 <= j < x as int ==> (#[trigger] row@[j]) == (Pixel(0, 0, 0)),
                decreases width - x,
            {
                row.push(Pixel::default());
                x = x + 1;
            }
            matrix.push(row);
            y = y + 1;
        }
        Canvas { matrix }
    }

    /// All pixels, row-major, as one vector.
    pub fn iter(&self) -> (r: Vec<Pixel>)
        ensures
            r@ == canvas_flat(self.matrix@, self.matrix@.len() as int),
    {
        let mut flat: Vec<Pixel> = Vec::new();
        let mut y: usize = 0;
        while y < self.matrix.len()
            invariant
                0 <= y <= self.matrix@.len(),
                flat@ == canvas_flat(self.matrix@, y as int),
            decreases self.matrix@.len() - y,
        {
            let row = &self.matrix[y];
            let mut x: usize = 0;
            while x < row.len()
                invariant
                    0 <= x <= row@.len(),
                    y < self.matrix@.len(),
                    row@ == self.matrix@[y as int]@,
                    flat@ == canvas_flat(self.matrix@, y as int) + row@.subrange(0, x as int),
                decreases row@.len() - x,
            {
                flat.push(row[x]);
                proof {
                    assert(row@.subrange(0, x as int).push(row@[x as int]) == row@.subrange(
                        0,
                        x as int + 1,
                    ));
                }
                x = x + 1;
            }
            proof {
                assert(row@.subrange(0, row@.len() as int) == row@);
            }
            y = y + 1;
        }
        flat
    }

    /// The `(width, height)` of the canvas; the canvas must be nonempty.
    pub fn size(&self) -> (r: (u32, u32))
        requires
            self.matrix@.len() > 0,
            self.matrix@.len() <= u32::MAX,
            self.matrix@[0]@.len() <= u32::MAX,
        ensures
            r.0 as int == self.matrix@[0]@.len(),
            r.1 as int == self.matrix@.len(),
    {
        (self.matrix[0].len() as u32, self.matrix.len() as u32)
    }
}

/// All lights of a sequence are well-formed.
pub open spec fn lights_wf(s: Seq<LightKind>) -> bool {
    forall|i: int| 0 <= i < s.len() ==> light_wf((#[trigger] s[i])@)
}

/// The values of a sequence of lights.
pub open spec fn light_views(s: Seq<LightKind>) -> Seq<LightV> {
    Seq::new(s.len(), |i: int| s[i]@)
}

/// The scene: the owner of all render-time state.
pub struct Scene {
    pub width: u32,
    pub height: u32,
    pub bodies: Vec<Body>,
    pub lights: Vec<LightKind>,
    pub camera: Camera,
}

/// A well-formed scene: every body, light and the camera well-formed, a
/// bounded number of lights, and a positive resolution.
pub open spec fn scene_wf(s: Scene) -> bool {
    &&& bodies_wf(s.bodies@)
    &&& lights_wf(s.lights@)
    &&& camera_wf(s.camera@)
    &&& s.lights@.len() <= MAX_LIGHTS as int
    &&& 1 <= s.width <= RES_MAX
    &&& 1 <= s.height <= RES_MAX
}

/// The nearest intersection among the first `n` bodies: scanned in order,
/// a later body replaces the held one only when its hit is strictly
/// closer to the ray's origin.
pub open spec fn s_nearest(bodies: Seq<BodyV>, ray: RayV, n: int) -> Option<IntV>
    decreases n,
{
    if n <= 0 {
        None
    } else {
        let prev = s_nearest(bodies, ray, n - 1);
        match s_intersect(bodies[n - 1], ray) {
            None => prev,
            Some(iv) => {
                let dv = sv_dist(ray.point, iv.point);
                match prev {
                    None => Some(iv),
                    Some(pv) => if dv < sv_dist(ray.point, pv.point) {
                        Some(iv)
                    } else {
                        Some(pv)
                    },
                }
            },
        }
    }
}

/// The merged contribution of the first `n` lights at a hit; lights that
/// return no contribution simply do not participate.
pub open spec fn s_fold_lights(
    lights: Seq<LightV>,
    ray: RayV,
    it: IntV,
    bodies: Seq<BodyV>,
    n: int,
) -> LCV
    decreases n,
{
    if n <= 0 {
        LCV { color: None, intensity: 0 }
    } else {
        let prev = s_fold_lights(lights, ray, it, bodies, n - 1);
        match s_light_calc(lights[n - 1], ray, it, bodies) {
            Some(c) => s_lc_add(prev, c),
            None => prev,
        }
    }
}

/// The color traced along a ray: black past the last intersection; else
/// the locally shaded color, blended with the recursively traced color of
/// the reflected ray when the material reflects and the depth limit (two
/// bounces) has not been passed.
pub open spec fn s_trace(
    bodies: Seq<BodyV>,
    lights: Seq<LightV>,
    ray: RayV,
    depth: int,
) -> ColorV
    decreases 3 - depth,
    when depth <= 3
{
    match s_nearest(bodies, ray, bodies.len() as int) {
        None => ColorV { r: 0, g: 0, b: 0 },
        Some(iv) => {
            let color = s_calc_color(
                s_fold_lights(lights, ray, iv, bodies, lights.len() as int),
                iv.material,
            );
            if iv.material.reflection == 0 || depth > 2 {
                color
            } else {
                let rc = s_trace(bodies, lights, iv.reflect, depth + 1);
                crate::material::s_color_add(
                    crate::material::s_color_scaled(color, SCALE as int - iv.material.reflection),
                    crate::material::s_color_scaled(rc, iv.material.reflection),
                )
            }
        },
    }
}

/// At the depth limit the recursion has stopped: the traced color of a ray
/// at the deepest reachable depth is the locally shaded color alone, with
/// no reflected contribution, however reflective the hit material is.
/// (That no deeper depth is ever reached is checked by the termination
/// measure of [`s_trace`] and [`Raytracer::trace`].)
pub proof fn lemma_trace_depth_limit(bodies: Seq<BodyV>, lights: Seq<LightV>, ray: RayV)
    ensures
        s_trace(bodies, lights, ray, 3) == (match s_nearest(bodies, ray, bodies.len() as int) {
            None => ColorV { r: 0, g: 0, b: 0 },
            Some(iv) => s_calc_color(
                s_fold_lights(lights, ray, iv, bodies, lights.len() as int),
                iv.material,
            ),
        }),
{
}

/// The executable pixel shows the specification color.
pub open spec fn pixel_is(p: Pixel, c: ColorV) -> bool {
    p.0 as int == c.r && p.1 as int == c.g && p.2 as int == c.b
}

impl Scene {
    /// An empty scene of the given resolution, with a fresh camera.
    pub fn new(width: u32, height: u32) -> (r: Scene)
        requires
            1 <= width <= RES_MAX,
            1 <= height <= RES_MAX,
        ensures
            r.width == width,
            r.height == height,
            r.bodies@.len() == 0,
            r.lights@.len() == 0,
            r.camera@ == s_camera_new(width as int, height as int),
            scene_wf(r),
    {
        Scene {
            width,
            height,
            bodies: Vec::new(),
            lights: Vec::new(),
            camera: Camera::new(width, height),
        }
    }

    /// Add a primitive; primitives are added during setup and read-only
    /// afterwards.
    pub fn add(&mut self, obj: Body)
        requires
            scene_wf(*old(self)),
            crate::object::body_wf(obj@),
        ensures
            final(self).bodies@ == old(self).bodies@.push(obj),
            final(self).lights == old(self).lights,
            final(self).camera == old(self).camera,
            final(self).width == old(self).width,
            final(self).height == old(self).height,
            scene_wf(*final(self)),
    {
        self.bodies.push(obj);
    }

    /// Add a light; a light beyond the scene's capacity is ignored.
    pub fn add_light(&mut self, light: LightKind)
        requires
            scene_wf(*old(self)),
            light_wf(light@),
        ensures
            old(self).lights@.len() < MAX_LIGHTS as int ==> final(self).lights@ == old(
                self,
            ).lights@.push(light),
            old(self).lights@.len() >= MAX_LIGHTS as int ==> final(self).lights@ == old(
                self,
            ).lights@,
            final(self).bodies == old(self).bodies,
            final(self).camera == old(self).camera,
            final(self).width == old(self).width,
            final(self).height == old(self).height,
            scene_wf(*final(self)),
    {
        if self.lights.len() < MAX_LIGHTS {
            self.lights.push(light);
        }
    }

    /// The nearest intersection of a ray with any body of the scene.
    pub fn nearest_intersection(&self, ray: &Ray) -> (r: Option<Intersection>)
        requires
            scene_wf(*self),
            ray_wf(ray@),
        ensures
            int_matches(r, s_nearest(body_views(self.bodies@), ray@, self.bodies@.len() as int)),
            (match s_nearest(body_views(self.bodies@), ray@, self.bodies@.len() as int) {
                Some(iv) => int_wf(iv),
                None => true,
            }),
    {
        let ghost bodies = body_views(self.bodies@);
        let mut res: Option<Intersection> = None;
        let mut res_dist: i64 = i64::MAX;
        let mut i: usize = 0;
        while i < self.bodies.len()
            invariant
                0 <= i <= self.bodies@.len(),
                bodies == body_views(self.bodies@),
                bodies_wf(self.bodies@),
                ray_wf(ray@),
                int_matches(res, s_nearest(bodies, ray@, i as int)),
                (match s_nearest(bodies, ray@, i as int) {
                    Some(iv) => int_wf(iv),
                    None => true,
                }),
                (match res {
                    Some(held) => res_dist as int == sv_dist(ray@.point, held@.point)
                        && res_dist < i64::MAX,
                    None => res_dist == i64::MAX,
                }),
            decreases self.bodies@.len() - i,
        {
            let b = &self.bodies[i];
            if let Some(int2) = b.intersect(ray) {
                let dist = ray.distance(int2.point);
                if dist < res_dist {
                    res_dist = dist;
                    res = Some(int2);
                }
            }
            i = i + 1;
        }
        res
    }

    /// The merged contribution of all lights at a hit.
    #[verifier::rlimit(100)]
    pub fn calc_light(&self, ray: &Ray, intersection: &Intersection) -> (r: LightColor)
        requires
            scene_wf(*self),
            ray_wf(ray@),
            int_wf(intersection@),
        ensures
            r@ == s_fold_lights(
                light_views(self.lights@),
                ray@,
                intersection@,
                body_views(self.bodies@),
                self.lights@.len() as int,
            ),
            lc_wf(r@),
    {
        let ghost lights = light_views(self.lights@);
        let ghost bodies = body_views(self.bodies@);
        let mut res = LightColor::new(None, 0);
        let mut i: usize = 0;
        while i < self.lights.len()
            invariant
                0 <= i <= self.lights@.len(),
                self.lights@.len() <= MAX_LIGHTS as int,
                lights == light_views(self.lights@),
                bodies == body_views(self.bodies@),
                bodies_wf(self.bodies@),
                lights_wf(self.lights@),
                ray_wf(ray@),
                int_wf(intersection@),
                res@ == s_fold_lights(lights, ray@, intersection@, bodies, i as int),
                lc_wf(res@),
                res@.intensity <= i as int * (2 * INTENSITY_MAX as int),
            decreases self.lights@.len() - i,
        {
            let light = &self.lights[i];
            if let Some(color) = light.calc(ray, intersection, &self.bodies) {
                proof {
                    assert((i as int + 1) * (2 * INTENSITY_MAX as int) == i as int * (2
                        * INTENSITY_MAX as int) + 2 * INTENSITY_MAX as int) by (nonlinear_arith);
                }
                res = res.add(color);
            } else {
                proof {
                    assert((i as int + 1) * (2 * INTENSITY_MAX as int) == i as int * (2
                        * INTENSITY_MAX as int) + 2 * INTENSITY_MAX as int) by (nonlinear_arith);
                }
            }
            i = i + 1;
        }
        res
    }
}

/// The tracer: owns the scene and the canvas it renders into.
pub struct Raytracer {
    pub canvas: Canvas,
    pub scene: Scene,
}

impl Raytracer {
    /// A tracer for a scene, with a canvas of the scene's resolution.
    pub fn new(scene: Scene) -> (r: Raytracer)
        requires
            scene_wf(scene),
        ensures
            r.scene == scene,
            canvas_dims(r.canvas.matrix@, scene.width as int, scene.height as int),
    {
        Raytracer { canvas: Canvas::new(scene.width, scene.height), scene }
    }

    /// The color seen along a ray, recursing along reflected rays up to
    /// the depth limit.
    pub fn trace(&self, ray: Ray, depth: i32) -> (r: Color)
        requires
            scene_wf(self.scene),
            ray_wf(ray@),
            0 <= depth <= 3,
        ensures
            r@ == s_trace(
                body_views(self.scene.bodies@),
                light_views(self.scene.lights@),
                ray@,
                depth as int,
            ),
        decreases 3 - depth,
    {
        if let Some(hit) = self.scene.nearest_intersection(&ray) {
            let color = self.scene.calc_light(&ray, &hit).calc_color(hit.material);
            if hit.material.reflection == 0 || depth > 2 {
                color
            } else {
                let reflected_color = self.trace(hit.reflect, depth + 1);
                color.mul_scaled(SCALE - hit.material.reflection).add(
                    reflected_color.mul_scaled(hit.material.reflection),
                )
            }
        } else {
            Color::default()
        }
    }

    /// Render the scene: every canvas pixel is overwritten with the traced
    /// color of its camera ray.
    pub fn render(&mut self)
        requires
            scene_wf(old(self).scene),
        ensures
            final(self).scene == old(self).scene,
            canvas_dims(
                final(self).canvas.matrix@,
                old(self).scene.width as int,
                old(self).scene.height as int,
            ),
            forall|y: int, x: int|
                0 <= y < old(self).scene.height as int && 0 <= x < old(self).scene.width as int
                    ==> pixel_is(
                    #[trigger] final(self).canvas.matrix@[y]@[x],
                    s_trace(
                        body_views(old(self).scene.bodies@),
                        light_views(old(self).scene.lights@),
                        s_get_ray(old(self).scene.camera@, x, y),
                        0,
                    ),
                ),
    {
        let ghost bodies = body_views(self.scene.bodies@);
        let ghost lights = light_views(self.scene.lights@);
        let width = self.scene.width;
        let height = self.scene.height;
        let mut matrix: Vec<Vec<Pixel>> = Vec::new();
        let mut y: u32 = 0;
        while y < height
            invariant
                0 <= y <= height,
                scene_wf(self.scene),
                width == self.scene.width,
                height == self.scene.height,
                bodies == body_views(self.scene.bodies@),
                lights == light_views(self.scene.lights@),
                matrix@.len() == y as int,
                forall|i: int| 0 <= i < y as int ==> (#[trigger] matrix@[i])@.len() == width as int,
                forall|i: int, x: int|
                    0 <= i < y as int && 0 <= x < width as int ==> pixel_is(
                        #[trigger] matrix@[i]@[x],
                        s_trace(bodies, lights, s_get_ray(self.scene.camera@, x, i), 0),
                    ),
            decreases height - y,
        {
            let mut row: Vec<Pixel> = Vec::new();
            let mut x: u32 = 0;
            while x < width
                invariant
                    0 <= x <= width,
                    y < height,
                    scene_wf(self.scene),
                    width == self.scene.width,
                    height == self.scene.height,
                    bodies == body_views(self.scene.bodies@),
                    lights == light_views(self.scene.lights@),
                    row@.len() == x as int,
                    forall|j: int|
                        0 <= j < x as int ==> pixel_is(
                            #[trigger] row@[j],
                            s_trace(bodies, lights, s_get_ray(self.scene.camera@, j, y as int), 0),
                        ),
                decreases width - x,
            {
                let ray = self.scene.camera.get_ray((x, y));
                let color = self.trace(ray, 0);
                row.push(color.pixel());
                x = x + 1;
            }
            matrix.push(row);
            y = y + 1;
        }
        self.canvas = Canvas { matrix };
    }
}

} // verus!
