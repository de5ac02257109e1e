//! Camera and integrator: viewport geometry, ray generation, and the
//! recursive radiance evaluation.
//!
//! The camera's derived state (orthonormal basis, pixel deltas, first
//! pixel location) is computed by an explicit initialization step from the
//! configuration; `init` reports whether the configuration admits one,
//! and `render` succeeds exactly when it does.

use vstd::prelude::*;
use crate::color::Color;
use crate::fx::{
    SCALE, fadd, fadd_s, fdiv, fdiv_s, fdivi, fdivi_s, fmul, fmul_s, fmuli, fmuli_s, fsub, fsub_s,
};
use crate::hittable::Hittable;
use crate::ray::{Ray, spec_ray_new};
use crate::vec3::{
    Point3, Vec3, spec_cross, spec_length, spec_minus, spec_mul_comp, spec_neg, spec_normalize,
    spec_plus, spec_scale,
};

verus! {

/// Pi in fixed point.
pub const PI_FX: i64 = 205887;

/// Lower end of the hit window used by the integrator: a hundredth of a
/// unit, so a scattered ray cannot re-hit its own surface through
/// rounding ("shadow acne").
pub const T_MIN_HIT: i64 = 655;

/// Half the vertical field of view, in fixed-point radians.
pub open spec fn spec_half_rad(vfov: int) -> int {
    fdivi_s(fmul_s(vfov, PI_FX as int), 360)
}

/// Sine, by the Taylor polynomial of degree seven evaluated in fixed
/// point; adequate on the half-turn the field of view can span.
pub open spec fn spec_sin_fx(x: int) -> int {
    let x2 = fmul_s(x, x);
    let x3 = fmul_s(x2, x);
    let x5 = fmul_s(x3, x2);
    let x7 = fmul_s(x5, x2);
    fsub_s(fadd_s(fsub_s(x, fdivi_s(x3, 6)), fdivi_s(x5, 120)), fdivi_s(x7, 5040))
}

/// Cosine, by the Taylor polynomial of degree six evaluated in fixed
/// point.
pub open spec fn spec_cos_fx(x: int) -> int {
    let x2 = fmul_s(x, x);
    let x4 = fmul_s(x2, x2);
    let x6 = fmul_s(x4, x2);
    fsub_s(fadd_s(fsub_s(SCALE as int, fdivi_s(x2, 2)), fdivi_s(x4, 24)), fdivi_s(x6, 720))
}

/// Sine.
pub fn sin_fx(x: i64) -> (r: i64)
    ensures
        r as int == spec_sin_fx(x as int),
{
    let x2 = fmul(x, x);
    let x3 = fmul(x2, x);
    let x5 = fmul(x3, x2);
    let x7 = fmul(x5, x2);
    fsub(fadd(fsub(x, fdivi(x3, 6)), fdivi(x5, 120)), fdivi(x7, 5040))
}

/// Cosine.
pub fn cos_fx(x: i64) -> (r: i64)
    ensures
        r as int == spec_cos_fx(x as int),
{
    let x2 = fmul(x, x);
    let x4 = fmul(x2, x2);
    let x6 = fmul(x4, x2);
    fsub(fadd(fsub(SCALE, fdivi(x2, 2)), fdivi(x4, 24)), fdivi(x6, 720))
}

#[derive(Clone, Copy, PartialEq, Eq, Structural, Debug)]
pub struct Camera {
    pub image_width: i32,
    pub image_height: i32,
    pub max_depth: i32,
    pub samples_per_pixel: i32,
    pub vfov: i64,
    pub look_from: Vec3,
    pub look_at: Vec3,
    pub up: Vec3,
    pub center: Vec3,
    pub pixel_sample_scale: i64,
    pub aspect_ratio: i64,
    pub pixel00_loc: Point3,
    pub pixel_delta_u: Vec3,
    pub pixel_delta_v: Vec3,
    pub basis_u: Vec3,
    pub basis_v: Vec3,
    pub basis_w: Vec3,
}

/// The gaze vector, from the target back to the eye.
pub open spec fn spec_gaze(c: Camera) -> Vec3 {
    spec_minus(c.look_from, c.look_at)
}

/// Focal length: the distance from the eye to the target.
pub open spec fn spec_focal(c: Camera) -> int {
    spec_length(spec_gaze(c))
}

/// Basis vector pointing from the target to the eye.
pub open spec fn spec_basis_w(c: Camera) -> Vec3 {
    spec_normalize(spec_gaze(c))
}

/// Basis vector pointing to the camera's right.
pub open spec fn spec_basis_u(c: Camera) -> Vec3 {
    spec_normalize(spec_cross(c.up, spec_basis_w(c)))
}

/// Basis vector pointing up in the camera frame.
pub open spec fn spec_basis_v(c: Camera) -> Vec3 {
    spec_cross(spec_basis_w(c), spec_basis_u(c))
}

/// Tangent of half the field of view.
pub open spec fn spec_tan_half(c: Camera) -> int {
    fdiv_s(spec_sin_fx(spec_half_rad(c.vfov as int)), spec_cos_fx(spec_half_rad(c.vfov as int)))
}

/// Height of the viewport in world units.
pub open spec fn spec_viewport_height(c: Camera) -> int {
    fmul_s(fmuli_s(spec_tan_half(c), 2), spec_focal(c))
}

/// Width of the viewport in world units.
pub open spec fn spec_viewport_width(c: Camera) -> int {
    fmul_s(spec_viewport_height(c), fdiv_s(c.image_width as int, c.image_height as int))
}

/// The viewport's horizontal edge vector.
pub open spec fn spec_viewport_u(c: Camera) -> Vec3 {
    spec_scale(spec_basis_u(c), spec_viewport_width(c))
}

/// The viewport's vertical edge vector; inverted so that image row zero
/// is the top of the viewport.
pub open spec fn spec_viewport_v(c: Camera) -> Vec3 {
    spec_scale(spec_neg(spec_basis_v(c)), spec_viewport_height(c))
}

/// World-space step from one pixel to the next in a row.
pub open spec fn spec_pixel_delta_u(c: Camera) -> Vec3 {
    crate::vec3::spec_div_int(spec_viewport_u(c), c.image_width as int)
}

/// World-space step from one pixel row to the next.
pub open spec fn spec_pixel_delta_v(c: Camera) -> Vec3 {
    crate::vec3::spec_div_int(spec_viewport_v(c), c.image_height as int)
}

/// The world-space centre of the first pixel.
pub open spec fn spec_pixel00(c: Camera) -> Vec3 {
    let upper_left = spec_minus(
        spec_minus(
            spec_minus(c.look_from, spec_scale(spec_basis_w(c), spec_focal(c))),
            crate::vec3::spec_div_int(spec_viewport_u(c), 2),
        ),
        crate::vec3::spec_div_int(spec_viewport_v(c), 2),
    );
    spec_plus(
        upper_left,
        crate::vec3::spec_div_int(spec_plus(spec_pixel_delta_u(c), spec_pixel_delta_v(c)), 2),
    )
}

/// A configuration admits initialization when the image has pixels, each
/// pixel gets samples, the eye stands off the target, the half-angle
/// cosine is positive, and the up direction is not aligned with the gaze.
pub open spec fn spec_can_init(c: Camera) -> bool {
    &&& c.image_width >= 1
    &&& c.image_height >= 1
    &&& c.samples_per_pixel >= 1
    &&& spec_focal(c) > 0
    &&& spec_cos_fx(spec_half_rad(c.vfov as int)) > 0
    &&& spec_length(spec_cross(c.up, spec_basis_w(c))) > 0
}

/// The unnormalized direction from the eye to the jittered sample point
/// of pixel `(i, j)`.
pub open spec fn spec_get_dir(c: Camera, i: int, j: int, off: Vec3) -> Vec3 {
    let sample = spec_plus(
        spec_plus(
            c.pixel00_loc,
            spec_scale(c.pixel_delta_u, fadd_s(fmuli_s(i, SCALE as int), off.x as int)),
        ),
        spec_scale(c.pixel_delta_v, fadd_s(fmuli_s(j, SCALE as int), off.y as int)),
    );
    spec_minus(sample, c.center)
}

/// The ray through pixel `(i, j)` at jitter offset `off`.
pub open spec fn spec_get_ray(c: Camera, i: int, j: int, off: Vec3) -> Ray {
    spec_ray_new(c.center, spec_get_dir(c, i, j, off))
}

/// The background gradient: white at the bottom of the direction range,
/// sky blue at the top.
pub open spec fn spec_background(r: Ray) -> Vec3 {
    let t = fdivi_s(fadd_s(r.dir.y as int, SCALE as int), 2);
    spec_plus(
        spec_scale(Vec3 { x: SCALE, y: SCALE, z: SCALE }, fsub_s(SCALE as int, t)),
        spec_scale(Vec3 { x: 32768, y: 45875, z: SCALE }, t),
    )
}

/// The radiance values the integrator can return for a ray: black once
/// the depth budget is out; the background where nothing is hit;
/// otherwise, for some outcome the hit material's scattering law admits,
/// black on absorption or the attenuated radiance of the scattered ray.
pub open spec fn spec_radiance<T: Hittable>(world: T, ray: Ray, depth: int, c: Vec3) -> bool
    decreases depth,
{
    if depth <= 0 {
        c == (Vec3 { x: 0, y: 0, z: 0 })
    } else {
        match world.spec_hit(ray, T_MIN_HIT, i64::MAX) {
            None => c == spec_background(ray),
            Some(h) => exists|sc: Option<crate::material::Scatter>|
                #[trigger] crate::material::scatter_post(h.material, ray, h, sc) && match sc {
                    None => c == (Vec3 { x: 0, y: 0, z: 0 }),
                    Some(s) => exists|c2: Vec3|
                        c == #[trigger] spec_mul_comp(s.attenuation, c2) && spec_radiance(
                            world,
                            s.scattered,
                            depth - 1,
                            c2,
                        ),
                },
        }
    }
}

/// One admissible per-sample draw for pixel `(i, j)`: the jitter offset
/// lies in the pixel square and the colour is a radiance value of the
/// jittered ray at the camera's depth budget.
pub open spec fn sample_ok<T: Hittable>(
    c: Camera,
    world: T,
    i: int,
    j: int,
    off: Vec3,
    col: Vec3,
) -> bool {
    &&& -32768 <= off.x < 32768
    &&& -32768 <= off.y < 32768
    &&& off.z == 0
    &&& spec_radiance(world, spec_get_ray(c, i, j, off), c.max_depth as int, col)
}

/// A full set of admissible draws for pixel `(i, j)`, one per sample.
pub open spec fn samples_ok<T: Hittable>(
    c: Camera,
    world: T,
    i: int,
    j: int,
    offs: Seq<Vec3>,
    cols: Seq<Vec3>,
) -> bool {
    &&& offs.len() == c.samples_per_pixel
    &&& cols.len() == c.samples_per_pixel
    &&& forall|k: int|
        0 <= k < offs.len() ==> #[trigger] sample_ok(c, world, i, j, offs[k], cols[k])
}

/// Sum of colours, in accumulation order.
pub open spec fn spec_color_sum(s: Seq<Vec3>) -> Vec3
    decreases s.len(),
{
    if s.len() == 0 {
        Vec3 { x: 0, y: 0, z: 0 }
    } else {
        spec_plus(spec_color_sum(s.drop_last()), s.last())
    }
}

/// What a rendered pixel holds: the encoding of the sample-scaled sum of
/// admissible per-sample radiance values.
pub open spec fn pixel_post<T: Hittable>(
    c: Camera,
    world: T,
    i: int,
    j: int,
    px: (u8, u8, u8),
) -> bool {
    exists|offs: Seq<Vec3>, cols: Seq<Vec3>|
        #[trigger] samples_ok(c, world, i, j, offs, cols) && px == crate::color::spec_to_rgb8(
            spec_scale(spec_color_sum(cols), c.pixel_sample_scale as int),
        )
}

/// `pixel_post` at a row-major position: row `idx / width`, column
/// `idx % width`.
pub open spec fn pixel_at<T: Hittable>(c: Camera, world: T, idx: int, px: (u8, u8, u8)) -> bool {
    pixel_post(c, world, idx % (c.image_width as int), idx / (c.image_width as int), px)
}

impl Camera {
    /// A camera with the given frame and eye line, ten samples per pixel,
    /// recursion depth ten, and a right-angle vertical field of view.
    pub fn new(image_width: i32, image_height: i32, look_from: Vec3, look_at: Vec3, up: Vec3) -> (r:
        Self)
        ensures
            r.image_width == image_width,
            r.image_height == image_height,
            r.look_from == look_from,
            r.look_at == look_at,
            r.up == up,
            r.max_depth == 10,
            r.samples_per_pixel == 10,
            r.vfov == 90 * SCALE,
            r.center == (Vec3 { x: 0, y: 0, z: 0 }),
            r.pixel_sample_scale == 0,
            r.aspect_ratio == 0,
            r.pixel00_loc == (Vec3 { x: 0, y: 0, z: 0 }),
            r.pixel_delta_u == (Vec3 { x: 0, y: 0, z: 0 }),
            r.pixel_delta_v == (Vec3 { x: 0, y: 0, z: 0 }),
            r.basis_u == (Vec3 { x: 0, y: 0, z: 0 }),
            r.basis_v == (Vec3 { x: 0, y: 0, z: 0 }),
            r.basis_w == (Vec3 { x: 0, y: 0, z: 0 }),
    {
        Camera {
            image_width,
            image_height,
            max_depth: 10,
            samples_per_pixel: 10,
            vfov: 90 * SCALE,
            look_from,
            look_at,
            up,
            center: Vec3 { x: 0, y: 0, z: 0 },
            pixel_sample_scale: 0,
            aspect_ratio: 0,
            pixel00_loc: Vec3 { x: 0, y: 0, z: 0 },
            pixel_delta_u: Vec3 { x: 0, y: 0, z: 0 },
            pixel_delta_v: Vec3 { x: 0, y: 0, z: 0 },
            basis_u: Vec3 { x: 0, y: 0, z: 0 },
            basis_v: Vec3 { x: 0, y: 0, z: 0 },
            basis_w: Vec3 { x: 0, y: 0, z: 0 },
        }
    }

    /// Derive the viewport state from the configuration.  Returns whether
    /// the configuration admits it; on failure the camera is unchanged
    /// but for derived fields possibly part-written, and must not render.
    pub fn init(&mut self) -> (ok: bool)
        ensures
            ok == spec_can_init(*old(self)),
            final(self).image_width == old(self).image_width,
            final(self).image_height == old(self).image_height,
            final(self).max_depth == old(self).max_depth,
            final(self).samples_per_pixel == old(self).samples_per_pixel,
            final(self).vfov == old(self).vfov,
            final(self).look_from == old(self).look_from,
            final(self).look_at == old(self).look_at,
            final(self).up == old(self).up,
            ok ==> final(self).center == old(self).look_from,
            ok ==> final(self).aspect_ratio == fdiv_s(
                old(self).image_width as int,
                old(self).image_height as int,
            ),
            ok ==> final(self).pixel_sample_scale == fdivi_s(
                SCALE as int,
                old(self).samples_per_pixel as int,
            ),
            ok ==> final(self).basis_w == spec_basis_w(*old(self)),
            ok ==> final(self).basis_u == spec_basis_u(*old(self)),
            ok ==> final(self).basis_v == spec_basis_v(*old(self)),
            ok ==> final(self).pixel_delta_u == spec_pixel_delta_u(*old(self)),
            ok ==> final(self).pixel_delta_v == spec_pixel_delta_v(*old(self)),
            ok ==> final(self).pixel00_loc == spec_pixel00(*old(self)),
    {
        if self.image_width < 1 || self.image_height < 1 || self.samples_per_pixel < 1 {
            return false;
        }
        let gaze = self.look_from.minus(self.look_at);
        let focal = gaze.length();
        if focal <= 0 {
            return false;
        }
        let half = fdivi(fmul(self.vfov, PI_FX), 360);
        let cosv = cos_fx(half);
        if cosv <= 0 {
            return false;
        }
        let sinv = sin_fx(half);
        let tanv = fdiv(sinv, cosv);
        let w = gaze.normalize();
        let cr = self.up.cross(w);
        let crl = cr.length();
        if crl <= 0 {
            return false;
        }
        let u = cr.normalize();
        let v = w.cross(u);
        self.aspect_ratio = fdiv(self.image_width as i64, self.image_height as i64);
        self.pixel_sample_scale = fdivi(SCALE, self.samples_per_pixel as i64);
        self.center = self.look_from;
        let viewport_height = fmul(fmuli(tanv, 2), focal);
        let viewport_width = fmul(viewport_height, self.aspect_ratio);
        self.basis_w = w;
        self.basis_u = u;
        self.basis_v = v;
        let viewport_u = u.scale(viewport_width);
        let viewport_v = v.neg().scale(viewport_height);
        self.pixel_delta_u = viewport_u.div_int(self.image_width as i64);
        self.pixel_delta_v = viewport_v.div_int(self.image_height as i64);
        let upper_left = self.center.minus(w.scale(focal)).minus(viewport_u.div_int(2)).minus(
            viewport_v.div_int(2),
        );
        self.pixel00_loc = upper_left.plus(self.pixel_delta_u.plus(self.pixel_delta_v).div_int(2));
        true
    }

    /// The jittered ray through pixel `(i, j)`; near unit length whenever
    /// the eye-to-sample direction is long enough to normalize cleanly.
    pub fn get_ray(&self, i: i32, j: i32, rng: &mut rand::rngs::StdRng) -> (r: Ray)
        ensures
            exists|off: Vec3|
                (-32768 <= off.x < 32768 && -32768 <= off.y < 32768 && off.z == 0) && r
                    == #[trigger] spec_get_ray(*self, i as int, j as int, off) && (
                crate::ray::spec_normalizable(spec_get_dir(*self, i as int, j as int, off))
                    ==> crate::ray::spec_near_unit(r.dir)),
    {
        let offset = Vec3::sample_square(rng);
        let sample = self.pixel00_loc.plus(
            self.pixel_delta_u.scale(fadd(fmuli(i as i64, SCALE), offset.x)),
        ).plus(self.pixel_delta_v.scale(fadd(fmuli(j as i64, SCALE), offset.y)));
        let dir = sample.minus(self.center);
        let r = Ray::new(self.center, dir);
        proof {
            assert((-32768 <= offset.x < 32768 && -32768 <= offset.y < 32768 && offset.z == 0) && r
                == spec_get_ray(*self, i as int, j as int, offset) && (crate::ray::spec_normalizable(
                spec_get_dir(*self, i as int, j as int, offset),
            ) ==> crate::ray::spec_near_unit(r.dir)));
        }
        r
    }

    /// Radiance along a ray: black once the depth budget is exhausted,
    /// the background gradient where nothing is hit, otherwise the
    /// scattered radiance tinted by the material (black on absorption).
    pub fn ray_color<T: Hittable>(
        &self,
        ray: &Ray,
        world: &T,
        depth: i32,
        rng: &mut rand::rngs::StdRng,
    ) -> (r: Color)
        ensures
            spec_radiance(*world, *ray, depth as int, r),
            depth <= 0 ==> r == (Vec3 { x: 0, y: 0, z: 0 }),
            depth > 0 && world.spec_hit(*ray, T_MIN_HIT, i64::MAX) is None ==> r
                == spec_background(*ray),
        decreases depth,
    {
        if depth <= 0 {
            return Vec3 { x: 0, y: 0, z: 0 };
        }
        match world.hit(ray, T_MIN_HIT, i64::MAX) {
            None => {
                let t = fdivi(fadd(ray.dir.y, SCALE), 2);
                let white = Vec3 { x: SCALE, y: SCALE, z: SCALE };
                let sky = Vec3 { x: 32768, y: 45875, z: SCALE };
                white.scale(fsub(SCALE, t)).plus(sky.scale(t))
            },
            Some(h) => {
                let sc = h.material.scatter(ray, &h, rng);
                match sc {
                    None => {
                        let r = Vec3 { x: 0, y: 0, z: 0 };
                        proof {
                            assert(crate::material::scatter_post(
                                h.material,
                                *ray,
                                h,
                                None::<crate::material::Scatter>,
                            ));
                        }
                        r
                    },
                    Some(s) => {
                        let rec = self.ray_color(&s.scattered, world, depth - 1, rng);
                        let r = s.attenuation.mul_comp(rec);
                        proof {
                            assert(r == spec_mul_comp(s.attenuation, rec) && spec_radiance(
                                *world,
                                s.scattered,
                                depth - 1,
                                rec,
                            ));
                            assert(crate::material::scatter_post(h.material, *ray, h, Some(s)));
                        }
                        r
                    },
                }
            },
        }
    }

    /// Render the scene: initialize, then for every pixel in row-major
    /// order average the radiance of jittered samples and encode it.
    /// Succeeds exactly when the configuration admits initialization,
    /// leaving the configuration unchanged and the derived state as
    /// `init` sets it; pixel `idx` of the result is then an encoded
    /// sample average for row `idx / width`, column `idx % width`.
    pub fn render<T: Hittable>(&mut self, world: &T, rng: &mut rand::rngs::StdRng) -> (r: Option<
        Vec<(u8, u8, u8)>,
    >)
        ensures
            r is Some <==> spec_can_init(*old(self)),
            final(self).image_width == old(self).image_width,
            final(self).image_height == old(self).image_height,
            final(self).max_depth == old(self).max_depth,
            final(self).samples_per_pixel == old(self).samples_per_pixel,
            final(self).vfov == old(self).vfov,
            final(self).look_from == old(self).look_from,
            final(self).look_at == old(self).look_at,
            final(self).up == old(self).up,
            r is Some ==> final(self).center == old(self).look_from,
            r is Some ==> final(self).aspect_ratio == fdiv_s(
                old(self).image_width as int,
                old(self).image_height as int,
            ),
            r is Some ==> final(self).pixel_sample_scale == fdivi_s(
                SCALE as int,
                old(self).samples_per_pixel as int,
            ),
            r is Some ==> final(self).basis_w == spec_basis_w(*old(self)),
            r is Some ==> final(self).basis_u == spec_basis_u(*old(self)),
            r is Some ==> final(self).basis_v == spec_basis_v(*old(self)),
            r is Some ==> final(self).pixel_delta_u == spec_pixel_delta_u(*old(self)),
            r is Some ==> final(self).pixel_delta_v == spec_pixel_delta_v(*old(self)),
            r is Some ==> final(self).pixel00_loc == spec_pixel00(*old(self)),
            r is Some ==> (r->Some_0)@.len() == (old(self).image_height as int) * (
            old(self).image_width as int),
            r is Some ==> forall|idx: int|
                0 <= idx < (r->Some_0)@.len() ==> pixel_at(
                    *final(self),
                    *world,
                    idx,
                    #[trigger] (r->Some_0)@[idx],
                ),
    {
        let ok = self.init();
        if !ok {
            return None;
        }
        let cam = *self;
        let w = cam.image_width;
        let h = cam.image_height;
        let mut out: Vec<(u8, u8, u8)> = Vec::new();
        let mut j: i32 = 0;
        while j < h
            invariant
                0 <= j <= h,
                1 <= w,
                w == cam.image_width,
                1 <= cam.samples_per_pixel,
                out@.len() == (j as int) * (w as int),
                forall|idx: int|
                    0 <= idx < out@.len() ==> pixel_at(cam, *world, idx, #[trigger] out@[idx]),
            decreases h - j,
        {
            let mut i: i32 = 0;
            while i < w
                invariant
                    0 <= j < h,
                    0 <= i <= w,
                    1 <= w,
                    w == cam.image_width,
                    1 <= cam.samples_per_pixel,
                    out@.len() == (j as int) * (w as int) + (i as int),
                    forall|idx: int|
                        0 <= idx < out@.len() ==> pixel_at(cam, *world, idx, #[trigger] out@[idx]),
                decreases w - i,
            {
                let mut color = Vec3 { x: 0, y: 0, z: 0 };
                let ghost mut offs: Seq<Vec3> = Seq::empty();
                let ghost mut cols: Seq<Vec3> = Seq::empty();
                let mut s: i32 = 0;
                while s < cam.samples_per_pixel
                    invariant
                        0 <= s <= cam.samples_per_pixel,
                        offs.len() == s as int,
                        cols.len() == s as int,
                        forall|k: int|
                            0 <= k < s as int ==> #[trigger] sample_ok(
                                cam,
                                *world,
                                i as int,
                                j as int,
                                offs[k],
                                cols[k],
                            ),
                        color == spec_color_sum(cols),
                    decreases cam.samples_per_pixel - s,
                {
                    let ray = cam.get_ray(i, j, rng);
                    let sample = cam.ray_color(&ray, world, cam.max_depth, rng);
                    proof {
                        let off = choose|off: Vec3|
                            (-32768 <= off.x < 32768 && -32768 <= off.y < 32768 && off.z == 0)
                                && ray == #[trigger] spec_get_ray(cam, i as int, j as int, off) && (
                            crate::ray::spec_normalizable(
                                spec_get_dir(cam, i as int, j as int, off),
                            ) ==> crate::ray::spec_near_unit(ray.dir));
                        assert(sample_ok(cam, *world, i as int, j as int, off, sample));
                        let cols0 = cols;
                        offs = offs.push(off);
                        cols = cols.push(sample);
                        assert(cols.drop_last() =~= cols0);
                    }
                    color = color.plus(sample);
                    s = s + 1;
                }
                color = color.scale(cam.pixel_sample_scale);
                let px = color.to_rgb8();
                proof {
                    let p = out@.len() as int;
                    assert(samples_ok(cam, *world, i as int, j as int, offs, cols));
                    assert(pixel_post(cam, *world, i as int, j as int, px));
                    vstd::arithmetic::div_mod::lemma_fundamental_div_mod_converse(
                        p,
                        w as int,
                        j as int,
                        i as int,
                    );
                    assert(pixel_at(cam, *world, p, px));
                }
                out.push(px);
                i = i + 1;
            }
            proof {
                assert((j as int) * (w as int) + (w as int) == ((j as int) + 1) * (w as int))
                    by (nonlinear_arith);
            }
            j = j + 1;
        }
        Some(out)
    }
}

} // verus!
