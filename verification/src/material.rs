//! Surface materials and their scattering laws.
//!
//! A material, given the incoming ray and the intersection record,
//! produces either an attenuated outgoing ray or nothing (the ray is
//! absorbed).  The closed set of variants is carried as a tagged union so
//! that surfaces can hold any of them by value.

use vstd::prelude::*;
use crate::color::Color;
use crate::fx::{
    SCALE, fadd, fadd_s, fclamp, fclamp_s, fdiv, fdiv_s, fmul, fmul_s, fsqrt, fsqrt_s, fsub,
    fsub_s, lemma_div_pos_le, lemma_square_nonneg, lemma_tdiv_bound, tdiv,
};
use crate::hittable::Hit;
use crate::ray::{Ray, spec_dir_unit, spec_ray_new};
use crate::vec3::{
    Vec3, is_unit_sample, lemma_normalize_not_zero, spec_dot, spec_near_zero, spec_neg, spec_plus,
    spec_reflect, spec_refract, spec_scale,
};

verus! {

#[derive(Clone, Copy, PartialEq, Eq, Structural, Debug)]
pub struct Scatter {
    pub scattered: Ray,
    pub attenuation: Color,
}

#[derive(Clone, Copy, PartialEq, Eq, Structural, Debug)]
pub struct Lambertian {
    pub albedo: Color,
}

#[derive(Clone, Copy, PartialEq, Eq, Structural, Debug)]
pub struct Metal {
    pub albedo: Color,
    pub fuzz: i64,
}

#[derive(Clone, Copy, PartialEq, Eq, Structural, Debug)]
pub struct Dielectric {
    pub refraction_index: i64,
}

#[derive(Clone, Copy, PartialEq, Eq, Structural, Debug)]
pub enum Material {
    Lambertian(Lambertian),
    Metal(Metal),
    Dielectric(Dielectric),
}

/// The diffuse bounce direction: the surface normal plus a unit sample,
/// with the bare normal as fallback when the sum cancels to nothing.
pub open spec fn spec_lambertian_dir(normal: Vec3, u: Vec3) -> Vec3 {
    let d = spec_plus(normal, u);
    if spec_near_zero(d) {
        normal
    } else {
        d
    }
}

/// What a diffuse scatter returns: always a ray from the hit point, tinted
/// by the albedo, whose direction came from some unit sample; off a
/// measurable normal the direction is never the zero vector.
pub open spec fn lambertian_post(m: Lambertian, hit: Hit, r: Option<Scatter>) -> bool {
    &&& r is Some
    &&& (r->Some_0).attenuation == m.albedo
    &&& (r->Some_0).scattered.origin == hit.point
    &&& exists|u: Vec3|
        #[trigger] is_unit_sample(u) && (r->Some_0).scattered == spec_ray_new(
            hit.point,
            spec_lambertian_dir(hit.normal, u),
        )
    &&& !spec_near_zero(hit.normal) ==> (r->Some_0).scattered.dir != (Vec3 { x: 0, y: 0, z: 0 })
}

/// What a metallic scatter returns: the mirror direction, perturbed by
/// `fuzz` times some unit sample; the ray is absorbed exactly when the
/// perturbed direction no longer points off the surface.  With no fuzz the
/// outcome is decided by the mirror direction alone.
pub open spec fn metal_post(m: Metal, ray: Ray, hit: Hit, r: Option<Scatter>) -> bool {
    let mirror = spec_dir_unit(spec_reflect(ray.dir, hit.normal));
    &&& exists|u: Vec3|
        #[trigger] is_unit_sample(u) && {
            let d = spec_plus(mirror, spec_scale(u, m.fuzz as int));
            if spec_dot(d, hit.normal) > 0 {
                r == Some(
                    (Scatter {
                        scattered: spec_ray_new(hit.point, d),
                        attenuation: m.albedo,
                    }),
                )
            } else {
                r is None
            }
        }
    &&& m.fuzz == 0 && spec_dot(mirror, hit.normal) > 0 ==> r == Some(
        (Scatter { scattered: spec_ray_new(hit.point, mirror), attenuation: m.albedo }),
    )
    &&& m.fuzz == 0 && spec_dot(mirror, hit.normal) <= 0 ==> r is None
}

/// The refraction-index ratio a dielectric applies: its reciprocal when
/// the ray strikes the front face (entering), the index itself otherwise
/// (exiting).  The physically meaningless index of zero is taken as a
/// ratio of zero rather than dividing by it.
pub open spec fn spec_effective_index(m: Dielectric, front_face: bool) -> int {
    if front_face {
        if m.refraction_index != 0 {
            fdiv_s(SCALE as int, m.refraction_index as int)
        } else {
            0
        }
    } else {
        m.refraction_index as int
    }
}

/// Cosine of the angle of incidence, clamped to one unit in magnitude to
/// guard the square root below against rounding on degenerate normals.
pub open spec fn spec_cos_theta(uv: Vec3, normal: Vec3) -> int {
    fclamp_s(spec_dot(uv, spec_neg(normal)), -(SCALE as int), SCALE as int)
}

/// Sine of the angle of incidence, from the cosine.
pub open spec fn spec_sin_theta(cos: int) -> int {
    fsqrt_s(fsub_s(SCALE as int, fmul_s(cos, cos)))
}

/// Total internal reflection: Snell's law admits no refracted angle.
pub open spec fn spec_must_reflect(index: int, cos: int) -> bool {
    fmul_s(index, spec_sin_theta(cos)) > SCALE
}

/// Fifth power.
pub open spec fn pow5_s(a: int) -> int {
    fmul_s(fmul_s(fmul_s(fmul_s(a, a), a), a), a)
}

/// Schlick's approximation of the Fresnel reflectance.  A ratio of
/// exactly minus one would zero the denominator; its base reflectance is
/// taken as zero instead.
pub open spec fn spec_reflectance(index: int, cos: int) -> int {
    let b = if fadd_s(SCALE as int, index) != 0 {
        fdiv_s(fsub_s(SCALE as int, index), fadd_s(SCALE as int, index))
    } else {
        0
    };
    let r0 = fmul_s(b, b);
    fadd_s(r0, fmul_s(fsub_s(SCALE as int, r0), pow5_s(fsub_s(SCALE as int, cos))))
}

/// What a dielectric scatter returns: always a ray from the hit point with
/// white attenuation.  The direction is either the mirror reflection or
/// the Snell refraction; reflection is certain under total internal
/// reflection or a reflectance of one or more, refraction is certain when
/// the reflectance is zero or less, and in between a uniform draw against
/// the reflectance decides.
pub open spec fn dielectric_post(m: Dielectric, ray: Ray, hit: Hit, r: Option<Scatter>) -> bool {
    let index = spec_effective_index(m, hit.front_face);
    let uv = spec_dir_unit(ray.dir);
    let cos = spec_cos_theta(uv, hit.normal);
    let reflect_ray = spec_ray_new(hit.point, spec_reflect(uv, hit.normal));
    let refract_ray = spec_ray_new(hit.point, spec_refract(uv, hit.normal, index));
    &&& r is Some
    &&& (r->Some_0).attenuation == (Vec3 { x: SCALE, y: SCALE, z: SCALE })
    &&& (r->Some_0).scattered.origin == hit.point
    &&& (r->Some_0).scattered == reflect_ray || (r->Some_0).scattered == refract_ray
    &&& spec_must_reflect(index, cos) ==> (r->Some_0).scattered == reflect_ray
    &&& !spec_must_reflect(index, cos) && spec_reflectance(index, cos) <= 0 ==> (
    r->Some_0).scattered == refract_ray
    &&& !spec_must_reflect(index, cos) && spec_reflectance(index, cos) >= SCALE ==> (
    r->Some_0).scattered == reflect_ray
}

/// What scattering returns, whatever the variant.
pub open spec fn scatter_post(m: Material, ray: Ray, hit: Hit, r: Option<Scatter>) -> bool {
    match m {
        Material::Lambertian(l) => lambertian_post(l, hit, r),
        Material::Metal(mm) => metal_post(mm, ray, hit, r),
        Material::Dielectric(d) => dielectric_post(d, ray, hit, r),
    }
}

impl Lambertian {
    pub fn new(albedo: Color) -> (r: Self)
        ensures
            r == (Lambertian { albedo }),
    {
        Lambertian { albedo }
    }

    /// Diffuse scatter: never absorbs.
    pub fn scatter(&self, _ray: &Ray, hit: &Hit, rng: &mut rand::rngs::StdRng) -> (r: Option<
        Scatter,
    >)
        ensures
            lambertian_post(*self, *hit, r),
    {
        let u = Vec3::random_unit(rng);
        let sum = hit.normal.plus(u);
        let dir = if sum.near_zero() {
            hit.normal
        } else {
            sum
        };
        proof {
            if !spec_near_zero(hit.normal) {
                assert(!spec_near_zero(dir));
                lemma_normalize_not_zero(dir);
            }
        }
        let ray = Ray::new(hit.point, dir);
        let r = Some(Scatter { scattered: ray, attenuation: self.albedo });
        proof {
            assert(is_unit_sample(u) && (r->Some_0).scattered == spec_ray_new(
                hit.point,
                spec_lambertian_dir(hit.normal, u),
            ));
        }
        r
    }
}

impl Metal {
    pub fn new(albedo: Color, fuzz: i64) -> (r: Self)
        ensures
            r == (Metal { albedo, fuzz }),
    {
        Metal { albedo, fuzz }
    }

    /// Specular scatter with fuzz: absorbs when the perturbed reflection
    /// dips below the surface.
    pub fn scatter(&self, ray: &Ray, hit: &Hit, rng: &mut rand::rngs::StdRng) -> (r: Option<
        Scatter,
    >)
        ensures
            metal_post(*self, *ray, *hit, r),
    {
        let mirror = crate::ray::dir_unit(ray.dir.reflect(hit.normal));
        let u = Vec3::random_unit(rng);
        let reflected = mirror.plus(u.scale(self.fuzz));
        let d = reflected.dot(hit.normal);
        let r = if d > 0 {
            Some(Scatter { scattered: Ray::new(hit.point, reflected), attenuation: self.albedo })
        } else {
            None
        };
        proof {
            if self.fuzz == 0 {
                assert(spec_scale(u, 0) == (Vec3 { x: 0, y: 0, z: 0 }));
                assert(reflected == mirror);
            }
            assert(is_unit_sample(u) && {
                let dd = spec_plus(
                    spec_dir_unit(spec_reflect(ray.dir, hit.normal)),
                    spec_scale(u, self.fuzz as int),
                );
                if spec_dot(dd, hit.normal) > 0 {
                    r == Some(
                        (Scatter {
                            scattered: spec_ray_new(hit.point, dd),
                            attenuation: self.albedo,
                        }),
                    )
                } else {
                    r is None
                }
            });
        }
        r
    }
}

impl Dielectric {
    pub fn new(refraction_index: i64) -> (r: Self)
        ensures
            r == (Dielectric { refraction_index }),
    {
        Dielectric { refraction_index }
    }

    /// Refractive scatter: never absorbs, never tints.
    pub fn scatter(&self, ray: &Ray, hit: &Hit, rng: &mut rand::rngs::StdRng) -> (r: Option<
        Scatter,
    >)
        ensures
            dielectric_post(*self, *ray, *hit, r),
    {
        let uv = crate::ray::dir_unit(ray.dir);
        let index = if hit.front_face {
            if self.refraction_index != 0 {
                fdiv(SCALE, self.refraction_index)
            } else {
                0
            }
        } else {
            self.refraction_index
        };
        let d = uv.dot(hit.normal.neg());
        let cos = fclamp(d, -SCALE, SCALE);
        let cc = fmul(cos, cos);
        proof {
            lemma_square_nonneg(cos as int);
            assert((cos as int) * (cos as int) <= 65536int * 65536int) by (nonlinear_arith)
                requires
                    -65536 <= cos as int <= 65536;
            lemma_tdiv_bound((cos as int) * (cos as int), 65536int, 65536int * 65536int, 65536int);
            lemma_div_pos_le((cos as int) * (cos as int), 65536);
            assert(tdiv((cos as int) * (cos as int), 65536) == ((cos as int) * (cos as int))
                / 65536);
        }
        let sin = fsqrt(fsub(SCALE, cc));
        let cannot_refract = fmul(index, sin) > SCALE;
        let denom = fadd(SCALE, index);
        let b = if denom != 0 {
            fdiv(fsub(SCALE, index), denom)
        } else {
            0
        };
        let r0 = fmul(b, b);
        let p5 = pow5(fsub(SCALE, cos));
        let reflectance = fadd(r0, fmul(fsub(SCALE, r0), p5));
        let q = crate::rng::next_fx(rng);
        let dir = if cannot_refract || reflectance > q {
            uv.reflect(hit.normal)
        } else {
            uv.refract(hit.normal, index)
        };
        let scattered = Ray::new(hit.point, dir);
        let r = Some(
            Scatter { scattered, attenuation: Vec3 { x: SCALE, y: SCALE, z: SCALE } },
        );
        r
    }
}

/// Fifth power.
fn pow5(a: i64) -> (r: i64)
    ensures
        r as int == pow5_s(a as int),
{
    fmul(fmul(fmul(fmul(a, a), a), a), a)
}

impl Material {
    /// Dispatch to the variant's scattering law.
    pub fn scatter(&self, ray: &Ray, hit: &Hit, rng: &mut rand::rngs::StdRng) -> (r: Option<
        Scatter,
    >)
        ensures
            scatter_post(*self, *ray, *hit, r),
    {
        match self {
            Material::Lambertian(m) => m.scatter(ray, hit, rng),
            Material::Metal(m) => m.scatter(ray, hit, rng),
            Material::Dielectric(m) => m.scatter(ray, hit, rng),
        }
    }
}

} // verus!
