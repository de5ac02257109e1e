//! Geometry: intersection records, spheres, and hit testing.
//!
//! A surface, given a ray and a parameter window, yields the nearest
//! intersection inside the window or nothing.  A vector of surfaces is
//! itself a surface whose hit is the nearest over its members, found by
//! shrinking the window's upper end as closer hits appear.

use vstd::prelude::*;
use crate::fx::{fadd, fadd_s, fdiv, fdiv_s, fmul, fmul_s, fsqrt, fsqrt_s, fsub, fsub_s};
use crate::material::Material;
use crate::ray::{Ray, spec_at};
use crate::vec3::{Point3, Vec3, spec_div_fx, spec_dot, spec_length_sq, spec_minus, spec_neg};

verus! {

#[derive(Clone, Copy, PartialEq, Eq, Structural, Debug)]
pub struct Hit {
    pub point: Point3,
    pub normal: Vec3,
    pub t: i64,
    pub front_face: bool,
    pub material: Material,
}

/// The record a hit at parameter `t` with geometric outward normal
/// `outward` produces: the normal is turned against the ray, and
/// `front_face` says whether the ray struck the outside.
pub open spec fn spec_hit_new(ray: Ray, t: i64, outward: Vec3, material: Material) -> Hit {
    let front_face = spec_dot(ray.dir, outward) < 0;
    Hit {
        point: spec_at(ray, t as int),
        normal: if front_face {
            outward
        } else {
            spec_neg(outward)
        },
        t,
        front_face,
        material,
    }
}

impl Hit {
    pub fn new(ray: &Ray, t: i64, outward: Vec3, material: Material) -> (r: Self)
        ensures
            r == spec_hit_new(*ray, t, outward, material),
    {
        let front_face = ray.dir.dot(outward) < 0;
        let normal = if front_face {
            outward
        } else {
            outward.neg()
        };
        Hit { point: ray.at(t), normal, t, front_face, material }
    }
}

/// Hittable geometry: anything that can report its nearest intersection
/// with a ray inside an open parameter window.
pub trait Hittable {
    /// The intersection this surface reports.
    spec fn spec_hit(&self, ray: Ray, start: i64, end: i64) -> Option<Hit>;

    fn hit(&self, ray: &Ray, start: i64, end: i64) -> (r: Option<Hit>)
        ensures
            r == self.spec_hit(*ray, start, end),
    ;
}

#[derive(Clone, Copy, PartialEq, Eq, Structural, Debug)]
pub struct Sphere {
    pub center: Point3,
    pub radius: i64,
    pub material: Material,
}

impl Sphere {
    pub fn new(center: Point3, radius: i64, material: Material) -> (r: Sphere)
        ensures
            r == (Sphere { center, radius, material }),
    {
        Sphere { center, radius, material }
    }
}

/// The intersection a sphere reports: the quadratic in half-angle form,
/// smaller root first, each root accepted only strictly inside the
/// window.  The outward normal divides by the signed radius, so a
/// negative radius turns the surface inside out.  A direction too short
/// to measure, or a radius of zero, encloses no surface and hits nothing.
pub open spec fn spec_sphere_hit(s: Sphere, ray: Ray, start: i64, end: i64) -> Option<Hit> {
    let oc = spec_minus(s.center, ray.origin);
    let a = spec_length_sq(ray.dir);
    let h = spec_dot(ray.dir, oc);
    let c = fsub_s(spec_length_sq(oc), fmul_s(s.radius as int, s.radius as int));
    let disc = fsub_s(fmul_s(h, h), fmul_s(a, c));
    if a == 0 || s.radius == 0 || disc < 0 {
        None
    } else {
        let sqrtd = fsqrt_s(disc);
        let root1 = fdiv_s(fsub_s(h, sqrtd), a);
        let root2 = fdiv_s(fadd_s(h, sqrtd), a);
        let root = if start < root1 < end {
            root1
        } else {
            root2
        };
        if start < root < end {
            let outward = spec_div_fx(spec_minus(spec_at(ray, root), s.center), s.radius as int);
            Some(spec_hit_new(ray, root as i64, outward, s.material))
        } else {
            None
        }
    }
}

impl Hittable for Sphere {
    open spec fn spec_hit(&self, ray: Ray, start: i64, end: i64) -> Option<Hit> {
        spec_sphere_hit(*self, ray, start, end)
    }

    fn hit(&self, ray: &Ray, start: i64, end: i64) -> (r: Option<Hit>) {
        let oc = self.center.minus(ray.origin);
        let a = ray.dir.length_sq();
        let h = ray.dir.dot(oc);
        let c = fsub(oc.length_sq(), fmul(self.radius, self.radius));
        let disc = fsub(fmul(h, h), fmul(a, c));
        if a == 0 || self.radius == 0 || disc < 0 {
            return None;
        }
        let sqrtd = fsqrt(disc);
        let mut root = fdiv(fsub(h, sqrtd), a);
        if root <= start || root >= end {
            root = fdiv(fadd(h, sqrtd), a);
            if root <= start || root >= end {
                return None;
            }
        }
        let outward = ray.at(root).minus(self.center).div_fx(self.radius);
        Some(Hit::new(ray, root, outward, self.material))
    }
}

/// The nearest hit over the members of `s` not yet examined, entering
/// with the best hit and shrunken window found so far.
pub open spec fn spec_list_hit_from<T: Hittable>(
    s: Seq<T>,
    ray: Ray,
    start: i64,
    closest: i64,
    best: Option<Hit>,
) -> Option<Hit>
    decreases s.len(),
{
    if s.len() == 0 {
        best
    } else {
        match s[0].spec_hit(ray, start, closest) {
            Some(h) => spec_list_hit_from(s.subrange(1, s.len() as int), ray, start, h.t, Some(h)),
            None => spec_list_hit_from(s.subrange(1, s.len() as int), ray, start, closest, best),
        }
    }
}

impl<T: Hittable> Hittable for Vec<T> {
    /// The nearest hit over all members, or nothing if none is hit.
    open spec fn spec_hit(&self, ray: Ray, start: i64, end: i64) -> Option<Hit> {
        spec_list_hit_from(self@, ray, start, end, None)
    }

    fn hit(&self, ray: &Ray, start: i64, end: i64) -> (r: Option<Hit>) {
        let mut best: Option<Hit> = None;
        let mut closest = end;
        let mut i: usize = 0;
        proof {
            assert(self@.subrange(0, self@.len() as int) =~= self@);
        }
        while i < self.len()
            invariant
                i <= self.len(),
                spec_list_hit_from(self@.subrange(i as int, self@.len() as int), *ray, start,
                    closest, best) == spec_list_hit_from(self@, *ray, start, end, None),
            decreases self.len() - i,
        {
            proof {
                assert(self@.subrange(i as int, self@.len() as int)[0] == self@[i as int]);
            }
            match self[i].hit(ray, start, closest) {
                Some(h) => {
                    closest = h.t;
                    best = Some(h);
                },
                None => {},
            }
            proof {
                assert(self@.subrange(i as int, self@.len() as int).subrange(
                    1,
                    self@.subrange(i as int, self@.len() as int).len() as int,
                ) =~= self@.subrange(i as int + 1, self@.len() as int));
            }
            i = i + 1;
        }
        proof {
            assert(self@.subrange(self@.len() as int, self@.len() as int).len() == 0);
        }
        best
    }
}

} // verus!
