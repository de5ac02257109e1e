//! Rays: an origin and a direction, with a point-at-parameter evaluator.

use vstd::prelude::*;
use crate::fx::{SCALE, iabs};
use crate::vec3::{
    Point3, Vec3, lemma_normalize_unit_length, spec_length, spec_length_sq, spec_normalize,
    spec_plus, spec_scale,
};

verus! {

/// A direction long enough to normalize cleanly: at least one unit in
/// squared length, with components small enough that their squares do
/// not saturate.
pub open spec fn spec_normalizable(d: Vec3) -> bool {
    &&& spec_length_sq(d) >= SCALE
    &&& iabs(d.x as int) <= 0x4000_0000
    &&& iabs(d.y as int) <= 0x4000_0000
    &&& iabs(d.z as int) <= 0x4000_0000
}

/// A direction within a handful of raw units of unit length.
pub open spec fn spec_near_unit(d: Vec3) -> bool {
    SCALE - 6 <= spec_length(d) <= SCALE + 2
}

#[derive(Clone, Copy, PartialEq, Eq, Structural, Debug)]
pub struct Ray {
    pub origin: Point3,
    pub dir: Vec3,
}

/// The direction a ray stores: normalized where its length is measurable
/// at the fixed-point resolution, kept as given otherwise (such a
/// direction never hits anything, so no caller depends on it).
pub open spec fn spec_dir_unit(d: Vec3) -> Vec3 {
    if spec_length(d) > 0 {
        spec_normalize(d)
    } else {
        d
    }
}

/// The ray a constructor call yields.
pub open spec fn spec_ray_new(origin: Point3, dir: Vec3) -> Ray {
    Ray { origin, dir: spec_dir_unit(dir) }
}

/// The point at parameter `t` along the ray.
pub open spec fn spec_at(r: Ray, t: int) -> Vec3 {
    spec_plus(r.origin, spec_scale(r.dir, t))
}

/// Normalize a direction where its length is measurable.
pub fn dir_unit(d: Vec3) -> (r: Vec3)
    ensures
        r == spec_dir_unit(d),
{
    let len = d.length();
    if len > 0 {
        d.normalize()
    } else {
        d
    }
}

impl Ray {
    pub fn new(origin: Point3, dir: Vec3) -> (r: Self)
        ensures
            r == spec_ray_new(origin, dir),
            spec_normalizable(dir) ==> spec_near_unit(r.dir),
    {
        proof {
            if spec_normalizable(dir) {
                lemma_normalize_unit_length(dir);
            }
        }
        Ray { origin, dir: dir_unit(dir) }
    }

    pub fn at(&self, t: i64) -> (p: Vec3)
        ensures
            p == spec_at(*self, t as int),
    {
        self.origin.plus(self.dir.scale(t))
    }
}

} // verus!
