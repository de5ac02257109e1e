//! 3D vector algebra over fixed-point components.
//!
//! A `Vec3` doubles as a point and as a colour, exactly as in the classic
//! path-tracer layout.  Every operation returns a fresh value, and each
//! executable method is pinned to the spec function that states its result
//! exactly.

use vstd::prelude::*;
use crate::fx::{
    SCALE, fadd, fadd_s, fdiv, fdiv_s, fmul, fmul_s, fmuli, fmuli_s, fneg, fneg_s, fsqrt, fsqrt_s,
    fsub, fsub_s, fabs, fabs_s, iabs, is_isqrt, lemma_isqrt_at_least, lemma_isqrt_at_most,
    lemma_square_nonneg, lemma_unit_scale_bound, tdiv,
};
use crate::rng::next_fx;

verus! {

/// Components below this magnitude vanish when squared at the fixed-point
/// resolution; a vector of such components counts as near zero.
pub const NEAR_EPS: i64 = 256;

#[derive(Clone, Copy, PartialEq, Eq, Structural, Debug)]
pub struct Vec3 {
    pub x: i64,
    pub y: i64,
    pub z: i64,
}

pub type Point3 = Vec3;

/// Componentwise sum.
pub open spec fn spec_plus(a: Vec3, b: Vec3) -> Vec3 {
    Vec3 {
        x: fadd_s(a.x as int, b.x as int) as i64,
        y: fadd_s(a.y as int, b.y as int) as i64,
        z: fadd_s(a.z as int, b.z as int) as i64,
    }
}

/// Componentwise difference.
pub open spec fn spec_minus(a: Vec3, b: Vec3) -> Vec3 {
    Vec3 {
        x: fsub_s(a.x as int, b.x as int) as i64,
        y: fsub_s(a.y as int, b.y as int) as i64,
        z: fsub_s(a.z as int, b.z as int) as i64,
    }
}

/// Componentwise negation.
pub open spec fn spec_neg(a: Vec3) -> Vec3 {
    Vec3 {
        x: fneg_s(a.x as int) as i64,
        y: fneg_s(a.y as int) as i64,
        z: fneg_s(a.z as int) as i64,
    }
}

/// Componentwise product (used to tint a colour).
pub open spec fn spec_mul_comp(a: Vec3, b: Vec3) -> Vec3 {
    Vec3 {
        x: fmul_s(a.x as int, b.x as int) as i64,
        y: fmul_s(a.y as int, b.y as int) as i64,
        z: fmul_s(a.z as int, b.z as int) as i64,
    }
}

/// Vector scaled by a fixed-point factor.
pub open spec fn spec_scale(a: Vec3, k: int) -> Vec3 {
    Vec3 {
        x: fmul_s(a.x as int, k) as i64,
        y: fmul_s(a.y as int, k) as i64,
        z: fmul_s(a.z as int, k) as i64,
    }
}

/// Vector scaled by a plain integer.
pub open spec fn spec_scale_int(a: Vec3, k: int) -> Vec3 {
    Vec3 {
        x: fmuli_s(a.x as int, k) as i64,
        y: fmuli_s(a.y as int, k) as i64,
        z: fmuli_s(a.z as int, k) as i64,
    }
}

/// Vector divided by a plain integer.
pub open spec fn spec_div_int(a: Vec3, k: int) -> Vec3 {
    Vec3 {
        x: crate::fx::fdivi_s(a.x as int, k) as i64,
        y: crate::fx::fdivi_s(a.y as int, k) as i64,
        z: crate::fx::fdivi_s(a.z as int, k) as i64,
    }
}

/// Vector divided by a fixed-point factor.
pub open spec fn spec_div_fx(a: Vec3, k: int) -> Vec3 {
    Vec3 {
        x: fdiv_s(a.x as int, k) as i64,
        y: fdiv_s(a.y as int, k) as i64,
        z: fdiv_s(a.z as int, k) as i64,
    }
}

/// Inner product.
pub open spec fn spec_dot(a: Vec3, b: Vec3) -> int {
    fadd_s(
        fadd_s(fmul_s(a.x as int, b.x as int), fmul_s(a.y as int, b.y as int)),
        fmul_s(a.z as int, b.z as int),
    )
}

/// Squared length.
pub open spec fn spec_length_sq(a: Vec3) -> int {
    spec_dot(a, a)
}

/// Length: the fixed-point square root of the squared length.
pub open spec fn spec_length(a: Vec3) -> int {
    fsqrt_s(spec_length_sq(a))
}

/// Cross product.
pub open spec fn spec_cross(a: Vec3, b: Vec3) -> Vec3 {
    Vec3 {
        x: fsub_s(fmul_s(a.y as int, b.z as int), fmul_s(a.z as int, b.y as int)) as i64,
        y: fsub_s(fmul_s(a.z as int, b.x as int), fmul_s(a.x as int, b.z as int)) as i64,
        z: fsub_s(fmul_s(a.x as int, b.y as int), fmul_s(a.y as int, b.x as int)) as i64,
    }
}

/// Vector divided by its own length.
pub open spec fn spec_normalize(a: Vec3) -> Vec3 {
    spec_div_fx(a, spec_length(a))
}

/// All components below the resolution threshold.
pub open spec fn spec_near_zero(a: Vec3) -> bool {
    &&& iabs(a.x as int) < NEAR_EPS
    &&& iabs(a.y as int) < NEAR_EPS
    &&& iabs(a.z as int) < NEAR_EPS
}

/// Mirror reflection about a normal.
pub open spec fn spec_reflect(v: Vec3, n: Vec3) -> Vec3 {
    spec_minus(v, spec_scale(n, fmuli_s(spec_dot(n, v), 2)))
}

/// Snell refraction of `uv` at a surface with normal `n`, with the given
/// ratio of refraction indices; the parallel term guards against a
/// negative radicand from rounding by taking the magnitude first.
pub open spec fn spec_refract(uv: Vec3, n: Vec3, ratio: int) -> Vec3 {
    let cos = {
        let d = spec_dot(uv, spec_neg(n));
        if d > SCALE {
            SCALE as int
        } else {
            d
        }
    };
    let perp = spec_scale(spec_plus(uv, spec_scale(n, cos)), ratio);
    let k = fsqrt_s(fabs_s(fsub_s(SCALE as int, spec_length_sq(perp))));
    let para = spec_scale(n, fneg_s(k));
    spec_plus(perp, para)
}

/// A unit-sphere sample: a rejection-sampling candidate from the shell
/// between half a unit and one unit of length, normalized.
pub open spec fn is_unit_sample(u: Vec3) -> bool {
    exists|p: Vec3| 16384 <= spec_length_sq(p) <= SCALE && u == #[trigger] spec_normalize(p)
}

impl Vec3 {
    pub fn new(x: i64, y: i64, z: i64) -> (r: Self)
        ensures
            r == (Vec3 { x, y, z }),
    {
        Vec3 { x, y, z }
    }

    pub fn plus(self, rhs: Vec3) -> (r: Vec3)
        ensures
            r == spec_plus(self, rhs),
    {
        Vec3 { x: fadd(self.x, rhs.x), y: fadd(self.y, rhs.y), z: fadd(self.z, rhs.z) }
    }

    pub fn minus(self, rhs: Vec3) -> (r: Vec3)
        ensures
            r == spec_minus(self, rhs),
    {
        Vec3 { x: fsub(self.x, rhs.x), y: fsub(self.y, rhs.y), z: fsub(self.z, rhs.z) }
    }

    pub fn neg(self) -> (r: Vec3)
        ensures
            r == spec_neg(self),
    {
        Vec3 { x: fneg(self.x), y: fneg(self.y), z: fneg(self.z) }
    }

    pub fn mul_comp(self, rhs: Vec3) -> (r: Vec3)
        ensures
            r == spec_mul_comp(self, rhs),
    {
        Vec3 { x: fmul(self.x, rhs.x), y: fmul(self.y, rhs.y), z: fmul(self.z, rhs.z) }
    }

    pub fn scale(self, k: i64) -> (r: Vec3)
        ensures
            r == spec_scale(self, k as int),
    {
        Vec3 { x: fmul(self.x, k), y: fmul(self.y, k), z: fmul(self.z, k) }
    }

    pub fn scale_int(self, k: i64) -> (r: Vec3)
        ensures
            r == spec_scale_int(self, k as int),
    {
        Vec3 { x: fmuli(self.x, k), y: fmuli(self.y, k), z: fmuli(self.z, k) }
    }

    pub fn div_fx(self, k: i64) -> (r: Vec3)
        requires
            k != 0,
        ensures
            r == spec_div_fx(self, k as int),
    {
        Vec3 { x: fdiv(self.x, k), y: fdiv(self.y, k), z: fdiv(self.z, k) }
    }

    pub fn div_int(self, k: i64) -> (r: Vec3)
        requires
            k != 0,
        ensures
            r == spec_div_int(self, k as int),
    {
        Vec3 {
            x: crate::fx::fdivi(self.x, k),
            y: crate::fx::fdivi(self.y, k),
            z: crate::fx::fdivi(self.z, k),
        }
    }

    pub fn dot(self, rhs: Vec3) -> (r: i64)
        ensures
            r as int == spec_dot(self, rhs),
    {
        fadd(fadd(fmul(self.x, rhs.x), fmul(self.y, rhs.y)), fmul(self.z, rhs.z))
    }

    pub fn length_sq(self) -> (r: i64)
        ensures
            r as int == spec_length_sq(self),
            r >= 0,
    {
        proof {
            lemma_square_nonneg(self.x as int);
            lemma_square_nonneg(self.y as int);
            lemma_square_nonneg(self.z as int);
        }
        self.dot(self)
    }

    pub fn length(self) -> (r: i64)
        ensures
            r as int == spec_length(self),
            is_isqrt(spec_length_sq(self) * SCALE, r as int),
            r >= 0,
    {
        let ls = self.length_sq();
        fsqrt(ls)
    }

    pub fn cross(self, rhs: Vec3) -> (r: Vec3)
        ensures
            r == spec_cross(self, rhs),
    {
        Vec3 {
            x: fsub(fmul(self.y, rhs.z), fmul(self.z, rhs.y)),
            y: fsub(fmul(self.z, rhs.x), fmul(self.x, rhs.z)),
            z: fsub(fmul(self.x, rhs.y), fmul(self.y, rhs.x)),
        }
    }

    /// Defined only for vectors whose length is measurable at this
    /// resolution; callers guard that themselves.
    pub fn normalize(self) -> (r: Vec3)
        requires
            spec_length(self) > 0,
        ensures
            r == spec_normalize(self),
    {
        let len = self.length();
        self.div_fx(len)
    }

    pub fn near_zero(self) -> (r: bool)
        ensures
            r == spec_near_zero(self),
    {
        let ax = fabs(self.x);
        let ay = fabs(self.y);
        let az = fabs(self.z);
        ax < NEAR_EPS && ay < NEAR_EPS && az < NEAR_EPS
    }

    pub fn reflect(self, normal: Vec3) -> (r: Vec3)
        ensures
            r == spec_reflect(self, normal),
    {
        let d = normal.dot(self);
        self.minus(normal.scale(fmuli(d, 2)))
    }

    pub fn refract(self, normal: Vec3, ratio: i64) -> (r: Vec3)
        ensures
            r == spec_refract(self, normal, ratio as int),
    {
        let d = self.dot(normal.neg());
        let cos = if d > SCALE {
            SCALE
        } else {
            d
        };
        let perp = self.plus(normal.scale(cos)).scale(ratio);
        let k = fsqrt(fabs(fsub(SCALE, perp.length_sq())));
        let para = normal.scale(fneg(k));
        perp.plus(para)
    }

    /// A vector with components uniform in `[0, 1)`.
    pub fn random(rng: &mut rand::rngs::StdRng) -> (r: Vec3)
        ensures
            0 <= r.x < SCALE,
            0 <= r.y < SCALE,
            0 <= r.z < SCALE,
    {
        let x = next_fx(rng);
        let y = next_fx(rng);
        let z = next_fx(rng);
        Vec3 { x, y, z }
    }

    /// A vector with components uniform in `[min, max)`.
    pub fn random_range(min: i64, max: i64, rng: &mut rand::rngs::StdRng) -> (r: Vec3)
        requires
            min < max,
        ensures
            min <= r.x < max,
            min <= r.y < max,
            min <= r.z < max,
    {
        let d = fsub(max, min);
        let rx = random_in(min, d, rng);
        let ry = random_in(min, d, rng);
        let rz = random_in(min, d, rng);
        Vec3 { x: rx, y: ry, z: rz }
    }

    /// A uniformly distributed unit vector, by rejection sampling and
    /// normalizing the accepted point.  Accepted candidates lie in the
    /// shell between half a unit and one unit of length, where the
    /// fixed-point normalization error stays within a few raw units.
    /// The number of draws is bounded so that the sampler provably
    /// terminates; the odds of exhausting it are below one in 2^40, and
    /// the fallback is itself a unit vector.
    pub fn random_unit(rng: &mut rand::rngs::StdRng) -> (r: Vec3)
        ensures
            is_unit_sample(r),
    {
        let mut tries: u64 = 0;
        while tries < 64
            invariant
                tries <= 64,
            decreases 64 - tries,
        {
            let p = Vec3::random_range(-SCALE, SCALE, rng);
            let ls = p.length_sq();
            if 16384 <= ls && ls <= SCALE {
                proof {
                    lemma_sample_normalizable(p);
                }
                let u = p.normalize();
                proof {
                    assert(16384 <= spec_length_sq(p) <= SCALE && u == spec_normalize(p));
                }
                return u;
            }
            tries = tries + 1;
        }
        let axis = Vec3 { x: 0, y: 0, z: SCALE };
        proof {
            lemma_axis_is_unit_sample(axis);
        }
        axis
    }

    /// A unit sample turned to lie on the side of the surface that `normal`
    /// points toward.
    pub fn random_hemisphere(normal: Vec3, rng: &mut rand::rngs::StdRng) -> (r: Vec3)
        ensures
            exists|u: Vec3|
                #[trigger] is_unit_sample(u) && r == (if spec_dot(u, normal) >= 0 {
                    u
                } else {
                    spec_neg(u)
                }),
    {
        let u = Vec3::random_unit(rng);
        let d = u.dot(normal);
        let r = if d >= 0 {
            u
        } else {
            u.neg()
        };
        proof {
            assert(is_unit_sample(u) && r == (if spec_dot(u, normal) >= 0 {
                u
            } else {
                spec_neg(u)
            }));
        }
        r
    }

    /// A jitter offset within a pixel footprint: components uniform in
    /// `[-1/2, 1/2)`, zero in `z`.
    pub fn sample_square(rng: &mut rand::rngs::StdRng) -> (r: Vec3)
        ensures
            -32768 <= r.x < 32768,
            -32768 <= r.y < 32768,
            r.z == 0,
    {
        let x = fsub(next_fx(rng), 32768);
        let y = fsub(next_fx(rng), 32768);
        Vec3 { x, y, z: 0 }
    }
}

/// One uniform draw mapped into `[min, min + d)`.
fn random_in(min: i64, d: i64, rng: &mut rand::rngs::StdRng) -> (r: i64)
    requires
        1 <= d,
        min + d <= i64::MAX,
    ensures
        min <= r < min + d,
{
    let t = next_fx(rng);
    proof {
        lemma_unit_scale_bound(t as int, d as int);
    }
    let s = fmul(t, d);
    fadd(s, min)
}

/// A rejection-sampling candidate accepted by `random_unit` has a length
/// the normalization can divide by.
pub proof fn lemma_sample_normalizable(p: Vec3)
    requires
        1 <= spec_length_sq(p) <= SCALE,
    ensures
        256 <= spec_length(p) <= SCALE,
{
    let ls = spec_length_sq(p);
    let n = ls * SCALE;
    let r = crate::fx::isqrt_s(n);
    assert(65536 <= n <= 65536 * 65536) by (nonlinear_arith)
        requires
            1 <= ls <= 65536,
            n == ls * 65536;
    crate::fx::lemma_isqrt_exists(n);
    lemma_isqrt_at_least(n, r, 256);
    lemma_isqrt_at_most(n, r, 65536);
}

/// The largest component magnitude of a vector.
pub open spec fn spec_max_comp(v: Vec3) -> int {
    let ax = iabs(v.x as int);
    let ay = iabs(v.y as int);
    let az = iabs(v.z as int);
    if ax >= ay && ax >= az {
        ax
    } else if ay >= az {
        ay
    } else {
        az
    }
}

/// The scaled square of a component is nonnegative and bounded by the
/// scaled square of any bound on its magnitude.
proof fn lemma_fmul_sq_range(c: int, m: int)
    requires
        iabs(c) <= m,
    ensures
        0 <= fmul_s(c, c) <= m * m / 65536,
{
    assert(0 <= c * c <= m * m) by (nonlinear_arith)
        requires
            -m <= c <= m;
    assert(tdiv(c * c, 65536) == (c * c) / 65536);
    assert(0 <= (c * c) / 65536 <= m * m / 65536) by (nonlinear_arith)
        requires
            0 <= c * c <= m * m;
}

/// A component at least the resolution threshold contributes at least one
/// scaled unit to the squared length.
proof fn lemma_fmul_sq_min(c: int)
    requires
        iabs(c) >= 256,
    ensures
        fmul_s(c, c) >= 1,
{
    assert(c * c == iabs(c) * iabs(c)) by (nonlinear_arith);
    assert(c * c >= 65536) by (nonlinear_arith)
        requires
            iabs(c) >= 256,
            c * c == iabs(c) * iabs(c);
    assert(tdiv(c * c, 65536) == (c * c) / 65536);
    assert((c * c) / 65536 >= 1) by (nonlinear_arith)
        requires
            c * c >= 65536;
}

/// Rescaling a component by a length that its own magnitude covers cannot
/// zero it out.
proof fn lemma_comp_norm_nonzero(c: int, len: int)
    requires
        1 <= len,
        iabs(c) * 65536 >= len,
    ensures
        fdiv_s(c, len) != 0,
{
    assert(iabs(c * 65536) == iabs(c) * 65536);
    assert(iabs(c) * 65536 / len >= 1) by (nonlinear_arith)
        requires
            1 <= len <= iabs(c) * 65536;
    assert(iabs(tdiv(c * 65536, len)) == iabs(c) * 65536 / len);
    assert(tdiv(c * 65536, len) != 0);
    assert(fdiv_s(c, len) != 0);
}

/// A vector that is not near zero survives normalization: its length is
/// measurable, and normalizing it cannot collapse it to the zero vector.
pub proof fn lemma_normalize_not_zero(v: Vec3)
    requires
        !spec_near_zero(v),
    ensures
        spec_length(v) >= 256,
        spec_normalize(v) != (Vec3 { x: 0, y: 0, z: 0 }),
{
    let m = spec_max_comp(v);
    assert(m >= 256);
    let tx = fmul_s(v.x as int, v.x as int);
    let ty = fmul_s(v.y as int, v.y as int);
    let tz = fmul_s(v.z as int, v.z as int);
    lemma_fmul_sq_range(v.x as int, m);
    lemma_fmul_sq_range(v.y as int, m);
    lemma_fmul_sq_range(v.z as int, m);
    if iabs(v.x as int) == m {
        lemma_fmul_sq_min(v.x as int);
    } else if iabs(v.y as int) == m {
        lemma_fmul_sq_min(v.y as int);
    } else {
        lemma_fmul_sq_min(v.z as int);
    }
    let cap = m * m / 65536;
    let ls = spec_length_sq(v);
    assert(1 <= ls <= 3 * cap);
    let n = ls * SCALE;
    crate::fx::lemma_isqrt_exists(n);
    let len = crate::fx::isqrt_s(n);
    assert(n >= 65536) by (nonlinear_arith)
        requires
            ls >= 1,
            n == ls * 65536;
    lemma_isqrt_at_least(n, len, 256);
    assert(n < (2 * m) * (2 * m)) by (nonlinear_arith)
        requires
            1 <= ls <= 3 * cap,
            cap == m * m / 65536,
            n == ls * 65536,
            m >= 256;
    lemma_isqrt_at_most(n, len, 2 * m - 1);
    assert(m * 65536 >= len) by (nonlinear_arith)
        requires
            256 <= m,
            len <= 2 * m - 1;
    let w = spec_normalize(v);
    if iabs(v.x as int) == m {
        lemma_comp_norm_nonzero(v.x as int, len);
        assert(w.x != 0);
    } else if iabs(v.y as int) == m {
        lemma_comp_norm_nonzero(v.y as int, len);
        assert(w.y != 0);
    } else {
        lemma_comp_norm_nonzero(v.z as int, len);
        assert(w.z != 0);
    }
}

/// Multiplying by plus or minus one unit is exact.
proof fn lemma_fmul_unit(a: int)
    requires
        iabs(a) < 0x4000_0000_0000_0000,
    ensures
        fmul_s(a, 65536) == a,
        fmul_s(a, -65536) == -a,
        fmul_s(65536, a) == a,
        fmul_s(-65536, a) == -a,
{
    assert((iabs(a) * 65536) / 65536 == iabs(a)) by (nonlinear_arith)
        requires
            0 <= iabs(a);
    assert(iabs(a * 65536) == iabs(a) * 65536);
    assert(iabs(a * -65536) == iabs(a) * 65536);
    assert(iabs(65536 * a) == iabs(a) * 65536);
    assert(iabs(-65536 * a) == iabs(a) * 65536);
}

/// Multiplying by zero is zero.
proof fn lemma_fmul_zero(a: int)
    ensures
        fmul_s(a, 0) == 0,
        fmul_s(0, a) == 0,
{
    assert(a * 0 == 0 && 0 * a == 0) by (nonlinear_arith);
    assert(0int / 65536 == 0) by (nonlinear_arith);
}

/// Squares ignore the sign.
proof fn lemma_fmul_sq_neg(a: int)
    ensures
        fmul_s(-a, -a) == fmul_s(a, a),
{
    assert((-a) * (-a) == a * a) by (nonlinear_arith);
}

/// For the unit normals the representation holds exactly — the signed
/// coordinate axes — the executable reflection satisfies the mirror law
/// exactly: the projection on the normal flips its sign and the length
/// is kept.  (Over all unit normals the law holds of the exact integer
/// model that this algebra approximates.)
pub proof fn lemma_reflect_axis_exact(v: Vec3, n: Vec3)
    requires
        iabs(v.x as int) < 0x2000_0000_0000_0000,
        iabs(v.y as int) < 0x2000_0000_0000_0000,
        iabs(v.z as int) < 0x2000_0000_0000_0000,
        n == (Vec3 { x: SCALE, y: 0, z: 0 }) || n == (Vec3 { x: -65536i64, y: 0, z: 0 }) || n == (
        Vec3 { x: 0, y: SCALE, z: 0 }) || n == (Vec3 { x: 0, y: -65536i64, z: 0 }) || n == (Vec3 {
            x: 0,
            y: 0,
            z: SCALE,
        }) || n == (Vec3 { x: 0, y: 0, z: -65536i64 }),
    ensures
        spec_dot(spec_reflect(v, n), n) == fneg_s(spec_dot(v, n)),
        spec_length_sq(spec_reflect(v, n)) == spec_length_sq(v),
        spec_length(spec_reflect(v, n)) == spec_length(v),
{
    lemma_fmul_unit(v.x as int);
    lemma_fmul_unit(v.y as int);
    lemma_fmul_unit(v.z as int);
    lemma_fmul_unit(-(v.x as int));
    lemma_fmul_unit(-(v.y as int));
    lemma_fmul_unit(-(v.z as int));
    lemma_fmul_zero(v.x as int);
    lemma_fmul_zero(v.y as int);
    lemma_fmul_zero(v.z as int);
    lemma_fmul_zero(-(v.x as int));
    lemma_fmul_zero(-(v.y as int));
    lemma_fmul_zero(-(v.z as int));
    lemma_fmul_sq_neg(v.x as int);
    lemma_fmul_sq_neg(v.y as int);
    lemma_fmul_sq_neg(v.z as int);
    let d = spec_dot(n, v);
    let t2 = fmuli_s(d, 2);
    lemma_fmul_unit(t2);
    lemma_fmul_zero(t2);
    let r = spec_reflect(v, n);
    if n.x != 0 {
        assert(r == (Vec3 { x: (-(v.x as int)) as i64, y: v.y, z: v.z }));
    } else if n.y != 0 {
        assert(r == (Vec3 { x: v.x, y: (-(v.y as int)) as i64, z: v.z }));
    } else {
        assert(r == (Vec3 { x: v.x, y: v.y, z: (-(v.z as int)) as i64 }));
    }
}

/// A component's scaled square: its value, the division it truncates,
/// and its range.
proof fn lemma_sq_div(c: int)
    requires
        iabs(c) <= 0x4000_0000,
    ensures
        0 <= c * c <= 0x1000_0000_0000_0000,
        fmul_s(c, c) == (c * c) / 65536,
        65536 * ((c * c) / 65536) <= c * c < 65536 * ((c * c) / 65536) + 65536,
        0 <= fmul_s(c, c) <= 0x1000_0000_0000,
{
    assert(0 <= c * c <= 0x1000_0000_0000_0000) by (nonlinear_arith)
        requires
            -0x4000_0000 <= c <= 0x4000_0000;
    assert(tdiv(c * c, 65536) == (c * c) / 65536);
    crate::fx::lemma_div_bounds(c * c, 65536);
    assert((c * c) / 65536 <= 0x1000_0000_0000) by (nonlinear_arith)
        requires
            65536 * ((c * c) / 65536) <= c * c,
            c * c <= 0x1000_0000_0000_0000,
            0 <= (c * c) / 65536;
}

/// Rescaling a component by a length close to the vector's own: the
/// truncated quotient, its square, and their ranges.
proof fn lemma_norm_comp(c: int, len: int)
    requires
        65536 <= len,
        iabs(c) <= len + 3,
    ensures
        ({
            let q = iabs(c) * 65536 / len;
            let n = fdiv_s(c, len);
            &&& 0 <= q <= 65539
            &&& n * n == q * q
            &&& len * q <= iabs(c) * 65536 < len * (q + 1)
            &&& fmul_s(n, n) == (q * q) / 65536
            &&& 65536 * ((q * q) / 65536) <= q * q < 65536 * ((q * q) / 65536) + 65536
            &&& 0 <= fmul_s(n, n) <= 65546
        }),
{
    let a = iabs(c) * 65536;
    let q = a / len;
    crate::fx::lemma_div_bounds(a, len);
    assert(q <= 65539) by (nonlinear_arith)
        requires
            len * q <= a,
            a <= (len + 3) * 65536,
            65536 <= len;
    assert(iabs(c * 65536) == a);
    assert(iabs(tdiv(c * 65536, len)) == q);
    let t = tdiv(c * 65536, len);
    assert(fdiv_s(c, len) == t);
    let n = fdiv_s(c, len);
    assert(n * n == iabs(n) * iabs(n)) by (nonlinear_arith);
    assert(n * n == q * q) by (nonlinear_arith)
        requires
            iabs(n) == q,
            n * n == iabs(n) * iabs(n);
    assert(0 <= q * q <= 65539 * 65539) by (nonlinear_arith)
        requires
            0 <= q <= 65539;
    assert(tdiv(n * n, 65536) == (n * n) / 65536);
    crate::fx::lemma_div_bounds(q * q, 65536);
    assert((q * q) / 65536 <= 65546) by (nonlinear_arith)
        requires
            65536 * ((q * q) / 65536) <= q * q,
            q * q <= 65539 * 65539,
            0 <= (q * q) / 65536;
    assert(len * (q + 1) == len * q + len) by (nonlinear_arith);
}

/// A bound on a square bounds the magnitude.
proof fn lemma_sqrt_bound(c: int, m: int)
    requires
        0 <= m,
        c * c <= m * m,
    ensures
        iabs(c) <= m,
{
    assert(c * c == iabs(c) * iabs(c)) by (nonlinear_arith);
    if iabs(c) > m {
        assert(m * m < iabs(c) * iabs(c)) by (nonlinear_arith)
            requires
                0 <= m < iabs(c);
        assert(false);
    }
}

/// Normalizing a vector of at least unit length yields a vector whose
/// length is one unit to within a handful of raw parts in 65536: the
/// fixed-point counterpart of normalization returning a unit vector.
/// Vectors shorter than one unit are excluded because truncation error
/// grows as the length shrinks, and huge components because their
/// squares saturate.
pub proof fn lemma_normalize_unit_length(v: Vec3)
    requires
        spec_length_sq(v) >= SCALE,
        iabs(v.x as int) <= 0x4000_0000,
        iabs(v.y as int) <= 0x4000_0000,
        iabs(v.z as int) <= 0x4000_0000,
    ensures
        spec_length(v) >= SCALE,
        SCALE - 6 <= spec_length(spec_normalize(v)) <= SCALE + 2,
{
    let c1 = v.x as int;
    let c2 = v.y as int;
    let c3 = v.z as int;
    lemma_sq_div(c1);
    lemma_sq_div(c2);
    lemma_sq_div(c3);
    assert(c1 * c1 == iabs(c1) * iabs(c1) && c2 * c2 == iabs(c2) * iabs(c2) && c3 * c3 == iabs(c3)
        * iabs(c3)) by (nonlinear_arith);
    let ls = spec_length_sq(v);
    assert(ls == fmul_s(c1, c1) + fmul_s(c2, c2) + fmul_s(c3, c3));
    let rr = c1 * c1 + c2 * c2 + c3 * c3;
    assert(65536 * ls <= rr && rr < 65536 * ls + 3 * 65536);
    let len = spec_length(v);
    crate::fx::lemma_isqrt_exists(ls * 65536);
    assert(is_isqrt(ls * 65536, len));
    assert(65536 * 65536 <= ls * 65536) by (nonlinear_arith)
        requires
            ls >= 65536;
    lemma_isqrt_at_least(ls * 65536, len, 65536);
    // every component is within a few raw units of the length
    assert(rr < (len + 1) * (len + 1) + 3 * 65536);
    assert((len + 1) * (len + 1) + 3 * 65536 <= (len + 3) * (len + 3)) by (nonlinear_arith)
        requires
            len >= 65536;
    lemma_sqrt_bound(c1, len + 3);
    lemma_sqrt_bound(c2, len + 3);
    lemma_sqrt_bound(c3, len + 3);
    lemma_norm_comp(c1, len);
    lemma_norm_comp(c2, len);
    lemma_norm_comp(c3, len);
    let q1 = iabs(c1) * 65536 / len;
    let q2 = iabs(c2) * 65536 / len;
    let q3 = iabs(c3) * 65536 / len;
    let w = spec_normalize(v);
    let n1 = fdiv_s(c1, len);
    let n2 = fdiv_s(c2, len);
    let n3 = fdiv_s(c3, len);
    assert(w.x as int == n1 && w.y as int == n2 && w.z as int == n3);
    let lsq = spec_length_sq(w);
    assert(lsq == fmul_s(n1, n1) + fmul_s(n2, n2) + fmul_s(n3, n3));
    let qq = q1 * q1 + q2 * q2 + q3 * q3;
    assert(65536 * lsq <= qq && qq < 65536 * lsq + 3 * 65536);
    // upper bound: each rescaled square stays under the unscaled one
    assert(0 <= len * q1 && 0 <= len * q2 && 0 <= len * q3) by (nonlinear_arith)
        requires
            0 <= q1 && 0 <= q2 && 0 <= q3 && 0 < len;
    assert((len * len) * (q1 * q1) <= (65536 * 65536) * (c1 * c1)) by (nonlinear_arith)
        requires
            0 <= len * q1 <= iabs(c1) * 65536,
            c1 * c1 == iabs(c1) * iabs(c1);
    assert((len * len) * (q2 * q2) <= (65536 * 65536) * (c2 * c2)) by (nonlinear_arith)
        requires
            0 <= len * q2 <= iabs(c2) * 65536,
            c2 * c2 == iabs(c2) * iabs(c2);
    assert((len * len) * (q3 * q3) <= (65536 * 65536) * (c3 * c3)) by (nonlinear_arith)
        requires
            0 <= len * q3 <= iabs(c3) * 65536,
            c3 * c3 == iabs(c3) * iabs(c3);
    assert((len * len) * qq <= (65536 * 65536) * rr) by (nonlinear_arith)
        requires
            (len * len) * (q1 * q1) <= (65536 * 65536) * (c1 * c1),
            (len * len) * (q2 * q2) <= (65536 * 65536) * (c2 * c2),
            (len * len) * (q3 * q3) <= (65536 * 65536) * (c3 * c3),
            qq == q1 * q1 + q2 * q2 + q3 * q3,
            rr == c1 * c1 + c2 * c2 + c3 * c3;
    assert((65536 * 65536) * rr < (65536 * 65536) * ((len + 1) * (len + 1)) + 3 * (65536 * 65536
        * 65536)) by (nonlinear_arith)
        requires
            rr < (len + 1) * (len + 1) + 3 * 65536;
    assert((65536 * 65536) * ((len + 1) * (len + 1)) + 3 * (65536 * 65536 * 65536) <= (len * len)
        * (65536 * 65536 + 6 * 65536)) by (nonlinear_arith)
        requires
            len >= 65536;
    assert(qq <= 65536 * 65536 + 6 * 65536) by (nonlinear_arith)
        requires
            (len * len) * qq < (len * len) * (65536 * 65536 + 6 * 65536) + 1,
            len >= 1;
    // lower bound: each scaled square stays within one step behind
    assert((65536 * 65536) * (c1 * c1) < (len * len) * ((q1 + 1) * (q1 + 1))) by (nonlinear_arith)
        requires
            0 <= iabs(c1) * 65536 < len * (q1 + 1),
            c1 * c1 == iabs(c1) * iabs(c1),
            0 <= len;
    assert((65536 * 65536) * (c2 * c2) < (len * len) * ((q2 + 1) * (q2 + 1))) by (nonlinear_arith)
        requires
            0 <= iabs(c2) * 65536 < len * (q2 + 1),
            c2 * c2 == iabs(c2) * iabs(c2),
            0 <= len;
    assert((65536 * 65536) * (c3 * c3) < (len * len) * ((q3 + 1) * (q3 + 1))) by (nonlinear_arith)
        requires
            0 <= iabs(c3) * 65536 < len * (q3 + 1),
            c3 * c3 == iabs(c3) * iabs(c3),
            0 <= len;
    assert((65536 * 65536) * rr < (len * len) * (qq + 2 * (q1 + q2 + q3) + 3)) by (nonlinear_arith)
        requires
            (65536 * 65536) * (c1 * c1) < (len * len) * ((q1 + 1) * (q1 + 1)),
            (65536 * 65536) * (c2 * c2) < (len * len) * ((q2 + 1) * (q2 + 1)),
            (65536 * 65536) * (c3 * c3) < (len * len) * ((q3 + 1) * (q3 + 1)),
            qq == q1 * q1 + q2 * q2 + q3 * q3,
            rr == c1 * c1 + c2 * c2 + c3 * c3;
    assert(len * len <= 65536 * ls) by (nonlinear_arith)
        requires
            len * len <= ls * 65536;
    assert((len * len) * (65536 * 65536) <= (65536 * 65536) * rr) by (nonlinear_arith)
        requires
            len * len <= 65536 * ls,
            65536 * ls <= rr;
    assert(65536 * 65536 < qq + 2 * (q1 + q2 + q3) + 3) by (nonlinear_arith)
        requires
            (len * len) * (65536 * 65536) < (len * len) * (qq + 2 * (q1 + q2 + q3) + 3),
            len >= 1;
    assert(qq > 65536 * 65536 - 6 * 65536 - 21) by (nonlinear_arith)
        requires
            65536 * 65536 < qq + 2 * (q1 + q2 + q3) + 3,
            0 <= q1 <= 65539,
            0 <= q2 <= 65539,
            0 <= q3 <= 65539;
    // squared length of the normalized vector, and so its length
    assert(lsq <= 65536 + 6) by (nonlinear_arith)
        requires
            65536 * lsq <= qq,
            qq <= 65536 * 65536 + 6 * 65536;
    assert(lsq >= 65536 - 10) by (nonlinear_arith)
        requires
            qq < 65536 * lsq + 3 * 65536,
            qq > 65536 * 65536 - 6 * 65536 - 21;
    let len2 = spec_length(w);
    crate::fx::lemma_isqrt_exists(lsq * 65536);
    assert(is_isqrt(lsq * 65536, len2));
    assert((65536 - 6) * (65536 - 6) <= lsq * 65536) by (nonlinear_arith)
        requires
            lsq >= 65536 - 10;
    lemma_isqrt_at_least(lsq * 65536, len2, 65536int - 6);
    assert(lsq * 65536 < (65536 + 3) * (65536 + 3)) by (nonlinear_arith)
        requires
            lsq <= 65536 + 6;
    lemma_isqrt_at_most(lsq * 65536, len2, 65536int + 2);
}


/// The axis vector the sampler falls back on is itself a unit sample.
proof fn lemma_axis_is_unit_sample(axis: Vec3)
    requires
        axis == (Vec3 { x: 0, y: 0, z: SCALE }),
    ensures
        is_unit_sample(axis),
{
    assert(is_isqrt(0x1_0000_0000, 0x1_0000));
    crate::fx::lemma_isqrt_agrees(0x1_0000_0000, 0x1_0000);
    assert(65536 * 65536 == 0x1_0000_0000int);
    assert(iabs(0x1_0000_0000) == 0x1_0000_0000int && iabs(65536) == 65536int);
    assert(0x1_0000_0000int / 65536int == 65536int);
    assert(tdiv(65536int * 65536int, 65536int) == 65536int);
    assert(crate::fx::fmul_s(65536int, 65536int) == 65536int);
    assert(spec_length_sq(axis) == 65536);
    assert(axis == spec_normalize(axis));
    assert(16384 <= spec_length_sq(axis) <= SCALE && axis == spec_normalize(axis));
}

} // verus!
