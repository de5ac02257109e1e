//! Exact-arithmetic facts behind the vector geometry.
//!
//! The executable algebra rounds at every operation, so the classical
//! identities hold of the mathematical vectors it approximates rather
//! than of the rounded values themselves.  This module states those
//! identities over an exact model: a vector of unbounded integers, with
//! the scale of a unit vector carried explicitly, so that every identity
//! is division-free and holds exactly.

use vstd::prelude::*;

verus! {

/// A vector of mathematical integers: the exact counterpart of `Vec3`,
/// at whatever scale its construction fixed.
pub struct MathVec {
    pub x: int,
    pub y: int,
    pub z: int,
}

/// Exact componentwise sum.
pub open spec fn mv_add(a: MathVec, b: MathVec) -> MathVec {
    MathVec { x: a.x + b.x, y: a.y + b.y, z: a.z + b.z }
}

/// Exact componentwise difference.
pub open spec fn mv_sub(a: MathVec, b: MathVec) -> MathVec {
    MathVec { x: a.x - b.x, y: a.y - b.y, z: a.z - b.z }
}

/// Exact scaling.
pub open spec fn mv_scale(a: MathVec, k: int) -> MathVec {
    MathVec { x: a.x * k, y: a.y * k, z: a.z * k }
}

/// Exact inner product.
pub open spec fn mv_dot(a: MathVec, b: MathVec) -> int {
    a.x * b.x + a.y * b.y + a.z * b.z
}

/// Exact mirror reflection of `v` about `n`, scaled through by `s²` so
/// that it stays integral: `s²·v − 2(n·v)·n`.
pub open spec fn mv_reflect(v: MathVec, n: MathVec, s: int) -> MathVec {
    mv_sub(mv_scale(v, s * s), mv_scale(n, 2 * mv_dot(n, v)))
}

/// The inner product does not mind its argument order.
proof fn lemma_dot_comm(a: MathVec, b: MathVec)
    ensures
        mv_dot(a, b) == mv_dot(b, a),
{
    assert(a.x * b.x == b.x * a.x && a.y * b.y == b.y * a.y && a.z * b.z == b.z * a.z)
        by (nonlinear_arith);
}

/// One squared binomial, componentwise.
proof fn lemma_sq_expand(x: int, y: int, a: int, b: int)
    ensures
        (x * a - y * b) * (x * a - y * b) == (x * x) * (a * a) - 2 * ((x * y) * (a * b)) + (y * y)
            * (b * b),
{
    let u = x * a;
    let w = y * b;
    assert((u - w) * (u - w) == u * u - 2 * (u * w) + w * w) by (nonlinear_arith);
    assert(u * u == (x * x) * (a * a)) by (nonlinear_arith)
        requires
            u == x * a;
    assert(u * w == (x * y) * (a * b)) by (nonlinear_arith)
        requires
            u == x * a,
            w == y * b;
    assert(w * w == (y * y) * (b * b)) by (nonlinear_arith)
        requires
            w == y * b;
}

/// One cross term, componentwise.
proof fn lemma_mul_collect(x: int, y: int, a: int, b: int)
    ensures
        (x * a - y * b) * y == (x * y) * a - (y * y) * b,
{
    assert((x * a - y * b) * y == (x * y) * a - (y * y) * b) by (nonlinear_arith);
}

/// The squared length of `a·v − b·n`, by bilinearity.
proof fn lemma_dot_sub_sq(v: MathVec, n: MathVec, a: int, b: int)
    ensures
        mv_dot(mv_sub(mv_scale(v, a), mv_scale(n, b)), mv_sub(mv_scale(v, a), mv_scale(n, b)))
            == mv_dot(v, v) * (a * a) - 2 * (mv_dot(v, n) * (a * b)) + mv_dot(n, n) * (b * b),
{
    lemma_sq_expand(v.x, n.x, a, b);
    lemma_sq_expand(v.y, n.y, a, b);
    lemma_sq_expand(v.z, n.z, a, b);
    let vv = mv_dot(v, v);
    let vn = mv_dot(v, n);
    let nn = mv_dot(n, n);
    assert((v.x * v.x) * (a * a) + (v.y * v.y) * (a * a) + (v.z * v.z) * (a * a) == vv * (a * a))
        by (nonlinear_arith)
        requires
            vv == v.x * v.x + v.y * v.y + v.z * v.z;
    assert((v.x * n.x) * (a * b) + (v.y * n.y) * (a * b) + (v.z * n.z) * (a * b) == vn * (a * b))
        by (nonlinear_arith)
        requires
            vn == v.x * n.x + v.y * n.y + v.z * n.z;
    assert((n.x * n.x) * (b * b) + (n.y * n.y) * (b * b) + (n.z * n.z) * (b * b) == nn * (b * b))
        by (nonlinear_arith)
        requires
            nn == n.x * n.x + n.y * n.y + n.z * n.z;
}

/// The projection of `a·v − b·n` onto `n`, by bilinearity.
proof fn lemma_dot_sub_proj(v: MathVec, n: MathVec, a: int, b: int)
    ensures
        mv_dot(mv_sub(mv_scale(v, a), mv_scale(n, b)), n) == mv_dot(v, n) * a - mv_dot(n, n) * b,
{
    lemma_mul_collect(v.x, n.x, a, b);
    lemma_mul_collect(v.y, n.y, a, b);
    lemma_mul_collect(v.z, n.z, a, b);
    let vn = mv_dot(v, n);
    let nn = mv_dot(n, n);
    assert((v.x * n.x) * a + (v.y * n.y) * a + (v.z * n.z) * a == vn * a) by (nonlinear_arith)
        requires
            vn == v.x * n.x + v.y * n.y + v.z * n.z;
    assert((n.x * n.x) * b + (n.y * n.y) * b + (n.z * n.z) * b == nn * b) by (nonlinear_arith)
        requires
            nn == n.x * n.x + n.y * n.y + n.z * n.z;
}

/// Reflection about a unit normal (a vector of length `s` at scale `s`)
/// negates the component along the normal and preserves the length: with
/// `r` the reflection of `v` scaled through by `s²`, the projection
/// `r·n` is `−s²` times `v·n`, and `|r|²` is `s⁴` times `|v|²`.
pub proof fn lemma_reflect_exact(v: MathVec, n: MathVec, s: int)
    requires
        mv_dot(n, n) == s * s,
    ensures
        mv_dot(mv_reflect(v, n, s), n) == -(s * s) * mv_dot(v, n),
        mv_dot(mv_reflect(v, n, s), mv_reflect(v, n, s)) == (s * s) * (s * s) * mv_dot(v, v),
{
    let d = mv_dot(n, v);
    let q = s * s;
    lemma_dot_comm(n, v);
    lemma_dot_sub_proj(v, n, q, 2 * d);
    assert(d * q - q * (2 * d) == -q * d) by (nonlinear_arith);
    lemma_dot_sub_sq(v, n, q, 2 * d);
    assert(mv_dot(v, v) * (q * q) - 2 * (d * (q * (2 * d))) + q * ((2 * d) * (2 * d)) == q * q
        * mv_dot(v, v)) by (nonlinear_arith);
}

/// Snell refraction at an index ratio of one bends nothing.  With `uv`
/// and `n` unit vectors of length `s` at scale `s` and `c = −(uv·n)` the
/// scaled cosine of incidence, the perpendicular part `P = s²·uv + c·n`
/// has `|P|² = s²(s⁴ − c²)` — so the parallel coefficient, the root of
/// the complementary square, is the cosine again — and adding the
/// parallel part `−c·n` to `P` returns exactly `s²·uv`: the refracted
/// direction is the incoming one.
pub proof fn lemma_refract_identity(uv: MathVec, n: MathVec, s: int, c: int)
    requires
        mv_dot(uv, uv) == s * s,
        mv_dot(n, n) == s * s,
        c == -mv_dot(uv, n),
    ensures
        mv_dot(
            mv_add(mv_scale(uv, s * s), mv_scale(n, c)),
            mv_add(mv_scale(uv, s * s), mv_scale(n, c)),
        ) == s * s * (s * s * s * s - c * c),
        mv_add(mv_add(mv_scale(uv, s * s), mv_scale(n, c)), mv_scale(n, -c)) == mv_scale(uv, s * s),
{
    let q = s * s;
    let p = mv_add(mv_scale(uv, q), mv_scale(n, c));
    assert(n.x * (-c) == -(n.x * c) && n.y * (-c) == -(n.y * c) && n.z * (-c) == -(n.z * c))
        by (nonlinear_arith);
    assert(p == mv_sub(mv_scale(uv, q), mv_scale(n, -c)));
    lemma_dot_sub_sq(uv, n, q, -c);
    assert(q * (q * q) - 2 * ((-c) * (q * (-c))) + q * ((-c) * (-c)) == q * (q * q - c * c))
        by (nonlinear_arith);
    assert(q * (q * q - c * c) == s * s * (s * s * s * s - c * c)) by (nonlinear_arith)
        requires
            q == s * s;
    assert(mv_add(p, mv_scale(n, -c)) == mv_scale(uv, q));
}

} // verus!
