//! Fixed-point scalar arithmetic.
//!
//! Every quantity in the library is a binary fixed-point number: an `i64`
//! holding the value times `SCALE`.  All operations saturate at the `i64`
//! range instead of overflowing, and quotients truncate toward zero; the
//! spec functions here state those results exactly, and everything else in
//! the crate is specified in terms of them.

use vstd::prelude::*;

verus! {

/// Number of raw units in one whole unit of the fixed-point representation.
pub const SCALE: i64 = 65536;

/// Magnitude of an integer.
pub open spec fn iabs(a: int) -> int {
    if a >= 0 {
        a
    } else {
        -a
    }
}

/// Saturation of an unbounded integer into the `i64` range.
pub open spec fn clip(x: int) -> int {
    if x > i64::MAX {
        i64::MAX as int
    } else if x < i64::MIN {
        i64::MIN as int
    } else {
        x
    }
}

/// Quotient of `a` by `b`, truncated toward zero (the behaviour of `/` on
/// the machine's signed integers).
pub open spec fn tdiv(a: int, b: int) -> int {
    if (a >= 0) == (b >= 0) {
        iabs(a) / iabs(b)
    } else {
        -(iabs(a) / iabs(b))
    }
}

/// Fixed-point sum.
pub open spec fn fadd_s(a: int, b: int) -> int {
    clip(a + b)
}

/// Fixed-point difference.
pub open spec fn fsub_s(a: int, b: int) -> int {
    clip(a - b)
}

/// Fixed-point negation.
pub open spec fn fneg_s(a: int) -> int {
    clip(-a)
}

/// Fixed-point product: the scaled product, truncated toward zero.
pub open spec fn fmul_s(a: int, b: int) -> int {
    clip(tdiv(a * b, SCALE as int))
}

/// Fixed-point quotient.
pub open spec fn fdiv_s(a: int, b: int) -> int {
    clip(tdiv(a * SCALE, b))
}

/// Fixed-point value scaled by a plain integer.
pub open spec fn fmuli_s(a: int, k: int) -> int {
    clip(a * k)
}

/// Fixed-point value divided by a plain integer.
pub open spec fn fdivi_s(a: int, k: int) -> int {
    clip(tdiv(a, k))
}

/// `r` is the integer square root of `n`.
pub open spec fn is_isqrt(n: int, r: int) -> bool {
    &&& 0 <= r
    &&& r * r <= n
    &&& n < (r + 1) * (r + 1)
}

/// The integer square root of `n` (for `n >= 0`).
pub open spec fn isqrt_s(n: int) -> int {
    choose|r: int| is_isqrt(n, r)
}

/// Fixed-point square root: the integer square root of the value scaled up
/// once more, so that the result is again a fixed-point value.
pub open spec fn fsqrt_s(a: int) -> int {
    isqrt_s(a * SCALE)
}

/// The integer square root is unique, so any witness equals `isqrt_s`.
pub proof fn lemma_isqrt_agrees(n: int, r: int)
    requires
        is_isqrt(n, r),
    ensures
        isqrt_s(n) == r,
{
    let q = isqrt_s(n);
    assert(is_isqrt(n, q));
    if q < r {
        assert((q + 1) * (q + 1) <= r * r) by (nonlinear_arith)
            requires
                0 <= q,
                q < r;
        assert(false);
    }
    if r < q {
        assert((r + 1) * (r + 1) <= q * q) by (nonlinear_arith)
            requires
                0 <= r,
                r < q;
        assert(false);
    }
}

/// A product of two `i64` values stays within the `i128` range.
proof fn lemma_mul_i64_fits(a: int, b: int)
    requires
        i64::MIN <= a <= i64::MAX,
        i64::MIN <= b <= i64::MAX,
    ensures
        i128::MIN < a * b < i128::MAX,
{
    assert(i128::MIN < a * b < i128::MAX) by (nonlinear_arith)
        requires
            -0x8000_0000_0000_0000 <= a <= 0x7fff_ffff_ffff_ffff,
            -0x8000_0000_0000_0000 <= b <= 0x7fff_ffff_ffff_ffff;
}

/// A nonnegative quotient is bounded by its dividend.
pub proof fn lemma_div_pos_le(x: int, d: int)
    requires
        x >= 0,
        d >= 1,
    ensures
        0 <= x / d <= x,
{
    assert(0 <= x / d <= x) by (nonlinear_arith)
        requires
            x >= 0,
            d >= 1;
}

/// Dividing by at least two at least halves a nonnegative dividend.
proof fn lemma_div_halves(x: int, d: int)
    requires
        x >= 0,
        d >= 2,
    ensures
        x / d <= x / 2,
{
    assert(x / d <= x / 2) by (nonlinear_arith)
        requires
            x >= 0,
            d >= 2;
}

/// Saturate a wide intermediate into the `i64` range.
fn clip64(x: i128) -> (r: i64)
    ensures
        r as int == clip(x as int),
{
    if x > i64::MAX as i128 {
        i64::MAX
    } else if x < i64::MIN as i128 {
        i64::MIN
    } else {
        x as i64
    }
}

/// Truncating division on wide intermediates.
fn tdiv128(a: i128, b: i128) -> (r: i128)
    requires
        b != 0,
        !(a == i128::MIN && b == -1),
    ensures
        r as int == tdiv(a as int, b as int),
{
    let q = a.checked_div(b);
    proof {
        let x = a as int;
        let d = b as int;
        if x < 0 && d < 0 {
            assert(x * -1 == -x && d * -1 == -d);
            lemma_div_pos_le(-x, -d);
            if -d >= 2 {
                lemma_div_halves(-x, -d);
            }
        } else if x < 0 {
            assert(x * -1 == -x);
            lemma_div_pos_le(-x, d);
        } else if x > 0 && d < 0 {
            assert(d * -1 == -d);
            lemma_div_pos_le(x, -d);
        } else if x > 0 {
            lemma_div_pos_le(x, d);
        }
        assert(q is Some);
    }
    q.unwrap()
}

/// Fixed-point sum.
pub fn fadd(a: i64, b: i64) -> (r: i64)
    ensures
        r as int == fadd_s(a as int, b as int),
{
    clip64(a as i128 + b as i128)
}

/// Fixed-point difference.
pub fn fsub(a: i64, b: i64) -> (r: i64)
    ensures
        r as int == fsub_s(a as int, b as int),
{
    clip64(a as i128 - b as i128)
}

/// Fixed-point negation.
pub fn fneg(a: i64) -> (r: i64)
    ensures
        r as int == fneg_s(a as int),
{
    clip64(-(a as i128))
}

/// Fixed-point product.
pub fn fmul(a: i64, b: i64) -> (r: i64)
    ensures
        r as int == fmul_s(a as int, b as int),
{
    proof {
        lemma_mul_i64_fits(a as int, b as int);
    }
    let p: i128 = (a as i128) * (b as i128);
    let q = tdiv128(p, SCALE as i128);
    clip64(q)
}

/// Fixed-point quotient.
pub fn fdiv(a: i64, b: i64) -> (r: i64)
    requires
        b != 0,
    ensures
        r as int == fdiv_s(a as int, b as int),
{
    proof {
        lemma_mul_i64_fits(a as int, SCALE as int);
    }
    let p: i128 = (a as i128) * (SCALE as i128);
    let q = tdiv128(p, b as i128);
    clip64(q)
}

/// Fixed-point value scaled by a plain integer.
pub fn fmuli(a: i64, k: i64) -> (r: i64)
    ensures
        r as int == fmuli_s(a as int, k as int),
{
    proof {
        lemma_mul_i64_fits(a as int, k as int);
    }
    clip64((a as i128) * (k as i128))
}

/// Fixed-point value divided by a plain integer.
pub fn fdivi(a: i64, k: i64) -> (r: i64)
    requires
        k != 0,
    ensures
        r as int == fdivi_s(a as int, k as int),
{
    let q = tdiv128(a as i128, k as i128);
    clip64(q)
}

/// Clamp a fixed-point value into `[lo, hi]`.
pub fn fclamp(x: i64, lo: i64, hi: i64) -> (r: i64)
    requires
        lo <= hi,
    ensures
        r == fclamp_s(x as int, lo as int, hi as int),
        lo <= r <= hi,
{
    if x < lo {
        lo
    } else if x > hi {
        hi
    } else {
        x
    }
}

/// Clamp into `[lo, hi]`.
pub open spec fn fclamp_s(x: int, lo: int, hi: int) -> int {
    if x < lo {
        lo
    } else if x > hi {
        hi
    } else {
        x
    }
}

/// Magnitude of a fixed-point value, saturated.
pub open spec fn fabs_s(a: int) -> int {
    clip(iabs(a))
}

/// Magnitude of a fixed-point value.
pub fn fabs(a: i64) -> (r: i64)
    ensures
        r as int == fabs_s(a as int),
        r >= 0,
{
    if a < 0 {
        clip64(-(a as i128))
    } else {
        a
    }
}

/// The square of an integer is nonnegative.
pub proof fn lemma_square_nonneg(a: int)
    ensures
        a * a >= 0,
{
    assert(a * a >= 0) by (nonlinear_arith);
}

/// A truncated quotient is no larger in magnitude than the bound on its
/// dividend divided by the bound on its divisor.
pub proof fn lemma_tdiv_bound(a: int, b: int, cap_n: int, cap_d: int)
    requires
        iabs(a) <= cap_n,
        1 <= cap_d <= iabs(b),
    ensures
        iabs(tdiv(a, b)) <= cap_n / cap_d,
{
    assert(0 <= iabs(a) / iabs(b)) by (nonlinear_arith)
        requires
            0 <= iabs(a),
            1 <= iabs(b);
    assert(iabs(tdiv(a, b)) == iabs(a) / iabs(b));
    assert(iabs(a) / iabs(b) <= cap_n / cap_d) by (nonlinear_arith)
        requires
            0 <= iabs(a) <= cap_n,
            1 <= cap_d <= iabs(b);
}

/// An integer square root is at least any number whose square fits under
/// the radicand.
pub proof fn lemma_isqrt_at_least(n: int, r: int, m: int)
    requires
        is_isqrt(n, r),
        0 <= m,
        m * m <= n,
    ensures
        r >= m,
{
    if r < m {
        assert((r + 1) * (r + 1) <= m * m) by (nonlinear_arith)
            requires
                0 <= r,
                r < m;
        assert(false);
    }
}

/// An integer square root is at most any number whose successor's square
/// exceeds the radicand.
pub proof fn lemma_isqrt_at_most(n: int, r: int, m: int)
    requires
        is_isqrt(n, r),
        0 <= m,
        n < (m + 1) * (m + 1),
    ensures
        r <= m,
{
    if m < r {
        assert((m + 1) * (m + 1) <= r * r) by (nonlinear_arith)
            requires
                0 <= m,
                m < r;
        assert(false);
    }
}

/// The two-sided bound that truncating division of a nonnegative value
/// leaves.
pub proof fn lemma_div_bounds(x: int, d: int)
    requires
        0 <= x,
        0 < d,
    ensures
        d * (x / d) <= x < d * (x / d) + d,
        0 <= x / d,
{
    vstd::arithmetic::div_mod::lemma_fundamental_div_mod(x, d);
    vstd::arithmetic::div_mod::lemma_mod_bound(x, d);
    if x / d < 0 {
        assert(d * (x / d) <= -d) by (nonlinear_arith)
            requires
                x / d <= -1,
                d > 0;
        assert(false);
    }
}

/// For a nonnegative radicand an integer square root exists, so the chosen
/// one satisfies its defining property.
pub proof fn lemma_isqrt_exists(n: int)
    requires
        0 <= n,
    ensures
        is_isqrt(n, isqrt_s(n)),
    decreases n,
{
    if n == 0 {
        assert(is_isqrt(0, 0));
    } else {
        lemma_isqrt_exists(n - 1);
        let q = isqrt_s(n - 1);
        if n < (q + 1) * (q + 1) {
            assert(is_isqrt(n, q));
        } else {
            assert((q + 1) * (q + 1) <= n);
            assert(n - 1 < (q + 1) * (q + 1));
            assert(n == (q + 1) * (q + 1));
            assert(n < (q + 2) * (q + 2)) by (nonlinear_arith)
                requires
                    0 <= q,
                    n == (q + 1) * (q + 1);
            assert(is_isqrt(n, q + 1));
        }
    }
}

/// Scaling by a fixed-point factor below one cannot reach the bound.
pub proof fn lemma_unit_scale_bound(t: int, d: int)
    requires
        0 <= t < 65536,
        1 <= d,
    ensures
        0 <= tdiv(t * d, 65536) < d,
{
    assert(0 <= t * d) by (nonlinear_arith)
        requires
            0 <= t,
            0 <= d;
    assert(0 <= (t * d) / 65536 < d) by (nonlinear_arith)
        requires
            0 <= t < 65536,
            1 <= d;
}

/// Integer square root of a wide intermediate, by bisection.
fn isqrt128(n: u128) -> (r: u64)
    requires
        n < 0x4000_0000_0000_0000_0000_0000_0000_0000,
    ensures
        is_isqrt(n as int, r as int),
        r as int == isqrt_s(n as int),
{
    let mut lo: u64 = 0;
    let mut hi: u64 = 0x8000_0000_0000_0000;
    proof {
        assert((hi as int) * (hi as int) == 0x4000_0000_0000_0000_0000_0000_0000_0000);
    }
    while lo + 1 < hi
        invariant
            lo < hi,
            hi <= 0x8000_0000_0000_0000,
            (lo as int) * (lo as int) <= n as int,
            (n as int) < (hi as int) * (hi as int),
        decreases hi - lo,
    {
        let mid: u64 = lo + (hi - lo) / 2;
        proof {
            assert((mid as int) * (mid as int) < i128::MAX) by (nonlinear_arith)
                requires
                    0 <= mid as int <= 0x8000_0000_0000_0000;
        }
        if (mid as u128) * (mid as u128) <= n {
            lo = mid;
        } else {
            hi = mid;
        }
    }
    proof {
        assert(hi == lo + 1);
        lemma_isqrt_agrees(n as int, lo as int);
    }
    lo
}

/// Fixed-point square root.
pub fn fsqrt(a: i64) -> (r: i64)
    requires
        a >= 0,
    ensures
        r as int == fsqrt_s(a as int),
        is_isqrt(a * SCALE, r as int),
        r >= 0,
{
    proof {
        assert((a as int) * (SCALE as int) < 0x8000_0000_0000_0000_0000) by (nonlinear_arith)
            requires
                0 <= a as int <= 0x7fff_ffff_ffff_ffff,
                SCALE == 65536;
    }
    let n: u128 = (a as u128) * (SCALE as u128);
    let r = isqrt128(n);
    proof {
        assert((r as int) < 0x100_0000_0000) by (nonlinear_arith)
            requires
                is_isqrt(n as int, r as int),
                (n as int) < 0x8000_0000_0000_0000_0000;
    }
    r as i64
}

} // verus!
