//! Colours and their encoding into 8-bit channels.
//!
//! A colour is a `Vec3` of fixed-point channels, conceptually in `[0, 1]`
//! after sample averaging.  Encoding clamps each channel, applies gamma
//! (square-root) correction, and quantizes to `0..=255`.

use vstd::prelude::*;
use crate::fx::{
    SCALE, fclamp, fclamp_s, fdivi, fdivi_s, fmuli, fmuli_s, fsqrt, fsqrt_s, iabs,
    lemma_isqrt_at_most, lemma_square_nonneg, lemma_tdiv_bound, tdiv,
};
use crate::vec3::Vec3;

verus! {

pub type Color = Vec3;

/// Gamma correction of a linear channel: the square root, with
/// non-positive input mapped to zero.
pub open spec fn spec_linear_to_gamma(linear: int) -> int {
    if linear <= 0 {
        0
    } else {
        fsqrt_s(linear)
    }
}

/// Gamma correction of a linear channel.
pub fn linear_to_gamma(linear: i64) -> (r: i64)
    ensures
        r as int == spec_linear_to_gamma(linear as int),
        r >= 0,
{
    if linear <= 0 {
        0
    } else {
        fsqrt(linear)
    }
}

/// The quantized 8-bit value of one linear channel: clamp into `[0, 1]`,
/// gamma-correct, scale to just under 256 (by 255.999, as the thousandths
/// ratio 255999/1000), and truncate.  A full channel lands exactly on
/// 255, so no cap is needed.
pub open spec fn spec_channel(v: int) -> int {
    let g = spec_linear_to_gamma(fclamp_s(v, 0, SCALE as int));
    fdivi_s(fmuli_s(g, 255999), 65536000)
}

/// The encoded pixel of a colour, channel by channel.
pub open spec fn spec_to_rgb8(c: Color) -> (u8, u8, u8) {
    (spec_channel(c.x as int) as u8, spec_channel(c.y as int) as u8, spec_channel(c.z as int) as u8)
}

/// A gamma-corrected clamped channel stays within one unit.
proof fn lemma_gamma_unit(v: int)
    requires
        0 <= v <= SCALE,
    ensures
        0 <= spec_linear_to_gamma(v) <= SCALE,
{
    if v > 0 {
        let n = v * SCALE;
        crate::fx::lemma_isqrt_exists(n);
        assert(n <= 65536int * 65536int) by (nonlinear_arith)
            requires
                0 <= v <= 65536,
                n == v * 65536;
        assert(0 <= n) by (nonlinear_arith)
            requires
                0 <= v,
                n == v * 65536;
        lemma_isqrt_at_most(n, crate::fx::isqrt_s(n), 65536);
    }
}

/// Quantize one channel.
fn channel(v: i64) -> (r: u8)
    ensures
        r as int == spec_channel(v as int),
{
    let cl = fclamp(v, 0, SCALE);
    let g = linear_to_gamma(cl);
    proof {
        lemma_gamma_unit(cl as int);
        assert(iabs((g as int) * 255999) == (g as int) * 255999 && (g as int) * 255999
            <= 65536int * 255999) by (nonlinear_arith)
            requires
                0 <= g as int <= 65536;
        lemma_tdiv_bound((g as int) * 255999, 65536000, 65536int * 255999, 65536000);
        crate::fx::lemma_div_pos_le((g as int) * 255999, 65536000);
        assert(tdiv((g as int) * 255999, 65536000) == ((g as int) * 255999) / 65536000);
    }
    let q = fdivi(fmuli(g, 255999), 65536000);
    q as u8
}

impl Color {
    /// Encode a sample-averaged colour as one 8-bit pixel.
    pub fn to_rgb8(self) -> (r: (u8, u8, u8))
        ensures
            r == spec_to_rgb8(self),
    {
        (channel(self.x), channel(self.y), channel(self.z))
    }
}

} // verus!
