//! Pixel values and the blending algebra that combines them.
//!
//! Channels and opacities are fixed-point fractions with denominator 255:
//! the channel value 255 stands for 1.0, so an opacity of 255 applies a
//! pixel in full and an opacity of 0 leaves the base pixel untouched.
//! Blending is the standard "over" operator on straight (non-premultiplied)
//! alpha, with the applied pixel's alpha first scaled by the opacity and
//! every quotient rounded to the nearest integer, halves upward.

use vstd::arithmetic::div_mod::{
    lemma_div_is_ordered, lemma_div_pos_is_pos, lemma_fundamental_div_mod_converse,
};
use vstd::prelude::*;

verus! {

/// Integer division of `n` by `d`, rounded to the nearest integer with
/// halves rounded upward.
pub open spec fn div_round(n: int, d: int) -> int
    recommends
        d > 0,
{
    (n + d / 2) / d
}

/// Numerator of the blended alpha, out of `255 * 255` parts: the alpha of
/// `top` over `bottom` in the "over" operator, before requantisation.
pub open spec fn over_alpha_num(at: int, ab: int) -> int {
    255 * at + ab * (255 - at)
}

/// One colour channel of `top` (channel `ct`, alpha `at`) composited over
/// `bottom` (channel `cb`, alpha `ab`), requantised to `0 ..= 255`.
pub open spec fn over_channel(ct: int, cb: int, at: int, ab: int) -> int
    recommends
        at > 0,
        0 <= ab <= 255,
{
    div_round(255 * ct * at + cb * ab * (255 - at), over_alpha_num(at, ab))
}

/// A value usable as one sample of a pixel grid.
///
/// A pixel type fixes a deterministic blending algebra — what `blend`
/// returns is a function of its arguments alone — and a neutral element,
/// the fully transparent pixel that fresh canvases are filled with.
pub trait Pixel: Sized + Copy {
    /// The pixel that `blend` returns: `applied` laid over `self` at the
    /// given opacity.
    spec fn spec_blend(self, applied: Self, opacity: u8) -> Self;

    /// The neutral element of the algebra: the fully transparent pixel.
    spec fn spec_neutral() -> Self;

    /// Blend `applied` over `self` at `opacity` (fixed-point, 255 = full).
    fn blend(&self, applied: &Self, opacity: u8) -> (r: Self)
        ensures
            r == self.spec_blend(*applied, opacity),
    ;

    /// The neutral (fully transparent) pixel.
    fn neutral() -> (r: Self)
        ensures
            r == Self::spec_neutral(),
    ;
}

/// A pixel with red, green, blue and alpha channels of eight bits each,
/// straight (non-premultiplied) alpha.
#[derive(Clone, Copy, Debug, PartialEq, Eq, Structural)]
pub struct RgbaPixel {
    /// Red channel.
    pub r: u8,
    /// Green channel.
    pub g: u8,
    /// Blue channel.
    pub b: u8,
    /// Alpha channel: 0 is fully transparent, 255 fully opaque.
    pub a: u8,
}

/// `p` with its alpha scaled by `opacity` and the colour channels kept:
/// the first step of a blend at partial opacity.
pub open spec fn spec_scale(p: RgbaPixel, opacity: u8) -> RgbaPixel {
    RgbaPixel { r: p.r, g: p.g, b: p.b, a: div_round(p.a * opacity, 255) as u8 }
}

/// The Porter-Duff "over" operator on straight alpha: `top` laid over
/// `bottom`. A fully transparent `top` leaves `bottom` as it is; in
/// particular, when both pixels are fully transparent the result is the
/// (fully transparent) `bottom` rather than a quotient of zero by zero.
pub open spec fn spec_over(top: RgbaPixel, bottom: RgbaPixel) -> RgbaPixel {
    if top.a == 0 {
        bottom
    } else {
        let at = top.a as int;
        let ab = bottom.a as int;
        RgbaPixel {
            r: over_channel(top.r as int, bottom.r as int, at, ab) as u8,
            g: over_channel(top.g as int, bottom.g as int, at, ab) as u8,
            b: over_channel(top.b as int, bottom.b as int, at, ab) as u8,
            a: div_round(over_alpha_num(at, ab), 255) as u8,
        }
    }
}

impl RgbaPixel {
    /// Creates a new [`RgbaPixel`] from its four channels.
    pub fn new(r: u8, g: u8, b: u8, a: u8) -> (p: Self)
        ensures
            p == (RgbaPixel { r, g, b, a }),
    {
        RgbaPixel { r, g, b, a }
    }
}

/// `div_round` of an exact multiple of the divisor is exact.
pub proof fn lemma_div_round_mult(q: int, d: int)
    requires
        d > 0,
        q >= 0,
    ensures
        div_round(q * d, d) == q,
{
    lemma_fundamental_div_mod_converse(q * d + d / 2, d, q, d / 2);
}

/// `div_round` keeps a quotient bound: when `n` is at most `b` times the
/// divisor, the rounded quotient is between `0` and `b`.
pub proof fn lemma_div_round_le(n: int, d: int, b: int)
    requires
        d > 0,
        0 <= n,
        n <= b * d,
        b >= 0,
    ensures
        0 <= div_round(n, d) <= b,
{
    lemma_div_is_ordered(n + d / 2, b * d + d / 2, d);
    lemma_fundamental_div_mod_converse(b * d + d / 2, d, b, d / 2);
    lemma_div_pos_is_pos(n + d / 2, d);
}

impl From<(u8, u8, u8, u8)> for RgbaPixel {
    /// Build a pixel from its `(r, g, b, a)` channel tuple.
    fn from(value: (u8, u8, u8, u8)) -> (p: Self) {
        RgbaPixel { r: value.0, g: value.1, b: value.2, a: value.3 }
    }
}

impl vstd::std_specs::convert::FromSpecImpl<(u8, u8, u8, u8)> for RgbaPixel {
    open spec fn obeys_from_spec() -> bool {
        true
    }

    open spec fn from_spec(value: (u8, u8, u8, u8)) -> RgbaPixel {
        RgbaPixel { r: value.0, g: value.1, b: value.2, a: value.3 }
    }
}

impl Default for RgbaPixel {
    /// The default pixel is the neutral, fully transparent one.
    fn default() -> (p: Self)
        ensures
            p == RgbaPixel::spec_neutral(),
    {
        RgbaPixel { r: 0, g: 0, b: 0, a: 0 }
    }
}

/// Scaling an alpha by the full opacity 255 keeps the pixel as it is:
/// 255 stands for the fraction 1.0.
pub proof fn lemma_scale_full(p: RgbaPixel)
    ensures
        spec_scale(p, 255) == p,
{
    lemma_div_round_mult(p.a as int, 255);
    assert((p.a as int) * 255 == p.a * 255);
}

/// Law: blending at opacity zero returns the base pixel exactly, for every
/// pair of pixels.
pub proof fn lemma_blend_identity_zero(base: RgbaPixel, applied: RgbaPixel)
    ensures
        base.spec_blend(applied, 0) == base,
{
    assert(applied.a * 0 == 0);
    lemma_fundamental_div_mod_converse(127, 255, 0, 127);
}

/// Law: blending at the full opacity 255 is exactly the "over" operator,
/// the applied pixel on top, for every pair of pixels.
pub proof fn lemma_blend_full_is_over(base: RgbaPixel, applied: RgbaPixel)
    ensures
        base.spec_blend(applied, 255) == spec_over(applied, base),
{
    lemma_scale_full(applied);
}

/// Law: a fully opaque applied pixel at full opacity replaces the base
/// pixel outright.
pub proof fn lemma_blend_opaque(base: RgbaPixel, applied: RgbaPixel)
    requires
        applied.a == 255,
    ensures
        base.spec_blend(applied, 255) == applied,
{
    lemma_scale_full(applied);
    assert(over_alpha_num(255, base.a as int) == 65025);
    lemma_fundamental_div_mod_converse(65025int + 127, 255, 255, 127);
    lemma_div_round_mult(applied.r as int, 65025);
    lemma_div_round_mult(applied.g as int, 65025);
    lemma_div_round_mult(applied.b as int, 65025);
    assert(spec_over(applied, base) == applied);
}

/// Law: a fully transparent applied pixel leaves the base pixel exactly,
/// at every opacity.
pub proof fn lemma_blend_transparent(base: RgbaPixel, applied: RgbaPixel, opacity: u8)
    requires
        applied.a == 0,
    ensures
        base.spec_blend(applied, opacity) == base,
{
    assert(applied.a * opacity == 0);
    lemma_fundamental_div_mod_converse(127, 255, 0, 127);
}

/// Law: laying a pixel over the neutral (fully transparent) pixel at full
/// opacity reproduces it. The one family of exceptions is a transparent
/// pixel with colour left in its channels: blending such a pixel yields
/// the neutral pixel instead, so those inputs are left out.
pub proof fn lemma_blend_over_neutral(p: RgbaPixel)
    requires
        p.a > 0 || p == RgbaPixel::spec_neutral(),
    ensures
        RgbaPixel::spec_neutral().spec_blend(p, 255) == p,
{
    lemma_scale_full(p);
    if p.a > 0 {
        let at = p.a as int;
        assert(over_alpha_num(at, 0) == 255 * at);
        lemma_div_round_mult(at, 255);
        assert(255 * at == at * 255);
        assert(255 * (p.r as int) * at == (p.r as int) * (255 * at)
            && 255 * (p.g as int) * at == (p.g as int) * (255 * at)
            && 255 * (p.b as int) * at == (p.b as int) * (255 * at)) by (nonlinear_arith);
        lemma_div_round_mult(p.r as int, 255 * at);
        lemma_div_round_mult(p.g as int, 255 * at);
        lemma_div_round_mult(p.b as int, 255 * at);
        assert(spec_over(p, RgbaPixel::spec_neutral()) == p);
    }
}

impl Pixel for RgbaPixel {
    open spec fn spec_blend(self, applied: Self, opacity: u8) -> Self {
        spec_over(spec_scale(applied, opacity), self)
    }

    open spec fn spec_neutral() -> Self {
        RgbaPixel { r: 0, g: 0, b: 0, a: 0 }
    }

    fn blend(&self, applied: &Self, opacity: u8) -> (r: Self)
        ensures
            r == self.spec_blend(*applied, opacity),
    {
        proof {
            assert((applied.a as int) * (opacity as int) <= 255 * 255) by (nonlinear_arith)
                requires
                    0 <= applied.a as int <= 255,
                    0 <= opacity as int <= 255,
            ;
        }
        let scaled: u32 = ((applied.a as u32) * (opacity as u32) + 127) / 255;
        proof {
            assert(scaled == div_round((applied.a as int) * (opacity as int), 255));
            lemma_div_round_le((applied.a as int) * (opacity as int), 255, 255);
        }
        if scaled == 0 {
            return *self;
        }
        let at: u32 = scaled;
        let ab: u32 = self.a as u32;
        proof {
            assert((ab as int) * (255 - at as int) <= 255 * 255) by (nonlinear_arith)
                requires
                    0 <= ab as int <= 255,
                    0 <= 255 - at as int <= 255,
            ;
        }
        let na: u32 = 255 * at + ab * (255 - at);
        proof {
            assert(255 * (at as int) + (ab as int) * (255 - at as int) <= 255 * 255)
                by (nonlinear_arith)
                requires
                    0 <= ab as int <= 255,
                    0 <= at as int <= 255,
            ;
            lemma_div_round_le(na as int, 255, 255);
        }
        let a_out: u32 = (na + 127) / 255;
        let r_out: u32 = blend_channel(applied.r, self.r, at, ab, na);
        let g_out: u32 = blend_channel(applied.g, self.g, at, ab, na);
        let b_out: u32 = blend_channel(applied.b, self.b, at, ab, na);
        let result = RgbaPixel { r: r_out as u8, g: g_out as u8, b: b_out as u8, a: a_out as u8 };
        proof {
            let top = spec_scale(*applied, opacity);
            assert(top.a == at as u8);
            assert(top.a as int == at as int);
            assert(result == spec_over(top, *self));
        }
        result
    }

    fn neutral() -> (r: Self)
        ensures
            r == Self::spec_neutral(),
    {
        RgbaPixel { r: 0, g: 0, b: 0, a: 0 }
    }
}

/// One channel of the "over" operator, on widened integers: `ct` and `at`
/// are the applied pixel's channel and (already scaled) alpha, `cb` and
/// `ab` the base pixel's, and `na` the alpha numerator `over_alpha_num`.
fn blend_channel(ct: u8, cb: u8, at: u32, ab: u32, na: u32) -> (r: u32)
    requires
        1 <= at <= 255,
        ab <= 255,
        na == over_alpha_num(at as int, ab as int),
    ensures
        r == over_channel(ct as int, cb as int, at as int, ab as int),
        r <= 255,
{
    proof {
        assert(255 * (ct as int) * (at as int) <= 255 * (255 * (at as int))
            && 0 <= 255 * (ct as int) * (at as int)) by (nonlinear_arith)
            requires
                0 <= ct as int <= 255,
                1 <= at as int <= 255,
        ;
        assert((cb as int) * (ab as int) * (255 - at as int) <= 255 * ((ab as int) * (255 - at
            as int)) && 0 <= (cb as int) * (ab as int) * (255 - at as int)) by (nonlinear_arith)
            requires
                0 <= cb as int <= 255,
                0 <= ab as int <= 255,
                1 <= at as int <= 255,
        ;
        assert((cb as int) * (ab as int) <= 255 * 255 && (ab as int) * (255 - at as int) <= 255
            * 255) by (nonlinear_arith)
            requires
                0 <= cb as int <= 255,
                0 <= ab as int <= 255,
                1 <= at as int <= 255,
        ;
        assert(na >= 255) by (nonlinear_arith)
            requires
                na == over_alpha_num(at as int, ab as int),
                1 <= at as int <= 255,
                0 <= ab as int <= 255,
        ;
    }
    let num: u32 = 255 * (ct as u32) * at + (cb as u32) * ab * (255 - at);
    proof {
        assert(num <= 255 * (na as int));
        lemma_div_round_le(num as int, na as int, 255);
    }
    (num + na / 2) / na
}

} // verus!
