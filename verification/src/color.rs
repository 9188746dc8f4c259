//! The color picker: a four-slot palette with per-slot enable flags and
//! hue / saturation / value jitter, all in fixed-point.
//!
//! A color channel is a fixed-point value in `[0, FP_ONE]` standing for
//! `[0.0, 1.0]`; a hue is a fixed-point count of degrees in `[0, 360]` whole
//! units. Quantization of a channel to 8 bits multiplies by `255.9` and
//! truncates, which biases rounding to reduce banding at the `255` boundary.

use vstd::prelude::*;
use crate::fixed::FP_ONE;
use crate::rng::{MyRandom, range_draw, float_draw};

verus! {

/// A base color: red, green and blue channels, each in `[0, FP_ONE]`.
#[derive(Clone, Copy, Debug, PartialEq, Eq, Structural)]
pub struct Rgb {
    pub r: i64,
    pub g: i64,
    pub b: i64,
}

/// Channels within the unit range.
pub open spec fn rgb_wf(c: Rgb) -> bool {
    0 <= c.r <= FP_ONE && 0 <= c.g <= FP_ONE && 0 <= c.b <= FP_ONE
}

/// A four-slot palette: base colors, per-slot enable flags, and jitter
/// magnitudes for hue, saturation and value, each in `[0, FP_ONE]`.
pub struct ColorInfo {
    pub colors: [Rgb; 4],
    pub enabled: [bool; 4],
    pub h_rnd: i64,
    pub s_rnd: i64,
    pub v_rnd: i64,
}

impl ColorInfo {
    /// Channels and jitter magnitudes within their unit ranges.
    pub open spec fn wf(self) -> bool {
        &&& forall|i: int| 0 <= i < 4 ==> rgb_wf(#[trigger] self.colors[i])
        &&& 0 <= self.h_rnd <= FP_ONE
        &&& 0 <= self.s_rnd <= FP_ONE
        &&& 0 <= self.v_rnd <= FP_ONE
    }
}

impl Default for ColorInfo {
    /// One enabled red slot, three disabled black slots, no jitter.
    fn default() -> (r: ColorInfo)
        ensures
            r == spec_default_color_info(),
    {
        let red = Rgb { r: FP_ONE, g: 0, b: 0 };
        let black = Rgb { r: 0, g: 0, b: 0 };
        ColorInfo {
            colors: [red, black, black, black],
            enabled: [true, false, false, false],
            h_rnd: 0,
            s_rnd: 0,
            v_rnd: 0,
        }
    }
}

/// The palette `ColorInfo::default` builds.
pub open spec fn spec_default_color_info() -> ColorInfo {
    ColorInfo {
        colors: [
            Rgb { r: FP_ONE, g: 0, b: 0 },
            Rgb { r: 0, g: 0, b: 0 },
            Rgb { r: 0, g: 0, b: 0 },
            Rgb { r: 0, g: 0, b: 0 },
        ],
        enabled: [true, false, false, false],
        h_rnd: 0,
        s_rnd: 0,
        v_rnd: 0,
    }
}

/// The enabled base colors, in slot order.
pub open spec fn enabled_seq(info: ColorInfo) -> Seq<Rgb> {
    let s0: Seq<Rgb> = if info.enabled[0] { seq![info.colors[0]] } else { Seq::empty() };
    let s1: Seq<Rgb> = if info.enabled[1] { seq![info.colors[1]] } else { Seq::empty() };
    let s2: Seq<Rgb> = if info.enabled[2] { seq![info.colors[2]] } else { Seq::empty() };
    let s3: Seq<Rgb> = if info.enabled[3] { seq![info.colors[3]] } else { Seq::empty() };
    s0 + s1 + s2 + s3
}

/// An 8-bit channel from a fixed-point one: multiply by `255.9`, truncate.
pub open spec fn spec_quantize(c: int) -> int {
    (c * 2559) / 1_000_000
}

/// Quantize a fixed-point channel in `[0, FP_ONE]` to 8 bits.
pub fn quantize(c: i64) -> (r: u8)
    requires
        0 <= c <= FP_ONE,
    ensures
        r as int == spec_quantize(c as int),
{
    proof {
        vstd::arithmetic::div_mod::lemma_div_pos_is_pos(c * 2559, 1_000_000);
        vstd::arithmetic::div_mod::lemma_div_is_ordered(c * 2559, 255_900_000, 1_000_000);
    }
    ((c * 2559) / 1_000_000) as u8
}

/// Hue, saturation, value of a color, all fixed-point: hue counts degrees in
/// `[0, 360]` units, saturation and value lie in `[0, FP_ONE]`. Ties between
/// equal channels resolve in the order red, green, blue.
pub open spec fn spec_rgb_to_hsv(r: int, g: int, b: int) -> (int, int, int) {
    let mx = if r >= g && r >= b { r } else if g >= b { g } else { b };
    let mn = if r <= g && r <= b { r } else if g <= b { g } else { b };
    let delta = mx - mn;
    let s = if mx == 0 { 0 } else { (delta * FP_ONE) / mx };
    let h = if delta == 0 {
        0
    } else if r >= g && r >= b {
        if g >= b {
            (60 * (g - b) * FP_ONE) / delta
        } else {
            360 * FP_ONE - (60 * (b - g) * FP_ONE) / delta
        }
    } else if g >= b {
        if b >= r {
            120 * FP_ONE + (60 * (b - r) * FP_ONE) / delta
        } else {
            120 * FP_ONE - (60 * (r - b) * FP_ONE) / delta
        }
    } else {
        if r >= g {
            240 * FP_ONE + (60 * (r - g) * FP_ONE) / delta
        } else {
            240 * FP_ONE - (60 * (g - r) * FP_ONE) / delta
        }
    };
    (h, s, mx)
}

/// Convert a color to hue, saturation and value.
pub fn rgb_to_hsv(c: Rgb) -> (hsv: (i64, i64, i64))
    requires
        rgb_wf(c),
    ensures
        (hsv.0 as int, hsv.1 as int, hsv.2 as int) == spec_rgb_to_hsv(
            c.r as int,
            c.g as int,
            c.b as int,
        ),
        0 <= hsv.0 <= 360 * FP_ONE,
        0 <= hsv.1 <= FP_ONE,
        0 <= hsv.2 <= FP_ONE,
{
    let r = c.r;
    let g = c.g;
    let b = c.b;
    let mx = if r >= g && r >= b { r } else if g >= b { g } else { b };
    let mn = if r <= g && r <= b { r } else if g <= b { g } else { b };
    let delta = mx - mn;
    let s: i64 = if mx == 0 { 0 } else {
        proof {
            lemma_scaled_ratio_bounds(delta as int, mx as int, FP_ONE as int);
        }
        (delta * FP_ONE) / mx
    };
    let h: i64 = if delta == 0 {
        0
    } else if r >= g && r >= b {
        if g >= b {
            proof {
                lemma_scaled_ratio_bounds((g - b) as int, delta as int, 60 * FP_ONE as int);
            }
            (60 * (g - b) * FP_ONE) / delta
        } else {
            proof {
                lemma_scaled_ratio_bounds((b - g) as int, delta as int, 60 * FP_ONE as int);
            }
            360 * FP_ONE - (60 * (b - g) * FP_ONE) / delta
        }
    } else if g >= b {
        if b >= r {
            proof {
                lemma_scaled_ratio_bounds((b - r) as int, delta as int, 60 * FP_ONE as int);
            }
            120 * FP_ONE + (60 * (b - r) * FP_ONE) / delta
        } else {
            proof {
                lemma_scaled_ratio_bounds((r - b) as int, delta as int, 60 * FP_ONE as int);
            }
            120 * FP_ONE - (60 * (r - b) * FP_ONE) / delta
        }
    } else {
        if r >= g {
            proof {
                lemma_scaled_ratio_bounds((r - g) as int, delta as int, 60 * FP_ONE as int);
            }
            240 * FP_ONE + (60 * (r - g) * FP_ONE) / delta
        } else {
            proof {
                lemma_scaled_ratio_bounds((g - r) as int, delta as int, 60 * FP_ONE as int);
            }
            240 * FP_ONE - (60 * (g - r) * FP_ONE) / delta
        }
    };
    (h, s, mx)
}

/// For `0 <= num <= den` and `0 < den`, `0 <= (k * num) / den <= k`.
pub proof fn lemma_scaled_ratio_bounds(num: int, den: int, k: int)
    requires
        0 <= num <= den,
        0 < den,
        0 <= k,
    ensures
        0 <= (k * num) / den <= k,
{
    vstd::arithmetic::div_mod::lemma_div_pos_is_pos(k * num, den);
    assert(k * num <= k * den) by (nonlinear_arith)
        requires num <= den && 0 <= k;
    vstd::arithmetic::div_mod::lemma_div_is_ordered(k * num, k * den, den);
    vstd::arithmetic::div_mod::lemma_div_multiples_vanish(k, den);
}

/// A hue brought back into `[0, 360)` whole units by one step of 360
/// degrees in either direction.
pub open spec fn spec_norm_hue(h: int) -> int {
    if h < 0 {
        h + 360 * FP_ONE
    } else if h >= 360 * FP_ONE {
        h - 360 * FP_ONE
    } else {
        h
    }
}

/// The color with the given hue, saturation and value, channels in
/// `[0, FP_ONE]`, by the standard six-sector hexagonal reconstruction.
pub open spec fn spec_hsv_to_rgb(h: int, s: int, v: int) -> (int, int, int) {
    let one = FP_ONE as int;
    let hn = spec_norm_hue(h);
    let sector = hn / (60 * one);
    let frac = (hn - sector * 60 * one) / 60;
    let p = (v * (one - s)) / one;
    let q = (v * (one - (s * frac) / one)) / one;
    let t = (v * (one - (s * (one - frac)) / one)) / one;
    if sector == 0 {
        (v, t, p)
    } else if sector == 1 {
        (q, v, p)
    } else if sector == 2 {
        (p, v, t)
    } else if sector == 3 {
        (p, q, v)
    } else if sector == 4 {
        (t, p, v)
    } else {
        (v, p, q)
    }
}

/// Convert hue, saturation and value back to a color.
pub fn hsv_to_rgb(h: i64, s: i64, v: i64) -> (c: (i64, i64, i64))
    requires
        -360 * FP_ONE <= h < 720 * FP_ONE,
        0 <= s <= FP_ONE,
        0 <= v <= FP_ONE,
    ensures
        (c.0 as int, c.1 as int, c.2 as int) == spec_hsv_to_rgb(h as int, s as int, v as int),
        0 <= c.0 <= FP_ONE,
        0 <= c.1 <= FP_ONE,
        0 <= c.2 <= FP_ONE,
{
    let hn: i64 = if h < 0 {
        h + 360 * FP_ONE
    } else if h >= 360 * FP_ONE {
        h - 360 * FP_ONE
    } else {
        h
    };
    let sector: i64 = hn / (60 * FP_ONE);
    assert(0 <= sector <= 5) by {
        vstd::arithmetic::div_mod::lemma_div_pos_is_pos(hn as int, 60 * FP_ONE as int);
        vstd::arithmetic::div_mod::lemma_div_is_ordered(hn as int, 360 * FP_ONE - 1, 60 * FP_ONE as int);
        assert((360 * FP_ONE - 1) / (60 * FP_ONE as int) == 5);
    };
    assert(sector * 60 * FP_ONE <= hn < sector * 60 * FP_ONE + 60 * FP_ONE) by {
        vstd::arithmetic::div_mod::lemma_fundamental_div_mod(hn as int, 60 * FP_ONE as int);
        vstd::arithmetic::div_mod::lemma_mod_division_less_than_divisor(hn as int, 60 * FP_ONE as int);
        assert(sector * 60 * FP_ONE == (60 * FP_ONE as int) * sector) by (nonlinear_arith);
    };
    let frac: i64 = (hn - sector * 60 * FP_ONE) / 60;
    assert(0 <= frac < FP_ONE) by {
        vstd::arithmetic::div_mod::lemma_div_pos_is_pos(hn - sector * 60 * (FP_ONE as int), 60);
        vstd::arithmetic::div_mod::lemma_div_is_ordered(
            hn - sector * 60 * (FP_ONE as int),
            60 * FP_ONE - 1,
            60,
        );
        vstd::arithmetic::div_mod::lemma_fundamental_div_mod_converse(
            60 * FP_ONE - 1,
            60,
            FP_ONE - 1,
            59,
        );
    };
    proof {
        lemma_scaled_ratio_bounds(FP_ONE - s, FP_ONE as int, v as int);
        lemma_scaled_ratio_bounds(frac as int, FP_ONE as int, s as int);
        lemma_scaled_ratio_bounds(FP_ONE - frac, FP_ONE as int, s as int);
    }
    let p: i64 = (v * (FP_ONE - s)) / FP_ONE;
    let sf: i64 = (s * frac) / FP_ONE;
    let sg: i64 = (s * (FP_ONE - frac)) / FP_ONE;
    proof {
        lemma_scaled_ratio_bounds(FP_ONE - sf, FP_ONE as int, v as int);
        lemma_scaled_ratio_bounds(FP_ONE - sg, FP_ONE as int, v as int);
    }
    let q: i64 = (v * (FP_ONE - sf)) / FP_ONE;
    let t: i64 = (v * (FP_ONE - sg)) / FP_ONE;
    if sector == 0 {
        (v, t, p)
    } else if sector == 1 {
        (q, v, p)
    } else if sector == 2 {
        (p, v, t)
    } else if sector == 3 {
        (p, q, v)
    } else if sector == 4 {
        (t, p, v)
    } else {
        (v, p, q)
    }
}

/// The signed hue perturbation, in fixed-point degrees, for a fraction `f`
/// drawn from `[0, 1)`: `(f - 1/2) * h_rnd * 360`, its magnitude truncated.
pub open spec fn spec_hue_jitter(f: int, h_rnd: int) -> int {
    let one = FP_ONE as int;
    let half = one / 2;
    if f >= half {
        ((f - half) * h_rnd * 360) / one
    } else {
        -(((half - f) * h_rnd * 360) / one)
    }
}

/// For `0 <= d <= FP_ONE / 2` and `0 <= rnd <= FP_ONE`, the scaled product
/// `(d * rnd * 360) / FP_ONE` lies in `[0, 180 * FP_ONE]`.
proof fn lemma_jitter_bound(d: int, rnd: int)
    requires
        0 <= d <= (FP_ONE as int) / 2,
        0 <= rnd <= FP_ONE,
    ensures
        0 <= (d * rnd * 360) / (FP_ONE as int) <= 180 * FP_ONE,
{
    let one = FP_ONE as int;
    vstd::arithmetic::div_mod::lemma_div_pos_is_pos(d * rnd * 360, one);
    assert(d * rnd * 360 <= (180 * one) * one) by (nonlinear_arith)
        requires 0 <= d <= one / 2 && 0 <= rnd <= one && one == 100_000;
    vstd::arithmetic::div_mod::lemma_div_is_ordered(d * rnd * 360, (180 * one) * one, one);
    vstd::arithmetic::div_mod::lemma_div_multiples_vanish(180 * one, one);
}

/// The hue perturbation for a drawn fraction.
pub fn hue_jitter(f: i64, h_rnd: i64) -> (r: i64)
    requires
        0 <= f < FP_ONE,
        0 <= h_rnd <= FP_ONE,
    ensures
        r == spec_hue_jitter(f as int, h_rnd as int),
        -180 * FP_ONE <= r <= 180 * FP_ONE,
{
    let half = FP_ONE / 2;
    if f >= half {
        proof {
            lemma_jitter_bound((f - half) as int, h_rnd as int);
        }
        ((f - half) * h_rnd * 360) / FP_ONE
    } else {
        proof {
            lemma_jitter_bound((half - f) as int, h_rnd as int);
        }
        -(((half - f) * h_rnd * 360) / FP_ONE)
    }
}

/// A saturation or value channel after jitter: `x + f * rnd - rnd / 2`,
/// clamped to the unit range.
pub open spec fn spec_sv_jitter(x: int, f: int, rnd: int) -> int {
    let one = FP_ONE as int;
    let y = x + (f * rnd) / one - rnd / 2;
    if y < 0 {
        0
    } else if y > one {
        one
    } else {
        y
    }
}

/// Jitter a saturation or value channel by a drawn fraction.
pub fn sv_jitter(x: i64, f: i64, rnd: i64) -> (r: i64)
    requires
        0 <= x <= FP_ONE,
        0 <= f < FP_ONE,
        0 <= rnd <= FP_ONE,
    ensures
        r == spec_sv_jitter(x as int, f as int, rnd as int),
        0 <= r <= FP_ONE,
{
    proof {
        lemma_scaled_ratio_bounds(f as int, FP_ONE as int, rnd as int);
    }
    let y = x + (f * rnd) / FP_ONE - rnd / 2;
    if y < 0 {
        0
    } else if y > FP_ONE {
        FP_ONE
    } else {
        y
    }
}

/// A hue wrapped back by one whole turn when it exceeds 360 degrees. A hue
/// below zero is deliberately left alone: only the overflow side is
/// corrected, and the conversion back to a color normalizes the rest.
pub open spec fn spec_wrap_hue(h: int) -> int {
    if h > 360 * (FP_ONE as int) {
        h - 360 * (FP_ONE as int)
    } else {
        h
    }
}

/// Three fixed-point channels quantized to 8 bits each.
pub open spec fn spec_quantize_rgb(r: int, g: int, b: int) -> (u8, u8, u8) {
    (spec_quantize(r) as u8, spec_quantize(g) as u8, spec_quantize(b) as u8)
}

/// The color a palette yields at abstract generator state `st`, and the
/// state after the pick: `.0` is the 8-bit color, `.1` the state.
///
/// With no enabled slot the pick is opaque black and consumes nothing.
/// Otherwise one draw selects among the enabled slots, in slot order; with
/// all jitter magnitudes at zero the slot's color is quantized directly,
/// and otherwise the color passes through hue/saturation/value space with
/// one further draw per positive jitter magnitude, in that order. A slot
/// draw outside its own range (which the source never yields) would fall
/// back to the first enabled slot.
pub open spec fn spec_pick_color(info: ColorInfo, st: int) -> ((u8, u8, u8), int) {
    let en = enabled_seq(info);
    if en.len() == 0 {
        ((0u8, 0u8, 0u8), st)
    } else {
        let d = range_draw(st, 0u64, en.len() as u64);
        let base = en[if d.0 < en.len() { d.0 as int } else { 0 }];
        let st1 = d.1;
        if info.h_rnd <= 0 && info.s_rnd <= 0 && info.v_rnd <= 0 {
            (spec_quantize_rgb(base.r as int, base.g as int, base.b as int), st1)
        } else {
            let hsv = spec_rgb_to_hsv(base.r as int, base.g as int, base.b as int);
            let hd: (int, int) = if info.h_rnd > 0 {
                let f = float_draw(st1);
                (spec_wrap_hue(hsv.0 + spec_hue_jitter(f.0, info.h_rnd as int)), f.1)
            } else {
                (hsv.0, st1)
            };
            let sd: (int, int) = if info.s_rnd > 0 {
                let f = float_draw(hd.1);
                (spec_sv_jitter(hsv.1, f.0, info.s_rnd as int), f.1)
            } else {
                (hsv.1, hd.1)
            };
            let vd: (int, int) = if info.v_rnd > 0 {
                let f = float_draw(sd.1);
                (spec_sv_jitter(hsv.2, f.0, info.v_rnd as int), f.1)
            } else {
                (hsv.2, sd.1)
            };
            let rgb = spec_hsv_to_rgb(hd.0, sd.0, vd.0);
            (spec_quantize_rgb(rgb.0, rgb.1, rgb.2), vd.1)
        }
    }
}

impl ColorInfo {
    /// Pick a color from the palette, consuming draws from `rng` exactly as
    /// `spec_pick_color` describes.
    pub fn pick_color(&self, rng: &mut MyRandom) -> (c: (u8, u8, u8))
        requires
            self.wf(),
        ensures
            c == spec_pick_color(*self, old(rng).model()).0,
            final(rng).model() == spec_pick_color(*self, old(rng).model()).1,
    {
        let mut enabled_colors: Vec<Rgb> = Vec::with_capacity(4);
        if self.enabled[0] {
            enabled_colors.push(self.colors[0]);
        }
        if self.enabled[1] {
            enabled_colors.push(self.colors[1]);
        }
        if self.enabled[2] {
            enabled_colors.push(self.colors[2]);
        }
        if self.enabled[3] {
            enabled_colors.push(self.colors[3]);
        }
        proof {
            assert(enabled_colors@ =~= enabled_seq(*self));
        }
        if enabled_colors.len() == 0 {
            return (0u8, 0u8, 0u8);
        }
        let idx = rng.from_range(0, enabled_colors.len() as u64);
        let base = enabled_colors[idx as usize];
        if self.h_rnd <= 0 && self.s_rnd <= 0 && self.v_rnd <= 0 {
            return (quantize(base.r), quantize(base.g), quantize(base.b));
        }
        let hsv = rgb_to_hsv(base);
        let mut h = hsv.0;
        let mut s = hsv.1;
        let mut v = hsv.2;
        if self.h_rnd > 0 {
            let f = rng.get_float();
            h = h + hue_jitter(f, self.h_rnd);
            if h > 360 * FP_ONE {
                h = h - 360 * FP_ONE;
            }
        }
        if self.s_rnd > 0 {
            let f = rng.get_float();
            s = sv_jitter(s, f, self.s_rnd);
        }
        if self.v_rnd > 0 {
            let f = rng.get_float();
            v = sv_jitter(v, f, self.v_rnd);
        }
        let rgb = hsv_to_rgb(h, s, v);
        (quantize(rgb.0), quantize(rgb.1), quantize(rgb.2))
    }
}

} // verus!
