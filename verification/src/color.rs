//! RGB colors with componentwise fixed-point arithmetic.

use vstd::prelude::*;
use crate::fixed::SCALE;
use crate::fixed::approx_s;
use crate::fixed::fx_mul_s;

verus! {

/// Channel bound accepted by the color operations.
pub const COL_LIM: i128 = 1_000_000_000_000_000_000_000_000_000;

/// Bound on the scaling factor and on the second operand of the
/// channelwise product: the real value 100.
pub const COL_FACTOR_LIM: i128 = 100_000_000_000;

/// The mathematical value of a color: three unbounded fixed-point
/// channels.
pub ghost struct Rgb {
    pub r: int,
    pub g: int,
    pub b: int,
}

/// An RGB color; channel 1.0 is full intensity, but values may exceed
/// it before the raster sink clamps them.
#[derive(Debug, Clone, Copy)]
pub struct Color {
    pub r: i128,
    pub g: i128,
    pub b: i128,
}

impl View for Color {
    type V = Rgb;

    open spec fn view(&self) -> Rgb {
        Rgb { r: self.r as int, g: self.g as int, b: self.b as int }
    }
}

/// All three channels lie within `m` units of zero.
pub open spec fn col_within(c: Rgb, m: int) -> bool {
    &&& -m <= c.r <= m
    &&& -m <= c.g <= m
    &&& -m <= c.b <= m
}

/// Componentwise sum; exact.
pub open spec fn col_plus(a: Rgb, b: Rgb) -> Rgb {
    Rgb { r: a.r + b.r, g: a.g + b.g, b: a.b + b.b }
}

/// Componentwise difference; exact.
pub open spec fn col_minus(a: Rgb, b: Rgb) -> Rgb {
    Rgb { r: a.r - b.r, g: a.g - b.g, b: a.b - b.b }
}

/// Each channel scaled by a fixed-point factor.
pub open spec fn col_scale(c: Rgb, f: int) -> Rgb {
    Rgb { r: fx_mul_s(c.r, f), g: fx_mul_s(c.g, f), b: fx_mul_s(c.b, f) }
}

/// The componentwise (Hadamard) product of two colors.
pub open spec fn col_hadamard(a: Rgb, b: Rgb) -> Rgb {
    Rgb {
        r: fx_mul_s(a.r, b.r),
        g: fx_mul_s(a.g, b.g),
        b: fx_mul_s(a.b, b.b),
    }
}

/// Componentwise approximate equality within `EPSILON`.
pub open spec fn col_approx(a: Rgb, b: Rgb) -> bool {
    &&& approx_s(a.r, b.r)
    &&& approx_s(a.g, b.g)
    &&& approx_s(a.b, b.b)
}

/// A channel clamped to lie within `k` units of zero.
pub open spec fn clamp_ch(v: int, k: int) -> int {
    if v > k {
        k
    } else if v < -k {
        -k
    } else {
        v
    }
}

/// The color with each channel clamped to within `k` units of zero.
pub open spec fn col_clamp(c: Rgb, k: int) -> Rgb {
    Rgb { r: clamp_ch(c.r, k), g: clamp_ch(c.g, k), b: clamp_ch(c.b, k) }
}

/// The all-zero color.
pub open spec fn black_s() -> Rgb {
    Rgb { r: 0, g: 0, b: 0 }
}

impl Color {
    /// A color from its three channels.
    pub fn new(r: i128, g: i128, b: i128) -> (c: Color)
        ensures
            c@ == (Rgb { r: r as int, g: g as int, b: b as int }),
    {
        Color { r, g, b }
    }

    /// Black: every channel zero.
    pub fn black() -> (c: Color)
        ensures
            c@ == black_s(),
    {
        Color { r: 0, g: 0, b: 0 }
    }

    /// White: every channel one.
    pub fn white() -> (c: Color)
        ensures
            c@ == (Rgb { r: SCALE as int, g: SCALE as int, b: SCALE as int }),
    {
        Color { r: SCALE, g: SCALE, b: SCALE }
    }

    /// The componentwise sum.
    pub fn plus(&self, other: &Color) -> (c: Color)
        requires
            col_within(self@, COL_LIM as int),
            col_within(other@, COL_LIM as int),
        ensures
            c@ == col_plus(self@, other@),
    {
        Color { r: self.r + other.r, g: self.g + other.g, b: self.b + other.b }
    }

    /// The componentwise difference.
    pub fn minus(&self, other: &Color) -> (c: Color)
        requires
            col_within(self@, COL_LIM as int),
            col_within(other@, COL_LIM as int),
        ensures
            c@ == col_minus(self@, other@),
    {
        Color { r: self.r - other.r, g: self.g - other.g, b: self.b - other.b }
    }

    /// Each channel scaled by a fixed-point factor.
    pub fn times(&self, factor: i128) -> (c: Color)
        requires
            col_within(self@, COL_LIM as int),
            -COL_FACTOR_LIM <= factor <= COL_FACTOR_LIM,
        ensures
            c@ == col_scale(self@, factor as int),
    {
        Color {
            r: crate::fixed::fx_mul_wide(self.r, factor),
            g: crate::fixed::fx_mul_wide(self.g, factor),
            b: crate::fixed::fx_mul_wide(self.b, factor),
        }
    }

    /// The componentwise product with another color.
    pub fn times_col(&self, other: &Color) -> (c: Color)
        requires
            col_within(self@, COL_LIM as int),
            col_within(other@, COL_FACTOR_LIM as int),
        ensures
            c@ == col_hadamard(self@, other@),
    {
        Color {
            r: crate::fixed::fx_mul_wide(self.r, other.r),
            g: crate::fixed::fx_mul_wide(self.g, other.g),
            b: crate::fixed::fx_mul_wide(self.b, other.b),
        }
    }

    /// Each channel clamped to within `k` units of zero.
    pub fn clamp_channels(&self, k: i128) -> (c: Color)
        requires
            0 <= k,
        ensures
            c@ == col_clamp(self@, k as int),
            col_within(c@, k as int),
    {
        Color {
            r: clamp_one(self.r, k),
            g: clamp_one(self.g, k),
            b: clamp_one(self.b, k),
        }
    }

    /// Componentwise approximate equality within `EPSILON`.
    pub fn approx_eq(&self, other: &Color) -> (r: bool)
        requires
            col_within(self@, COL_LIM as int),
            col_within(other@, COL_LIM as int),
        ensures
            r == col_approx(self@, other@),
    {
        crate::fixed::approx_eq(self.r, other.r)
            && crate::fixed::approx_eq(self.g, other.g)
            && crate::fixed::approx_eq(self.b, other.b)
    }
}

/// Bounds on the color and the factor bound the scaled color.
pub proof fn lemma_col_scale_bound(c: Rgb, f: int, kc: int, kf: int)
    requires
        col_within(c, kc),
        -kf <= f <= kf,
        0 <= kc,
        0 <= kf,
    ensures
        col_within(col_scale(c, f), (kc * kf) / (SCALE as int) + 1),
{
    crate::fixed::lemma_fx_mul_s_bound(c.r, f, kc, kf);
    crate::fixed::lemma_fx_mul_s_bound(c.g, f, kc, kf);
    crate::fixed::lemma_fx_mul_s_bound(c.b, f, kc, kf);
}

/// Bounds on the two colors bound the channelwise product.
pub proof fn lemma_col_hadamard_bound(a: Rgb, b: Rgb, ka: int, kb: int)
    requires
        col_within(a, ka),
        col_within(b, kb),
        0 <= ka,
        0 <= kb,
    ensures
        col_within(col_hadamard(a, b), (ka * kb) / (SCALE as int) + 1),
{
    crate::fixed::lemma_fx_mul_s_bound(a.r, b.r, ka, kb);
    crate::fixed::lemma_fx_mul_s_bound(a.g, b.g, ka, kb);
    crate::fixed::lemma_fx_mul_s_bound(a.b, b.b, ka, kb);
}

/// One channel clamped to within `k` units of zero.
fn clamp_one(v: i128, k: i128) -> (r: i128)
    requires
        0 <= k,
    ensures
        r == clamp_ch(v as int, k as int),
{
    if v > k {
        k
    } else if v < -k {
        -k
    } else {
        v
    }
}

} // verus!
