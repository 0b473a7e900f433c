//! The fire palette: black, then red, then orange, then yellow as the
//! noise value rises.
//!
//! Conversion to a byte drops the fractional part and saturates: what lies
//! below zero becomes 0, what lies above 255 becomes 255.

use vstd::prelude::*;
use crate::sampler::{Fraction, Noise};

verus! {

/// One pixel: red, green and blue.
#[derive(Clone, Copy, Debug, PartialEq, Eq, Structural)]
pub struct Rgb {
    pub r: u8,
    pub g: u8,
    pub b: u8,
}

/// The red channel of a noise value: `255 * noise` converted to a byte.
pub open spec fn red_of(noise: Fraction) -> int {
    let scaled = 255 * noise.num / noise.den;
    if noise.num <= 0 {
        0
    } else if scaled >= 255 {
        255
    } else {
        scaled
    }
}

/// The green channel for red channel `r`: nothing up to 64, above that
/// `(r - 64) * 1.5` converted to a byte.
pub open spec fn green_of(r: int) -> int {
    let scaled = (r - 64) * 3 / 2;
    if r <= 64 {
        0
    } else if scaled >= 255 {
        255
    } else {
        scaled
    }
}

/// The blue channel for red channel `r`: nothing up to 128, above that
/// `(r - 128) * 2` in wrapping byte arithmetic.
pub open spec fn blue_of(r: int) -> int {
    if r <= 128 {
        0
    } else {
        ((r - 128) * 2) % 256
    }
}

/// The colour whose red channel is `r`.
pub open spec fn flame_of(r: u8) -> Rgb {
    Rgb { r, g: green_of(r as int) as u8, b: blue_of(r as int) as u8 }
}

/// The colour of a noise value.
pub open spec fn color_of(noise: Fraction) -> Rgb {
    flame_of(red_of(noise) as u8)
}

/// The channels are bytes, green is absent exactly up to red 64, and blue
/// exactly up to red 128.  Blue never wraps: it is `2 * (r - 128)`.
pub proof fn lemma_flame_thresholds(r: u8)
    ensures
        0 <= green_of(r as int) <= 255,
        0 <= blue_of(r as int) <= 255,
        flame_of(r).r == r,
        flame_of(r).g == 0 <==> r <= 64,
        flame_of(r).b == 0 <==> r <= 128,
        r > 128 ==> flame_of(r).b == 2 * (r - 128),
{
}

/// The red channel is a byte; it is zero for every noise value below
/// `1 / 255` and 255 for every noise value from one upwards.
pub proof fn lemma_red_range(noise: Fraction)
    requires
        noise.den > 0,
    ensures
        0 <= red_of(noise) <= 255,
        255 * noise.num < noise.den ==> red_of(noise) == 0,
        noise.num >= noise.den ==> red_of(noise) == 255,
{
    let n = noise.num;
    let d = noise.den;
    if n > 0 {
        vstd::arithmetic::div_mod::lemma_div_pos_is_pos(255 * n, d);
        if 255 * n < d {
            vstd::arithmetic::div_mod::lemma_basic_div(255 * n, d);
        }
        if n >= d {
            vstd::arithmetic::div_mod::lemma_div_is_ordered(255 * d, 255 * n, d);
            vstd::arithmetic::div_mod::lemma_div_by_multiple(255, d);
        }
    }
}

/// Computes [`red_of`].
pub fn red(noise: Noise) -> (r: u8)
    ensures
        r == red_of(noise@),
{
    let num: i128 = noise.num();
    let den: i128 = noise.den();
    proof {
        lemma_red_range(noise@);
    }
    if num <= 0 {
        0
    } else if num >= den {
        255
    } else {
        let scaled: i128 = (255 * num) / den;
        proof {
            vstd::arithmetic::div_mod::lemma_div_is_ordered(255 * num, 255 * den, den as int);
            vstd::arithmetic::div_mod::lemma_div_by_multiple(255, den as int);
            vstd::arithmetic::div_mod::lemma_div_pos_is_pos(255 * num, den as int);
        }
        scaled as u8
    }
}

/// Computes [`flame_of`].
pub fn flame(r: u8) -> (c: Rgb)
    ensures
        c == flame_of(r),
        c.r == r,
        c.g == 0 <==> r <= 64,
        c.b == 0 <==> r <= 128,
{
    let g: u8 = if r <= 64 {
        0
    } else {
        let scaled: u16 = (r - 64) as u16 * 3 / 2;
        if scaled >= 255 {
            255
        } else {
            scaled as u8
        }
    };
    let b: u8 = if r <= 128 {
        0
    } else {
        (r - 128) * 2
    };
    Rgb { r, g, b }
}

/// The colour of a noise value: red is `255 * noise` as a byte, green and
/// blue follow from red.
pub fn colorize(noise: Noise) -> (c: Rgb)
    ensures
        c == color_of(noise@),
        c.g == 0 <==> c.r <= 64,
        c.b == 0 <==> c.r <= 128,
{
    flame(red(noise))
}

} // verus!
