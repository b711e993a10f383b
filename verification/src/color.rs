//! Packed 24-bit colours and the arithmetic the shaders perform on them.

use vstd::prelude::*;
use crate::fixed::{clamped, div_floor, floor_div, lemma_product_bound};

verus! {

/// A colour of one byte each for red, green and blue.
#[derive(Clone, Copy, Debug, PartialEq, Eq, Structural)]
pub struct Color {
    pub r: u8,
    pub g: u8,
    pub b: u8,
}

/// The byte that stands for the fixed-point level `v`: zero and below give 0,
/// one and above give 255, and the levels between are scaled and rounded down.
pub open spec fn level_byte(v: int) -> int {
    clamped(v, 0, 65536) * 255 / 65536
}

/// The fixed-point level that stands for the byte `c`, rounded down.
pub open spec fn byte_level(c: int) -> int {
    c * 65536 / 255
}

/// The byte a share `t` of the way from `a` to `b`, rounded to the nearest
/// byte; `t` is held between zero and one first.
pub open spec fn mixed(a: int, b: int, t: int) -> int {
    let s = clamped(t, 0, 65536);
    (a * (65536 - s) + b * s + 32768) / 65536
}

/// The byte `c` multiplied by the fixed-point `factor`, rounded down and held
/// between 0 and 255.
pub open spec fn scaled(c: int, factor: int) -> int {
    clamped(floor_div(c * factor, 65536), 0, 255)
}

/// The sum of two bytes, held at 255.
pub open spec fn summed(a: int, b: int) -> int {
    if a + b > 255 {
        255
    } else {
        a + b
    }
}

/// The byte `a * factor + b * (1 - factor)`, rounded down and held between 0
/// and 255.
pub open spec fn blended(a: int, b: int, factor: int) -> int {
    clamped(floor_div(a * factor + b * (65536 - factor), 65536), 0, 255)
}

fn level_to_byte(v: i32) -> (c: u8)
    ensures
        c == level_byte(v as int),
{
    let s: i64 = if v < 0 { 0 } else if v > 65536 { 65536 } else { v as i64 };
    (s * 255 / 65536) as u8
}

fn mix(a: u8, b: u8, t: i32) -> (c: u8)
    ensures
        c == mixed(a as int, b as int, t as int),
{
    let s: i64 = if t < 0 { 0 } else if t > 65536 { 65536 } else { t as i64 };
    proof {
        lemma_product_bound(a as int, 65536 - s, 255, 65536);
        lemma_product_bound(b as int, s as int, 255, 65536);
    }
    let left: i64 = (a as i64) * (65536 - s);
    let right: i64 = (b as i64) * s;
    assert(0 <= left + right <= 255 * 65536) by (nonlinear_arith)
        requires
            0 <= a <= 255,
            0 <= b <= 255,
            0 <= s <= 65536,
            left == a * (65536 - s),
            right == b * s,
    ;
    ((left + right + 32768) / 65536) as u8
}

fn scale_byte(c: u8, factor: i32) -> (r: u8)
    ensures
        r == scaled(c as int, factor as int),
{
    proof {
        lemma_product_bound(c as int, factor as int, 255, 0x8000_0000);
    }
    let product: i128 = (c as i128) * (factor as i128);
    let q: i128 = div_floor(product, 65536);
    if q < 0 {
        0
    } else if q > 255 {
        255
    } else {
        q as u8
    }
}

fn sum_bytes(a: u8, b: u8) -> (r: u8)
    ensures
        r == summed(a as int, b as int),
{
    let s: u16 = a as u16 + b as u16;
    if s > 255 {
        255
    } else {
        s as u8
    }
}

fn blend_bytes(a: u8, b: u8, factor: i32) -> (r: u8)
    ensures
        r == blended(a as int, b as int, factor as int),
{
    let rest: i128 = 65536 - factor as i128;
    proof {
        lemma_product_bound(a as int, factor as int, 255, 0x8000_0000);
        lemma_product_bound(b as int, rest as int, 255, 0x8001_0000);
    }
    let total: i128 = (a as i128) * (factor as i128) + (b as i128) * rest;
    let q: i128 = div_floor(total, 65536);
    if q < 0 {
        0
    } else if q > 255 {
        255
    } else {
        q as u8
    }
}

impl Color {
    /// The number `0xRRGGBB` that packs this colour.
    pub open spec fn packed(self) -> int {
        self.r * 65536 + self.g * 256 + self.b
    }

    /// The colour that the low 24 bits of `hex` pack.
    pub open spec fn unpacked(hex: int) -> Color {
        Color {
            r: ((hex / 65536) % 256) as u8,
            g: ((hex / 256) % 256) as u8,
            b: (hex % 256) as u8,
        }
    }

    /// This colour with each channel a share `t` of the way to `other`.
    pub open spec fn lerped(self, other: Color, t: int) -> Color {
        Color {
            r: mixed(self.r as int, other.r as int, t) as u8,
            g: mixed(self.g as int, other.g as int, t) as u8,
            b: mixed(self.b as int, other.b as int, t) as u8,
        }
    }

    /// This colour with each channel multiplied by `factor`.
    pub open spec fn dimmed(self, factor: int) -> Color {
        Color {
            r: scaled(self.r as int, factor) as u8,
            g: scaled(self.g as int, factor) as u8,
            b: scaled(self.b as int, factor) as u8,
        }
    }

    /// The channel-wise sum of two colours, each channel held at 255.
    pub open spec fn added(self, other: Color) -> Color {
        Color {
            r: summed(self.r as int, other.r as int) as u8,
            g: summed(self.g as int, other.g as int) as u8,
            b: summed(self.b as int, other.b as int) as u8,
        }
    }

    /// The colour of the three fixed-point levels.
    pub open spec fn of_levels(r: int, g: int, b: int) -> Color {
        Color { r: level_byte(r) as u8, g: level_byte(g) as u8, b: level_byte(b) as u8 }
    }

    pub fn new(r: u8, g: u8, b: u8) -> (c: Color)
        ensures
            c == (Color { r, g, b }),
    {
        Color { r, g, b }
    }

    /// Unpacks `0xRRGGBB`; bits above the low 24 are ignored.
    pub fn from_hex(hex: u32) -> (c: Color)
        ensures
            c == Color::unpacked(hex as int),
    {
        Color {
            r: ((hex / 65536) % 256) as u8,
            g: ((hex / 256) % 256) as u8,
            b: (hex % 256) as u8,
        }
    }

    /// Packs the colour as `0xRRGGBB`.
    pub fn to_hex(&self) -> (hex: u32)
        ensures
            hex == self.packed(),
            hex < 0x100_0000,
    {
        (self.r as u32) * 65536 + (self.g as u32) * 256 + (self.b as u32)
    }

    /// The colour of three fixed-point levels, each nominally between zero
    /// and one.
    pub fn from_normalized(r: i32, g: i32, b: i32) -> (c: Color)
        ensures
            c == Color::of_levels(r as int, g as int, b as int),
    {
        Color { r: level_to_byte(r), g: level_to_byte(g), b: level_to_byte(b) }
    }

    /// The three channels as fixed-point levels between zero and one.
    pub fn to_normalized(&self) -> (levels: (i32, i32, i32))
        ensures
            levels.0 == byte_level(self.r as int),
            levels.1 == byte_level(self.g as int),
            levels.2 == byte_level(self.b as int),
    {
        (
            ((self.r as i64) * 65536 / 255) as i32,
            ((self.g as i64) * 65536 / 255) as i32,
            ((self.b as i64) * 65536 / 255) as i32,
        )
    }

    /// Linear interpolation toward `other`; `t` outside zero to one is held
    /// at the nearer end.
    pub fn lerp(&self, other: &Color, t: i32) -> (c: Color)
        ensures
            c == self.lerped(*other, t as int),
    {
        Color {
            r: mix(self.r, other.r, t),
            g: mix(self.g, other.g, t),
            b: mix(self.b, other.b, t),
        }
    }

    /// Multiplies every channel by `factor`, holding the result between 0
    /// and 255.
    pub fn scale(&self, factor: i32) -> (c: Color)
        ensures
            c == self.dimmed(factor as int),
    {
        Color {
            r: scale_byte(self.r, factor),
            g: scale_byte(self.g, factor),
            b: scale_byte(self.b, factor),
        }
    }

    /// Adds channel by channel, holding each sum at 255.
    pub fn saturating_add(&self, other: &Color) -> (c: Color)
        ensures
            c == self.added(*other),
    {
        Color {
            r: sum_bytes(self.r, other.r),
            g: sum_bytes(self.g, other.g),
            b: sum_bytes(self.b, other.b),
        }
    }
}

/// Mixes two colours channel by channel: `factor` of the first and the rest
/// of the second.
pub open spec fn blend(first: Color, second: Color, factor: int) -> Color {
    Color {
        r: blended(first.r as int, second.r as int, factor) as u8,
        g: blended(first.g as int, second.g as int, factor) as u8,
        b: blended(first.b as int, second.b as int, factor) as u8,
    }
}

/// Mixes two colours channel by channel: `factor` of the first and the rest
/// of the second, each channel rounded down and held between 0 and 255.
pub fn blend_colors(color1: Color, color2: Color, factor: i32) -> (c: Color)
    ensures
        c == blend(color1, color2, factor as int),
{
    Color {
        r: blend_bytes(color1.r, color2.r, factor),
        g: blend_bytes(color1.g, color2.g, factor),
        b: blend_bytes(color1.b, color2.b, factor),
    }
}

/// Packing a colour and unpacking the number gives the colour back.
pub proof fn lemma_pack_unpack(c: Color)
    ensures
        Color::unpacked(c.packed()) == c,
{
}

/// Unpacking a number and packing the colour gives the low 24 bits back.
pub proof fn lemma_unpack_pack(hex: int)
    requires
        0 <= hex,
    ensures
        Color::unpacked(hex).packed() == hex % 0x100_0000,
{
}

proof fn lemma_mixed_ends(a: int, b: int)
    requires
        0 <= a <= 255,
        0 <= b <= 255,
    ensures
        mixed(a, b, 0) == a,
        mixed(a, b, 65536) == b,
{
    assert(a * (65536 - 0) + b * 0 + 32768 == a * 65536 + 32768) by (nonlinear_arith);
    assert(a * (65536 - 65536) + b * 65536 + 32768 == b * 65536 + 32768) by (nonlinear_arith);
}

/// Interpolation starts at the first colour and ends at the second.
pub proof fn lemma_lerp_ends(a: Color, b: Color)
    ensures
        a.lerped(b, 0) == a,
        a.lerped(b, 65536) == b,
{
    lemma_mixed_ends(a.r as int, b.r as int);
    lemma_mixed_ends(a.g as int, b.g as int);
    lemma_mixed_ends(a.b as int, b.b as int);
}

} // verus!
