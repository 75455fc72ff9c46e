//! A color of four 8-bit channels, its packed form and the named colors.

pub mod blend;
pub mod parse;
pub mod util;

use crate::math::float::F64;
use crate::math::interpolate::Interpolate;
use crate::math::round::{round_to_u8, round_u8_spec};
use vstd::prelude::*;
use vstd::std_specs::convert::FromSpecImpl;

verus! {

/// A color in straight alpha: red, green, blue and opacity.
#[derive(Clone, Copy, Debug, PartialEq, Eq, Structural)]
pub struct Color {
    pub r: u8,
    pub g: u8,
    pub b: u8,
    pub a: u8,
}

/// The named colors, packed as `Color::from` reads them: red in the highest
/// byte, then green, then blue, and opacity in the lowest.
pub const TRANSPARENT: u32 = 0x0000_0000;

pub const BLACK: u32 = 0x0000_00ff;

pub const WHITE: u32 = 0xffff_ffff;

pub const RED: u32 = 0xff00_00ff;

pub const GREEN: u32 = 0x00ff_00ff;

pub const BLUE: u32 = 0x0000_ffff;

pub const CYAN: u32 = 0x00ff_ffff;

pub const MAGENTA: u32 = 0xff00_ffff;

pub const YELLOW: u32 = 0xffff_00ff;

pub const ORANGE: u32 = 0xff80_00ff;

pub const PINK: u32 = 0xff60_ffff;

pub const STEEL_BLUE: u32 = 0x468b_b4ff;

impl Default for Color {
    /// The transparent black.
    fn default() -> (c: Color)
        ensures
            c == (Color { r: 0, g: 0, b: 0, a: 0 }),
    {
        Color { r: 0, g: 0, b: 0, a: 0 }
    }
}

impl Color {
    /// The color that a packed word holds: red in the highest byte, then
    /// green, then blue, and opacity in the lowest.
    pub open spec fn unpack(rgba: u32) -> Color {
        Color {
            r: (rgba / 0x100_0000) as u8,
            g: (rgba / 0x1_0000 % 0x100) as u8,
            b: (rgba / 0x100 % 0x100) as u8,
            a: (rgba % 0x100) as u8,
        }
    }

    /// The word that holds a color.
    pub open spec fn pack(self) -> u32 {
        (self.r * 0x100_0000 + self.g * 0x1_0000 + self.b * 0x100 + self.a) as u32
    }

    /// Unpacks a color.
    pub fn from_word(rgba: u32) -> (c: Color)
        ensures
            c == Color::unpack(rgba),
    {
        let r: u32 = rgba / 0x100_0000;
        let g: u32 = rgba / 0x1_0000 % 0x100;
        let b: u32 = rgba / 0x100 % 0x100;
        let a: u32 = rgba % 0x100;
        Color { r: r as u8, g: g as u8, b: b as u8, a: a as u8 }
    }

    /// The color of four channels given as double-precision values, each
    /// rounded to the nearest channel and kept within 0 and 255.
    pub fn from_channels(x: F64, y: F64, z: F64, w: F64) -> (c: Color)
        ensures
            c == (Color {
                r: round_u8_spec(x),
                g: round_u8_spec(y),
                b: round_u8_spec(z),
                a: round_u8_spec(w),
            }),
    {
        Color { r: round_to_u8(x), g: round_to_u8(y), b: round_to_u8(z), a: round_to_u8(w) }
    }

    /// Packs this color.
    pub fn to_word(self) -> (rgba: u32)
        ensures
            rgba == self.pack(),
    {
        (self.r as u32) * 0x100_0000 + (self.g as u32) * 0x1_0000 + (self.b as u32) * 0x100 + (
        self.a as u32)
    }
}

impl From<u32> for Color {
    fn from(rgba: u32) -> (c: Color) {
        Color::from_word(rgba)
    }
}

impl FromSpecImpl<u32> for Color {
    open spec fn obeys_from_spec() -> bool {
        true
    }

    open spec fn from_spec(rgba: u32) -> Color {
        Color::unpack(rgba)
    }
}

impl From<Color> for u32 {
    /// Packs a color: red into the highest byte down to opacity in the
    /// lowest.
    fn from(color: Color) -> (rgba: u32) {
        color.to_word()
    }
}

impl FromSpecImpl<Color> for u32 {
    open spec fn obeys_from_spec() -> bool {
        true
    }

    open spec fn from_spec(color: Color) -> u32 {
        color.pack()
    }
}

/// Packing a color and unpacking the word gives the color back.
pub proof fn lemma_pack_unpack(color: Color)
    ensures
        Color::unpack(color.pack()) == color,
{
    let word = color.r * 0x100_0000 + color.g * 0x1_0000 + color.b * 0x100 + color.a;
    assert(0 <= word <= 0xffff_ffff);
    assert(word / 0x100_0000 == color.r);
    assert(word / 0x1_0000 == color.r * 0x100 + color.g);
    assert(word / 0x100 == color.r * 0x1_0000 + color.g * 0x100 + color.b);
}

/// Unpacking a word and packing the color gives the word back.
pub proof fn lemma_unpack_pack(rgba: u32)
    ensures
        Color::unpack(rgba).pack() == rgba,
{
    let r = rgba / 0x100_0000;
    let g = rgba / 0x1_0000 % 0x100;
    let b = rgba / 0x100 % 0x100;
    let a = rgba % 0x100;
    assert(rgba / 0x1_0000 == r * 0x100 + g);
    assert(rgba / 0x100 == (rgba / 0x1_0000) * 0x100 + b);
    assert(rgba == (rgba / 0x100) * 0x100 + a);
}

impl Interpolate for Color {
    /// Each channel is blended by itself.
    open spec fn interpolate_spec(t: F64, y_start: Color, y_end: Color) -> Color {
        Color {
            r: u8::interpolate_spec(t, y_start.r, y_end.r),
            g: u8::interpolate_spec(t, y_start.g, y_end.g),
            b: u8::interpolate_spec(t, y_start.b, y_end.b),
            a: u8::interpolate_spec(t, y_start.a, y_end.a),
        }
    }

    fn interpolate(t: F64, y_start: Color, y_end: Color) -> (r: Color) {
        Color {
            r: u8::interpolate(t, y_start.r, y_end.r),
            g: u8::interpolate(t, y_start.g, y_end.g),
            b: u8::interpolate(t, y_start.b, y_end.b),
            a: u8::interpolate(t, y_start.a, y_end.a),
        }
    }

    proof fn lemma_ends(t: F64, y_start: Color, y_end: Color) {
    }
}

} // verus!
