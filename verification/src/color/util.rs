//! Shading, fading and reading colors.

use crate::color::parse::{
    hex_error_text, hex_spec, named, named_spec, parse_hex, unknown_text,
};
use crate::color::{Color, BLACK, WHITE};
use crate::math::float::{
    eq_spec, safe_clamp_spec, safe_eq_spec, safe_gt_spec, safe_lt_spec,
    F64, F64_HALF, F64_ONE, FloatExt, FloatModel,
};
use crate::math::interpolate::{lemma_channel_bounded, Interpolate};
use crate::math::{computes, fraction_spec, lemma_unit_fraction, map_unit, unit_fraction};
use vstd::prelude::*;

verus! {

/// The source range that a brightness is mapped from: from one half down to
/// zero where it is tolerantly below one half, from one half up to one where
/// it is tolerantly above, and none where it is neither.
pub open spec fn brightness_range_spec(factor: F64) -> Option<(F64, F64)> {
    if safe_lt_spec(factor, F64 { bits: F64_HALF }) {
        Some((F64 { bits: F64_HALF }, F64 { bits: 0 }))
    } else if safe_gt_spec(factor, F64 { bits: F64_HALF }) {
        Some((F64 { bits: F64_HALF }, F64 { bits: F64_ONE }))
    } else {
        None
    }
}

/// The packed color that a brightness is mapped towards: black at the end
/// of the descending range, white at the end of the ascending one.
pub open spec fn brightness_target(end: F64) -> u32 {
    if end.bits == 0 {
        BLACK
    } else {
        WHITE
    }
}

/// What `adjust_brightness` returns where `quotient` is what its
/// `position` computes.
pub open spec fn adjust_brightness_spec(
    quotient: spec_fn(F64, F64, F64) -> F64,
    color: Color,
    factor: F64,
) -> Color {
    match brightness_range_spec(factor) {
        None => color,
        Some((start, end)) => Color::interpolate_spec(
            fraction_spec(quotient, factor, start, end),
            color,
            Color::unpack(brightness_target(end)),
        ),
    }
}

/// What a text reads as: after a `#` six or eight hexadecimal digits, else
/// a name.
pub open spec fn from_str_spec(text: Seq<char>) -> Result<Color, Seq<char>> {
    if text.len() > 0 && text[0] == '#' {
        match hex_spec(text.subrange(1, text.len() as int)) {
            Ok(color) => Ok(color),
            Err(e) => Err(hex_error_text(e)),
        }
    } else {
        match named_spec(text) {
            Some(rgba) => Ok(Color::unpack(rgba)),
            None => Err(unknown_text(text)),
        }
    }
}

impl Color {
    /// This color moved towards white: unchanged at a factor of zero and
    /// below, white at one and above.
    pub fn lighter(self, factor: F64) -> (r: Color)
        ensures
            r == Color::interpolate_spec(unit_fraction(factor), self, Color::unpack(WHITE)),
    {
        map_unit(factor, self, Color::from_word(WHITE))
    }

    /// This color moved towards black: unchanged at a factor of zero and
    /// below, black at one and above.
    pub fn darker(self, factor: F64) -> (r: Color)
        ensures
            r == Color::interpolate_spec(unit_fraction(factor), self, Color::unpack(BLACK)),
    {
        map_unit(factor, self, Color::from_word(BLACK))
    }

    /// The source range that `adjust_brightness` maps `factor` from, if it
    /// changes the color at all.
    pub fn brightness_range(factor: F64) -> (r: Option<(F64, F64)>)
        ensures
            r == brightness_range_spec(factor),
    {
        let half = F64 { bits: F64_HALF };
        if factor.safe_lt(half) {
            Some((half, F64 { bits: 0 }))
        } else if factor.safe_gt(half) {
            Some((half, F64 { bits: F64_ONE }))
        } else {
            None
        }
    }

    /// This color darkened by a factor below one half and lightened by one
    /// above: mapped from the `brightness_range` of the factor onto the
    /// range from this color to black or to white. `position` is what `map`
    /// asks for. A factor of zero or below gives black and a factor of one or
    /// above gives white, whatever `position` is.
    pub fn adjust_brightness<Q: Fn(F64, F64, F64) -> F64>(
        self,
        factor: F64,
        position: Q,
    ) -> (r: Color)
        requires
            forall|v: F64, s: F64, e: F64| call_requires(position, (v, s, e)),
        ensures
            match brightness_range_spec(factor) {
                None => r == self,
                Some((start, end)) => {
                    let v = safe_clamp_spec(factor, start, end);
                    if eq_spec(v, start) {
                        r == self
                    } else if eq_spec(v, end) {
                        r == Color::unpack(brightness_target(end))
                    } else {
                        exists|t: F64|
                            call_ensures(position, (v, start, end), t) && r
                                == Color::interpolate_spec(
                                t,
                                self,
                                Color::unpack(brightness_target(end)),
                            )
                    }
                },
            },
            forall|quotient: spec_fn(F64, F64, F64) -> F64|
                computes(position, quotient) ==> r == adjust_brightness_spec(
                    quotient,
                    self,
                    factor,
                ),
    {
        match Color::brightness_range(factor) {
            None => self,
            Some((start, end)) => {
                let target = if end.bits == 0 {
                    BLACK
                } else {
                    WHITE
                };
                assert(!safe_eq_spec(start, end));
                match crate::math::map(
                    factor,
                    start,
                    end,
                    self,
                    Color::from_word(target),
                    position,
                ) {
                    Ok(color) => {
                        proof {
                            let v = safe_clamp_spec(factor, start, end);
                            if !eq_spec(v, start) && !eq_spec(v, end) {
                                let t = choose|t: F64|
                                    call_ensures(position, (v, start, end), t) && color
                                        == Color::interpolate_spec(
                                        t,
                                        self,
                                        Color::unpack(target),
                                    );
                                assert(call_ensures(position, (v, start, end), t) && color
                                    == Color::interpolate_spec(
                                    t,
                                    self,
                                    Color::unpack(brightness_target(end)),
                                ));
                            }
                        }
                        color
                    },
                    Err(_) => self,
                }
            },
        }
    }

    /// This color moved towards `other` in every channel.
    pub fn map(self, other: Color, factor: F64) -> (r: Color)
        ensures
            r == Color::interpolate_spec(unit_fraction(factor), self, other),
    {
        map_unit(factor, self, other)
    }

    /// This color with its opacity moved towards that of `other`.
    pub fn map_alpha(self, other: Color, factor: F64) -> (r: Color)
        ensures
            r == (Color {
                a: u8::interpolate_spec(unit_fraction(factor), self.a, other.a),
                ..self
            }),
    {
        Color { r: self.r, g: self.g, b: self.b, a: map_unit(factor, self.a, other.a) }
    }

    /// This color with red, green and blue moved towards those of `other`.
    pub fn map_rgb(self, other: Color, factor: F64) -> (r: Color)
        ensures
            r == (Color {
                a: self.a,
                ..Color::interpolate_spec(unit_fraction(factor), self, other)
            }),
    {
        Color {
            r: map_unit(factor, self.r, other.r),
            g: map_unit(factor, self.g, other.g),
            b: map_unit(factor, self.b, other.b),
            a: self.a,
        }
    }

    /// This color at full opacity.
    pub fn opaque(self) -> (r: Color)
        ensures
            r == (Color { a: 255, ..self }),
    {
        Color { r: self.r, g: self.g, b: self.b, a: u8::MAX }
    }

    /// This color with its opacity taken down from full at a factor of zero
    /// to none at a factor of one.
    pub fn translucent(self, factor: F64) -> (r: Color)
        ensures
            r == (Color { a: u8::interpolate_spec(unit_fraction(factor), 255, 0), ..self }),
    {
        Color { r: self.r, g: self.g, b: self.b, a: map_unit(factor, u8::MAX, u8::MIN) }
    }

    /// Whether this color is at full opacity.
    pub fn is_opaque(self) -> (r: bool)
        ensures
            r == (self.a == 255),
    {
        self.a == u8::MAX
    }

    /// Whether this color is below full opacity.
    pub fn is_translucent(self) -> (r: bool)
        ensures
            r == (self.a != 255),
    {
        self.a != u8::MAX
    }

    /// Reads a color: after a `#` its red, green and blue in six
    /// hexadecimal digits, or those and its opacity in eight, else the name
    /// of a color. The error says in words what is wrong.
    pub fn from_str(src: &str) -> (r: Result<Color, String>)
        ensures
            match from_str_spec(src@) {
                Ok(color) => r == Ok::<Color, String>(color),
                Err(text) => r is Err && r->Err_0@ == text,
            },
    {
        let n: usize = src.unicode_len();
        if n > 0 && src.get_char(0) == '#' {
            match parse_hex(src.substring_char(1, n)) {
                Ok(color) => Ok(color),
                Err(e) => Err(e.message()),
            }
        } else {
            match named(src) {
                Some(rgba) => Ok(Color::from_word(rgba)),
                None => {
                    let mut text = String::from_str("unknown color '");
                    text.append(src);
                    text.append("'");
                    Err(text)
                },
            }
        }
    }
}

/// A color mapped by a factor of zero or below is unchanged, and one mapped
/// by a factor of one or above is the other color: a factor out of range is
/// not carried beyond either color.
pub proof fn lemma_shade_ends(color: Color, other: Color, factor: F64)
    requires
        !factor.nan(),
    ensures
        factor.rank() <= 0 ==> Color::interpolate_spec(unit_fraction(factor), color, other)
            == color,
        factor.rank() >= F64_ONE ==> Color::interpolate_spec(unit_fraction(factor), color, other)
            == other,
{
    lemma_unit_fraction(factor);
}

/// Every color between two opaque colors is opaque.
pub proof fn lemma_map_keeps_opacity(color: Color, other: Color, t: F64)
    requires
        color.a == 255,
        other.a == 255,
    ensures
        Color::interpolate_spec(t, color, other).a == 255,
{
    lemma_channel_bounded(t, color.a, other.a);
}

/// A brightness of one half or one step beside it leaves a color as it is.
/// A brightness of zero or below gives black and one of one or above gives
/// white, whatever the quotient is.
pub proof fn lemma_brightness_ends(
    quotient: spec_fn(F64, F64, F64) -> F64,
    color: Color,
    factor: F64,
)
    requires
        !factor.nan(),
    ensures
        F64_HALF - 1 <= factor.rank() <= F64_HALF + 1 ==> adjust_brightness_spec(
            quotient,
            color,
            factor,
        ) == color,
        factor.rank() <= 0 ==> adjust_brightness_spec(quotient, color, factor) == Color::unpack(
            BLACK,
        ),
        factor.rank() >= F64_ONE ==> adjust_brightness_spec(quotient, color, factor)
            == Color::unpack(WHITE),
{
    let half = F64 { bits: F64_HALF };
    let zero = F64 { bits: 0 };
    let one = F64 { bits: F64_ONE };
    if factor.rank() <= 0 {
        assert(safe_clamp_spec(factor, half, zero) == zero);
        Color::lemma_ends(one, color, Color::unpack(BLACK));
    }
    if factor.rank() >= F64_ONE {
        assert(safe_clamp_spec(factor, half, one) == one);
        Color::lemma_ends(one, color, Color::unpack(WHITE));
    }
}

} // verus!
