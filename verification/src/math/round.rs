//! Rounding a double-precision value to an 8-bit channel.

use crate::math::float::{FloatBits, FloatModel, F64, F64_HIDDEN, F64_SIGN};
use crate::math::interpolate::round_half_away;
use vstd::prelude::*;

verus! {

/// Pattern of 255.0 in F64.
pub const F64_255: u64 = 0x406f_e000_0000_0000;

/// The channel nearest to `x`, a tie going away from zero: 0 for a NaN and
/// for everything at or below zero, 255 for everything at or above 255.
pub open spec fn round_u8_spec(x: F64) -> u8 {
    if x.nan() || x.rank() <= 0 {
        0
    } else if x.rank() >= F64_255 {
        255
    } else {
        round_half_away(
            x.significand(),
            vstd::arithmetic::power2::pow2(x.places() as nat) as int,
        ) as u8
    }
}

/// Rounds `x` to the nearest channel.
pub fn round_to_u8(x: F64) -> (r: u8)
    ensures
        r == round_u8_spec(x),
{
    if x.is_nan() || x.bits == 0 || x.bits >= F64_SIGN {
        return 0;
    }
    if x.bits >= F64_255 {
        return 255;
    }
    let m: u64 = x.significand_bits();
    let k: i32 = x.binary_places();
    let ghost unit = vstd::arithmetic::power2::pow2(k as nat) as int;
    proof {
        vstd::arithmetic::power2::lemma2_to64();
        vstd::arithmetic::power2::lemma2_to64_rest();
        assert(x.magnitude() == x.bits);
        assert(x.exponent_field() <= 1030);
        assert(45 <= k <= 1074);
    }
    if k > 53 {
        proof {
            if k > 54 {
                vstd::arithmetic::power2::lemma_pow2_strictly_increases(54, k as nat);
            }
            assert(2 * m < unit);
            vstd::arithmetic::div_mod::lemma_basic_div(2 * m + unit, 2 * unit);
        }
        return 0;
    }
    let p: u64 = if k == 45 {
        0x2000_0000_0000
    } else if k == 46 {
        0x4000_0000_0000
    } else if k == 47 {
        0x8000_0000_0000
    } else if k == 48 {
        0x1_0000_0000_0000
    } else if k == 49 {
        0x2_0000_0000_0000
    } else if k == 50 {
        0x4_0000_0000_0000
    } else if k == 51 {
        0x8_0000_0000_0000
    } else if k == 52 {
        0x10_0000_0000_0000
    } else {
        0x20_0000_0000_0000
    };
    assert(p == unit);
    let rounded: u64 = (2 * m + p) / (2 * p);
    proof {
        lemma_channel_in_range(x);
    }
    rounded as u8
}

/// Below 255 the nearest integer is at most 255.
proof fn lemma_channel_in_range(x: F64)
    requires
        0 < x.bits < F64_255,
        45 <= x.places() <= 53,
    ensures
        0 <= round_half_away(
            x.significand(),
            vstd::arithmetic::power2::pow2(x.places() as nat) as int,
        ) <= 255,
{
    vstd::arithmetic::power2::lemma2_to64();
    vstd::arithmetic::power2::lemma2_to64_rest();
    let m = x.significand();
    let k = x.places();
    let unit = vstd::arithmetic::power2::pow2(k as nat) as int;
    assert(x.magnitude() == x.bits);
    // The value is below 255: the significand is below 255 units.
    assert(m < 255 * unit) by {
        let e = x.exponent_field();
        let f = x.magnitude() % (F64_HIDDEN as int);
        if e == 1030 {
            assert(f < 0xf_e000_0000_0000);
        }
    }
    crate::math::interpolate::lemma_round_between(m, unit, 0, 255);
}

/// The pattern named 255 holds that value: its significand is 255 times
/// the unit of its 45 binary places.
pub proof fn lemma_pattern_of_255()
    ensures
        (F64 { bits: F64_255 }).places() == 45,
        (F64 { bits: F64_255 }).significand() == 255 * vstd::arithmetic::power2::pow2(45),
{
    vstd::arithmetic::power2::lemma2_to64();
    vstd::arithmetic::power2::lemma2_to64_rest();
}

/// A whole number of at most 255, held exactly, is rounded to itself.
pub proof fn lemma_round_whole(x: F64, whole: int)
    requires
        !x.nan(),
        0 < x.rank() < F64_255,
        0 <= x.places(),
        x.significand() == whole * vstd::arithmetic::power2::pow2(x.places() as nat),
    ensures
        round_u8_spec(x) == whole,
{
    let unit = vstd::arithmetic::power2::pow2(x.places() as nat) as int;
    vstd::arithmetic::power2::lemma_pow2_pos(x.places() as nat);
    crate::math::interpolate::lemma_round_near_multiple(whole, 0, unit);
    assert(x.magnitude() == x.bits);
    assert(x.exponent_field() <= 1030);
    assert(45 <= x.places());
    if x.places() <= 53 {
        lemma_channel_in_range(x);
    } else {
        vstd::arithmetic::power2::lemma2_to64();
        vstd::arithmetic::power2::lemma2_to64_rest();
        vstd::arithmetic::power2::lemma_pow2_strictly_increases(53, x.places() as nat);
        assert(whole == 0) by (nonlinear_arith)
            requires
                x.significand() == whole * unit,
                0 <= x.significand() < 0x20_0000_0000_0000,
                unit > 0x20_0000_0000_0000,
        ;
    }
}

} // verus!
