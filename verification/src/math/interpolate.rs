//! Linear blending between two endpoints of an integer type.
//!
//! The position between the endpoints is a double-precision fraction. Its
//! value is an exact ratio of two integers, so the blended point is an exact
//! ratio too, and is rounded once, to the nearest integer.

use crate::math::float::{le_spec, FloatBits, FloatModel, F64, F64_HIDDEN, F64_ONE};
use vstd::prelude::*;

verus! {

/// The integer nearest to `n / d`, for a positive `d`. A tie goes away from
/// zero.
pub open spec fn round_half_away(n: int, d: int) -> int {
    if n >= 0 {
        (2 * n + d) / (2 * d)
    } else {
        -((d - 2 * n) / (2 * d))
    }
}

/// The integer nearest to the point at fraction `t` of the way from
/// `y_start` to `y_end`, a tie going away from zero.
///
/// A fraction at or below zero, or one that is not a number, gives
/// `y_start`; a fraction at or above one gives `y_end`. Nothing is ever
/// extrapolated.
pub open spec fn blend_spec(t: F64, y_start: int, y_end: int) -> int {
    if t.nan() || t.rank() <= 0 {
        y_start
    } else if t.rank() >= F64_ONE {
        y_end
    } else {
        let unit = vstd::arithmetic::power2::pow2(t.places() as nat) as int;
        round_half_away(y_start * unit + (y_end - y_start) * t.significand(), unit)
    }
}

/// Largest magnitude of an endpoint that `blend` accepts: two to the 32nd.
pub const BLEND_LIMIT: i64 = 0x1_0000_0000;

/// Rounding a multiple of `d`, moved by less than half of `d`, gives the
/// multiple back.
pub proof fn lemma_round_near_multiple(y: int, e: int, d: int)
    requires
        d > 0,
        -d < 2 * e < d,
    ensures
        round_half_away(y * d + e, d) == y,
{
    let n = y * d + e;
    if n >= 0 {
        assert(2 * n + d == y * (2 * d) + (2 * e + d)) by (nonlinear_arith)
            requires
                n == y * d + e,
        ;
        vstd::arithmetic::div_mod::lemma_fundamental_div_mod_converse(
            2 * n + d,
            2 * d,
            y,
            2 * e + d,
        );
    } else {
        assert(d - 2 * n == (-y) * (2 * d) + (d - 2 * e)) by (nonlinear_arith)
            requires
                n == y * d + e,
        ;
        vstd::arithmetic::div_mod::lemma_fundamental_div_mod_converse(
            d - 2 * n,
            2 * d,
            -y,
            d - 2 * e,
        );
    }
}

/// A ratio that lies between two integers is rounded to an integer between
/// them.
pub proof fn lemma_round_between(n: int, d: int, lo: int, hi: int)
    requires
        d > 0,
        lo * d <= n <= hi * d,
    ensures
        lo <= round_half_away(n, d) <= hi,
{
    if n >= 0 {
        let x = 2 * n + d;
        let q = x / (2 * d);
        let r = x % (2 * d);
        vstd::arithmetic::div_mod::lemma_fundamental_div_mod(x, 2 * d);
        assert(lo <= q <= hi) by (nonlinear_arith)
            requires
                d > 0,
                lo * d <= n <= hi * d,
                x == 2 * n + d,
                x == (2 * d) * q + r,
                0 <= r < 2 * d,
        ;
    } else {
        let x = d - 2 * n;
        let q = x / (2 * d);
        let r = x % (2 * d);
        vstd::arithmetic::div_mod::lemma_fundamental_div_mod(x, 2 * d);
        assert(lo <= -q <= hi) by (nonlinear_arith)
            requires
                d > 0,
                lo * d <= n <= hi * d,
                x == d - 2 * n,
                x == (2 * d) * q + r,
                0 <= r < 2 * d,
        ;
    }
}

/// Rounding keeps the order of two ratios with one denominator.
pub proof fn lemma_round_monotonic(n1: int, n2: int, d: int)
    requires
        d > 0,
        n1 <= n2,
    ensures
        round_half_away(n1, d) <= round_half_away(n2, d),
{
    if n1 >= 0 {
        vstd::arithmetic::div_mod::lemma_div_is_ordered(2 * n1 + d, 2 * n2 + d, 2 * d);
    } else if n2 < 0 {
        vstd::arithmetic::div_mod::lemma_div_is_ordered(d - 2 * n2, d - 2 * n1, 2 * d);
    } else {
        vstd::arithmetic::div_mod::lemma_div_pos_is_pos(d - 2 * n1, 2 * d);
        vstd::arithmetic::div_mod::lemma_div_pos_is_pos(2 * n2 + d, 2 * d);
    }
}

/// Rounding does not change when numerator and denominator are both
/// multiplied by a positive integer.
pub proof fn lemma_round_scaled(n: int, d: int, c: int)
    requires
        d > 0,
        c > 0,
    ensures
        round_half_away(n * c, d * c) == round_half_away(n, d),
{
    assert(n >= 0 <==> n * c >= 0) by (nonlinear_arith)
        requires
            c > 0,
    ;
    if n >= 0 {
        vstd::arithmetic::div_mod::lemma_div_multiples_vanish_quotient(c, 2 * n + d, 2 * d);
        assert(c * (2 * n + d) == 2 * (n * c) + d * c) by (nonlinear_arith);
        assert(c * (2 * d) == 2 * (d * c)) by (nonlinear_arith);
    } else {
        vstd::arithmetic::div_mod::lemma_div_multiples_vanish_quotient(c, d - 2 * n, 2 * d);
        assert(c * (d - 2 * n) == d * c - 2 * (n * c)) by (nonlinear_arith);
        assert(c * (2 * d) == 2 * (d * c)) by (nonlinear_arith);
    }
}

/// Two to the power `k`, for `k` up to 100.
fn two_to(k: u32) -> (p: i128)
    requires
        k <= 100,
    ensures
        p == vstd::arithmetic::power2::pow2(k as nat),
        0 < p <= 0x10_0000_0000_0000_0000_0000_0000,
{
    let mut p: i128 = 1;
    let mut i: u32 = 0;
    proof {
        vstd::arithmetic::power2::lemma2_to64();
        lemma_two_to_100();
    }
    while i < k
        invariant
            i <= k <= 100,
            p == vstd::arithmetic::power2::pow2(i as nat),
            vstd::arithmetic::power2::pow2(100) == 0x10_0000_0000_0000_0000_0000_0000,
        decreases k - i,
    {
        proof {
            vstd::arithmetic::power2::lemma_pow2_unfold((i + 1) as nat);
            if i + 1 < 100 {
                vstd::arithmetic::power2::lemma_pow2_strictly_increases((i + 1) as nat, 100);
            }
        }
        p = 2 * p;
        i = i + 1;
    }
    proof {
        vstd::arithmetic::power2::lemma_pow2_pos(k as nat);
        if k < 100 {
            vstd::arithmetic::power2::lemma_pow2_strictly_increases(k as nat, 100);
        }
    }
    p
}

proof fn lemma_two_to_100()
    ensures
        vstd::arithmetic::power2::pow2(100) == 0x10_0000_0000_0000_0000_0000_0000,
{
    vstd::arithmetic::power2::lemma2_to64();
    vstd::arithmetic::power2::lemma2_to64_rest();
    vstd::arithmetic::power2::lemma_pow2_adds(64, 36);
    assert(0x1_0000_0000_0000_0000 * 0x10_0000_0000 == 0x10_0000_0000_0000_0000_0000_0000int)
        by (nonlinear_arith);
}

/// Blends two integers at the fraction `t`.
pub fn blend(t: F64, y_start: i64, y_end: i64) -> (r: i64)
    requires
        -BLEND_LIMIT <= y_start <= BLEND_LIMIT,
        -BLEND_LIMIT <= y_end <= BLEND_LIMIT,
    ensures
        r == blend_spec(t, y_start as int, y_end as int),
        y_start <= y_end ==> y_start <= r <= y_end,
        y_end <= y_start ==> y_end <= r <= y_start,
{
    if t.is_nan() || t.bits == 0 || t.bits >= 0x8000_0000_0000_0000 {
        return y_start;
    }
    if t.bits >= F64_ONE {
        return y_end;
    }
    let m: u64 = t.significand_bits();
    let k: i32 = t.binary_places();
    let d: i64 = y_end - y_start;
    let ghost unit = vstd::arithmetic::power2::pow2(k as nat) as int;
    let ghost n = y_start * unit + d * m;
    proof {
        vstd::arithmetic::power2::lemma2_to64();
        vstd::arithmetic::power2::lemma2_to64_rest();
        vstd::arithmetic::power2::lemma_pow2_pos(k as nat);
        assert(t.magnitude() == t.bits);
        assert(t.exponent_field() <= 1022);
        assert(53 <= k <= 1074);
        if k > 53 {
            vstd::arithmetic::power2::lemma_pow2_strictly_increases(53, k as nat);
        }
        assert(0 <= m < unit);
        lemma_blend_between(y_start as int, y_end as int, m as int, unit);
        // Two to the 88th, and where the unit stands to it.
        lemma_two_to_100();
        vstd::arithmetic::power2::lemma_pow2_adds(88, 12);
        assert(vstd::arithmetic::power2::pow2(88) == 0x100_0000_0000_0000_0000_0000);
        if k < 88 {
            vstd::arithmetic::power2::lemma_pow2_strictly_increases(k as nat, 88);
        }
        if k > 88 {
            vstd::arithmetic::power2::lemma_pow2_strictly_increases(88, k as nat);
        }
        // The part of the blend that the fraction adds.
        assert(-0x40_0000_0000_0000_0000_0000 < d * m < 0x40_0000_0000_0000_0000_0000)
            by (nonlinear_arith)
            requires
                -0x2_0000_0000 <= d <= 0x2_0000_0000,
                0 <= m < 0x20_0000_0000_0000,
        ;
    }
    if k > 88 {
        proof {
            lemma_round_near_multiple(y_start as int, d * m, unit);
        }
        return y_start;
    }
    let p: i128 = two_to(k as u32);
    proof {
        assert(p == unit);
        assert(-0x100_0000_0000_0000_0000_0000_0000_0000 <= y_start * p
            <= 0x100_0000_0000_0000_0000_0000_0000_0000) by (nonlinear_arith)
            requires
                -0x1_0000_0000 <= y_start <= 0x1_0000_0000,
                0 < p <= 0x100_0000_0000_0000_0000_0000,
        ;
    }
    let whole: i128 = (y_start as i128) * p;
    let part: i128 = (d as i128) * (m as i128);
    let scaled: i128 = whole + part;
    let rounded: i128 = if scaled >= 0 {
        (2 * scaled + p) / (2 * p)
    } else {
        -((p - 2 * scaled) / (2 * p))
    };
    rounded as i64
}

/// A blend strictly inside the unit interval lies between the endpoints.
proof fn lemma_blend_between(y_start: int, y_end: int, m: int, unit: int)
    requires
        0 <= m < unit,
    ensures
        y_start <= y_end ==> y_start <= round_half_away(
            y_start * unit + (y_end - y_start) * m,
            unit,
        ) <= y_end,
        y_end <= y_start ==> y_end <= round_half_away(
            y_start * unit + (y_end - y_start) * m,
            unit,
        ) <= y_start,
{
    let n = y_start * unit + (y_end - y_start) * m;
    if y_start <= y_end {
        assert(y_start * unit <= n <= y_end * unit) by (nonlinear_arith)
            requires
                n == y_start * unit + (y_end - y_start) * m,
                0 <= m < unit,
                y_start <= y_end,
        ;
        lemma_round_between(n, unit, y_start, y_end);
    }
    if y_end <= y_start {
        assert(y_end * unit <= n <= y_start * unit) by (nonlinear_arith)
            requires
                n == y_start * unit + (y_end - y_start) * m,
                0 <= m < unit,
                y_end <= y_start,
        ;
        lemma_round_between(n, unit, y_end, y_start);
    }
}

/// A blend never leaves the range between its two endpoints, whatever the
/// fraction.
pub proof fn lemma_blend_bounded(t: F64, y_start: int, y_end: int)
    ensures
        y_start <= y_end ==> y_start <= blend_spec(t, y_start, y_end) <= y_end,
        y_end <= y_start ==> y_end <= blend_spec(t, y_start, y_end) <= y_start,
{
    if !(t.nan() || t.rank() <= 0) && t.rank() < F64_ONE {
        lemma_open_unit(t);
        let unit = vstd::arithmetic::power2::pow2(t.places() as nat) as int;
        lemma_blend_between(y_start, y_end, t.significand(), unit);
    }
}

/// A blend is exact at both ends: the start at a fraction of zero, the end
/// at a fraction of one.
pub proof fn lemma_blend_endpoints(y_start: int, y_end: int)
    ensures
        blend_spec(F64 { bits: 0 }, y_start, y_end) == y_start,
        blend_spec(F64 { bits: F64_ONE }, y_start, y_end) == y_end,
{
}

/// Between equal endpoints every blend is that endpoint.
pub proof fn lemma_blend_constant(t: F64, y: int)
    ensures
        blend_spec(t, y, y) == y,
{
    lemma_blend_bounded(t, y, y);
}

/// A blend keeps the order of two fractions where the target range
/// ascends, and reverses it where the target range descends.
pub proof fn lemma_blend_monotonic(t1: F64, t2: F64, y_start: int, y_end: int)
    requires
        le_spec(t1, t2),
    ensures
        y_start <= y_end ==> blend_spec(t1, y_start, y_end) <= blend_spec(t2, y_start, y_end),
        y_end <= y_start ==> blend_spec(t1, y_start, y_end) >= blend_spec(t2, y_start, y_end),
{
    lemma_blend_bounded(t1, y_start, y_end);
    lemma_blend_bounded(t2, y_start, y_end);
    if 0 < t1.rank() && t2.rank() < F64_ONE {
        lemma_open_unit(t1);
        lemma_open_unit(t2);
        let m1 = t1.significand();
        let m2 = t2.significand();
        let k1 = t1.places();
        let k2 = t2.places();
        let unit1 = vstd::arithmetic::power2::pow2(k1 as nat) as int;
        let unit2 = vstd::arithmetic::power2::pow2(k2 as nat) as int;
        let d = y_end - y_start;
        let n1 = y_start * unit1 + d * m1;
        let n2 = y_start * unit2 + d * m2;
        assert(t1.magnitude() == t1.bits);
        assert(t2.magnitude() == t2.bits);
        assert(t1.exponent_field() <= t2.exponent_field());
        assert(k1 >= k2);
        let j = k1 - k2;
        let c = vstd::arithmetic::power2::pow2(j as nat) as int;
        vstd::arithmetic::power2::lemma_pow2_pos(j as nat);
        vstd::arithmetic::power2::lemma_pow2_adds(k2 as nat, j as nat);
        assert(unit1 == unit2 * c);
        // The second fraction, written over the denominator of the first.
        assert(m1 <= m2 * c) by {
            if j == 0 {
                vstd::arithmetic::power2::lemma2_to64();
            } else {
                vstd::arithmetic::power2::lemma2_to64();
                if j > 1 {
                    vstd::arithmetic::power2::lemma_pow2_strictly_increases(1, j as nat);
                }
                assert(m2 >= F64_HIDDEN);
                assert(m2 * c >= 2 * m2) by (nonlinear_arith)
                    requires
                        c >= 2,
                        m2 >= 0,
                ;
            }
        }
        lemma_round_scaled(n2, unit2, c);
        assert(n2 * c == y_start * unit1 + d * (m2 * c)) by (nonlinear_arith)
            requires
                n2 == y_start * unit2 + d * m2,
                unit1 == unit2 * c,
        ;
        if y_start <= y_end {
            assert(n1 <= n2 * c) by (nonlinear_arith)
                requires
                    n1 == y_start * unit1 + d * m1,
                    n2 * c == y_start * unit1 + d * (m2 * c),
                    m1 <= m2 * c,
                    d >= 0,
            ;
            lemma_round_monotonic(n1, n2 * c, unit1);
        }
        if y_end <= y_start {
            assert(n2 * c <= n1) by (nonlinear_arith)
                requires
                    n1 == y_start * unit1 + d * m1,
                    n2 * c == y_start * unit1 + d * (m2 * c),
                    m1 <= m2 * c,
                    d <= 0,
            ;
            lemma_round_monotonic(n2 * c, n1, unit1);
        }
    }
}

/// A fraction strictly between zero and one has a significand below its
/// unit, and at least 53 binary places.
pub proof fn lemma_open_unit(t: F64)
    requires
        !t.nan(),
        0 < t.rank() < F64_ONE,
    ensures
        53 <= t.places() <= 1074,
        0 < t.significand() < vstd::arithmetic::power2::pow2(t.places() as nat),
{
    vstd::arithmetic::power2::lemma2_to64();
    vstd::arithmetic::power2::lemma2_to64_rest();
    assert(t.magnitude() == t.bits);
    assert(t.exponent_field() <= 1022);
    if t.places() > 53 {
        vstd::arithmetic::power2::lemma_pow2_strictly_increases(53, t.places() as nat);
    }
}

/// A type whose values can be blended linearly.
pub trait Interpolate: Copy + Sized {
    /// The value at fraction `t` of the way from `y_start` to `y_end`.
    spec fn interpolate_spec(t: F64, y_start: Self, y_end: Self) -> Self;

    /// Blends `y_start` and `y_end` at the fraction `t`: `y_start` at zero
    /// and below, `y_end` at one and above, and in between the nearest value
    /// of the type, a tie going away from zero.
    fn interpolate(t: F64, y_start: Self, y_end: Self) -> (r: Self)
        ensures
            r == Self::interpolate_spec(t, y_start, y_end),
    ;

    /// Nothing is extrapolated: a fraction at or below zero, or one that is
    /// no number, gives the start, and a fraction at or above one gives the
    /// end.
    proof fn lemma_ends(t: F64, y_start: Self, y_end: Self)
        ensures
            t.nan() || t.rank() <= 0 ==> Self::interpolate_spec(t, y_start, y_end) == y_start,
            !t.nan() && t.rank() >= F64_ONE ==> Self::interpolate_spec(t, y_start, y_end)
                == y_end,
    ;
}

impl Interpolate for u8 {
    open spec fn interpolate_spec(t: F64, y_start: u8, y_end: u8) -> u8 {
        blend_spec(t, y_start as int, y_end as int) as u8
    }

    fn interpolate(t: F64, y_start: u8, y_end: u8) -> (r: u8) {
        blend(t, y_start as i64, y_end as i64) as u8
    }

    proof fn lemma_ends(t: F64, y_start: u8, y_end: u8) {
    }
}

impl Interpolate for u16 {
    open spec fn interpolate_spec(t: F64, y_start: u16, y_end: u16) -> u16 {
        blend_spec(t, y_start as int, y_end as int) as u16
    }

    fn interpolate(t: F64, y_start: u16, y_end: u16) -> (r: u16) {
        blend(t, y_start as i64, y_end as i64) as u16
    }

    proof fn lemma_ends(t: F64, y_start: u16, y_end: u16) {
    }
}

impl Interpolate for u32 {
    open spec fn interpolate_spec(t: F64, y_start: u32, y_end: u32) -> u32 {
        blend_spec(t, y_start as int, y_end as int) as u32
    }

    fn interpolate(t: F64, y_start: u32, y_end: u32) -> (r: u32) {
        blend(t, y_start as i64, y_end as i64) as u32
    }

    proof fn lemma_ends(t: F64, y_start: u32, y_end: u32) {
    }
}

impl Interpolate for i8 {
    open spec fn interpolate_spec(t: F64, y_start: i8, y_end: i8) -> i8 {
        blend_spec(t, y_start as int, y_end as int) as i8
    }

    fn interpolate(t: F64, y_start: i8, y_end: i8) -> (r: i8) {
        blend(t, y_start as i64, y_end as i64) as i8
    }

    proof fn lemma_ends(t: F64, y_start: i8, y_end: i8) {
    }
}

impl Interpolate for i16 {
    open spec fn interpolate_spec(t: F64, y_start: i16, y_end: i16) -> i16 {
        blend_spec(t, y_start as int, y_end as int) as i16
    }

    fn interpolate(t: F64, y_start: i16, y_end: i16) -> (r: i16) {
        blend(t, y_start as i64, y_end as i64) as i16
    }

    proof fn lemma_ends(t: F64, y_start: i16, y_end: i16) {
    }
}

impl Interpolate for i32 {
    open spec fn interpolate_spec(t: F64, y_start: i32, y_end: i32) -> i32 {
        blend_spec(t, y_start as int, y_end as int) as i32
    }

    fn interpolate(t: F64, y_start: i32, y_end: i32) -> (r: i32) {
        blend(t, y_start as i64, y_end as i64) as i32
    }

    proof fn lemma_ends(t: F64, y_start: i32, y_end: i32) {
    }
}

/// Blending two channels keeps the order of two fractions where the second
/// channel is the larger, and reverses it where the second is the smaller.
pub proof fn lemma_channel_monotonic(t1: F64, t2: F64, y_start: u8, y_end: u8)
    requires
        le_spec(t1, t2),
    ensures
        y_start <= y_end ==> u8::interpolate_spec(t1, y_start, y_end) <= u8::interpolate_spec(
            t2,
            y_start,
            y_end,
        ),
        y_end <= y_start ==> u8::interpolate_spec(t1, y_start, y_end) >= u8::interpolate_spec(
            t2,
            y_start,
            y_end,
        ),
{
    lemma_blend_bounded(t1, y_start as int, y_end as int);
    lemma_blend_bounded(t2, y_start as int, y_end as int);
    lemma_blend_monotonic(t1, t2, y_start as int, y_end as int);
}

/// A blended channel is the first channel at a fraction of zero, the
/// second at a fraction of one, and lies between the two at every fraction.
pub proof fn lemma_channel_bounded(t: F64, y_start: u8, y_end: u8)
    ensures
        u8::interpolate_spec(F64 { bits: 0 }, y_start, y_end) == y_start,
        u8::interpolate_spec(F64 { bits: F64_ONE }, y_start, y_end) == y_end,
        y_start <= y_end ==> y_start <= u8::interpolate_spec(t, y_start, y_end) <= y_end,
        y_end <= y_start ==> y_end <= u8::interpolate_spec(t, y_start, y_end) <= y_start,
{
    lemma_blend_bounded(t, y_start as int, y_end as int);
}

} // verus!
