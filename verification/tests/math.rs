use cube::math::float::{FloatBits, FloatExt, F64};
use cube::math::interpolate::{blend, Interpolate};
use cube::math::round::round_to_u8;
use cube::math::{fraction, locate, map_unit, DomainError};

fn f(x: f64) -> F64 {
    F64::from_bits(x.to_bits())
}

fn back(x: F64) -> f64 {
    f64::from_bits(x.to_bits())
}

/// The position of a value in a range, as floating-point hardware gives it.
fn position(value: F64, start: F64, end: F64) -> F64 {
    f((back(value) - back(start)) / (back(end) - back(start)))
}

fn map_u8(value: f64, from_start: f64, from_end: f64, to_start: u8, to_end: u8) -> Option<u8> {
    cube::math::map(f(value), f(from_start), f(from_end), to_start, to_end, position).ok()
}

#[test]
fn a_source_range_of_zero_width_is_refused() {
    assert_eq!(locate(f(3.0), f(5.0), f(5.0)), Err(DomainError::ZeroWidth));
    assert_eq!(locate(f(5.0), f(5.0), f(5.0)), Err(DomainError::ZeroWidth));
    assert_eq!(locate(f(f64::NAN), f(5.0), f(5.0)), Err(DomainError::ZeroWidth));
    // One step of width is no width.
    let above = F64::from_bits(5.0f64.to_bits() + 1);
    assert_eq!(locate(f(5.0), f(5.0), above), Err(DomainError::ZeroWidth));
    assert_eq!(locate(f(5.0), above, f(5.0)), Err(DomainError::ZeroWidth));
    assert_eq!(locate(f(0.0), f(0.0), f(-0.0)), Err(DomainError::ZeroWidth));
    assert_eq!(
        locate(f(0.0), f(f64::INFINITY), f(f64::INFINITY)),
        Err(DomainError::ZeroWidth)
    );
    // Two steps are a width.
    let further = F64::from_bits(5.0f64.to_bits() + 2);
    assert_eq!(locate(f(5.0), f(5.0), further), Ok(f(5.0)));
    assert_eq!(map_u8(1.0, 5.0, 5.0, 0, 1), None);
}

#[test]
fn values_are_confined_to_the_source_range() {
    assert_eq!(locate(f(0.25), f(0.0), f(1.0)), Ok(f(0.25)));
    assert_eq!(locate(f(0.0), f(0.0), f(1.0)), Ok(f(0.0)));
    assert_eq!(locate(f(1.0), f(0.0), f(1.0)), Ok(f(1.0)));
    assert_eq!(locate(f(1001.0), f(0.0), f(1.0)), Ok(f(1.0)));
    assert_eq!(locate(f(-1001.0), f(0.0), f(1.0)), Ok(f(0.0)));
    assert_eq!(locate(f(f64::INFINITY), f(0.0), f(1.0)), Ok(f(1.0)));
    assert_eq!(locate(f(f64::NEG_INFINITY), f(0.0), f(1.0)), Ok(f(0.0)));
    // A descending range confines as well.
    assert_eq!(locate(f(0.25), f(0.5), f(0.0)), Ok(f(0.25)));
    assert_eq!(locate(f(7.0), f(0.5), f(0.0)), Ok(f(0.5)));
    assert_eq!(locate(f(-7.0), f(0.5), f(0.0)), Ok(f(0.0)));
    assert_eq!(locate(f(0.5), f(0.5), f(0.0)), Ok(f(0.5)));
    assert_eq!(locate(f(0.0), f(0.5), f(0.0)), Ok(f(0.0)));
    // A value that is no number stays what it is.
    assert!(locate(f(f64::NAN), f(0.0), f(1.0)).unwrap().is_nan());
}

#[test]
fn out_of_range_values_map_to_the_end_of_the_target() {
    assert_eq!(map_u8(10.0 + 1000.0, 2.0, 10.0, 20, 200), Some(200));
    assert_eq!(map_u8(2.0 - 1000.0, 2.0, 10.0, 20, 200), Some(20));
    assert_eq!(map_u8(2.0, 2.0, 10.0, 20, 200), Some(20));
    assert_eq!(map_u8(10.0, 2.0, 10.0, 20, 200), Some(200));
    assert_eq!(map_u8(6.0, 2.0, 10.0, 20, 200), Some(110));
    assert_eq!(map_u8(6.0, 10.0, 2.0, 20, 200), Some(110));
    assert_eq!(map_u8(4.0, 10.0, 2.0, 20, 200), Some(155));
    assert_eq!(map_u8(4.0, 2.0, 10.0, 200, 20), Some(155));
}

#[test]
fn mapping_asks_for_the_position_between_the_ends_only() {
    let nothing = (f(-1.0), f(-1.0), f(-1.0));
    let seen = std::cell::Cell::new(nothing);
    let watch = |value: F64, start: F64, end: F64| {
        seen.set((value, start, end));
        f(0.5)
    };
    assert_eq!(cube::math::map(f(3.0), f(2.0), f(10.0), 0u8, 200u8, &watch), Ok(100));
    assert_eq!(seen.get(), (f(3.0), f(2.0), f(10.0)));
    seen.set(nothing);
    assert_eq!(cube::math::map(f(9.0), f(10.0), f(2.0), 0u8, 200u8, &watch), Ok(100));
    assert_eq!(seen.get(), (f(9.0), f(10.0), f(2.0)));
    seen.set(nothing);
    // At an end and beyond it the answer is the end of the target.
    assert_eq!(cube::math::map(f(1000.0), f(2.0), f(10.0), 0u8, 200u8, &watch), Ok(200));
    assert_eq!(cube::math::map(f(10.0), f(2.0), f(10.0), 0u8, 200u8, &watch), Ok(200));
    assert_eq!(cube::math::map(f(2.0), f(2.0), f(10.0), 0u8, 200u8, &watch), Ok(0));
    assert_eq!(cube::math::map(f(-1000.0), f(2.0), f(10.0), 0u8, 200u8, &watch), Ok(0));
    assert_eq!(cube::math::map(f(-1000.0), f(10.0), f(2.0), 0u8, 200u8, &watch), Ok(200));
    assert_eq!(cube::math::map(f(1000.0), f(10.0), f(2.0), 0u8, 200u8, &watch), Ok(0));
    assert_eq!(
        cube::math::map(f(1.0), f(5.0), f(5.0), 0u8, 200u8, &watch),
        Err(DomainError::ZeroWidth)
    );
    assert_eq!(seen.get(), nothing);
}

#[test]
fn the_ends_of_a_range_map_exactly() {
    let ranges = [
        (0.0, 1.0),
        (1.0, 0.0),
        (-3.5, 1e300),
        (1e-310, 1e-300),
        (f64::MIN, f64::MAX),
        (f64::MAX, f64::MIN),
        (0.1, 0.7),
        (f64::NEG_INFINITY, f64::INFINITY),
    ];
    for (start, end) in ranges {
        for (to_start, to_end) in [(0i32, 1i32), (i32::MIN, i32::MAX), (17, -4), (5, 5)] {
            let at_start = cube::math::map(f(start), f(start), f(end), to_start, to_end, position);
            let at_end = cube::math::map(f(end), f(start), f(end), to_start, to_end, position);
            assert_eq!(at_start, Ok(to_start), "{} {}", start, end);
            assert_eq!(at_end, Ok(to_end), "{} {}", start, end);
        }
    }
}

#[test]
fn the_fraction_of_a_value_in_its_range() {
    assert_eq!(fraction(f(0.25), f(0.0), f(1.0), position), Ok(f(0.25)));
    assert_eq!(fraction(f(6.0), f(2.0), f(10.0), position), Ok(f(0.5)));
    assert_eq!(fraction(f(6.0), f(10.0), f(2.0), position), Ok(f(0.5)));
    assert_eq!(fraction(f(2.0), f(2.0), f(10.0), position), Ok(f(0.0)));
    assert_eq!(fraction(f(10.0), f(2.0), f(10.0), position), Ok(f(1.0)));
    assert_eq!(fraction(f(11.0), f(2.0), f(10.0), position), Ok(f(1.0)));
    assert_eq!(fraction(f(1.0), f(2.0), f(10.0), position), Ok(f(0.0)));
    assert_eq!(fraction(f(-0.0), f(0.0), f(10.0), position), Ok(f(0.0)));
    assert_eq!(fraction(f(3.0), f(5.0), f(5.0), position), Err(DomainError::ZeroWidth));
    // The width of this range is beyond the largest double; its ends are
    // exact all the same.
    assert_eq!(fraction(f(f64::MAX), f(f64::MIN), f(f64::MAX), position), Ok(f(1.0)));
    assert_eq!(fraction(f(f64::MIN), f(f64::MIN), f(f64::MAX), position), Ok(f(0.0)));
    assert_eq!(fraction(f(6.0), f(2.0), f(10.0), |_, _, _| f(0.125)), Ok(f(0.125)));
    assert_eq!(fraction(f(10.0), f(2.0), f(10.0), |_, _, _| f(0.125)), Ok(f(1.0)));
}

#[test]
fn mapping_onto_other_integers() {
    assert_eq!(cube::math::map(f(5.0), f(0.0), f(10.0), -100i32, 100i32, position), Ok(0));
    assert_eq!(cube::math::map(f(2.5), f(0.0), f(10.0), -100i32, 100i32, position), Ok(-50));
    assert_eq!(cube::math::map(f(2.5), f(10.0), f(0.0), -100i32, 100i32, position), Ok(50));
    assert_eq!(cube::math::map(f(0.5), f(0.0), f(1.0), 0u16, 1001u16, position), Ok(501));
    assert_eq!(cube::math::map(f(11.0), f(0.0), f(10.0), 7i8, -7i8, position), Ok(-7));
    // One half of the way from one to zero, in whole numbers, is a tie.
    assert_eq!(cube::math::map(f(0.5), f(0.0), f(1.0), 1u32, 0u32, position), Ok(1));
    assert_eq!(cube::math::map(f(f64::NAN), f(0.0), f(1.0), 3u8, 9u8, position), Ok(3));
}

#[test]
fn blending_integers() {
    assert_eq!(u8::interpolate(f(0.0), 10, 20), 10);
    assert_eq!(u8::interpolate(f(1.0), 10, 20), 20);
    assert_eq!(u8::interpolate(f(0.5), 10, 20), 15);
    assert_eq!(u8::interpolate(f(0.5), 0, 255), 128);
    assert_eq!(u8::interpolate(f(0.5), 255, 0), 128);
    assert_eq!(u8::interpolate(f(0.25), 0, 255), 64);
    assert_eq!(u8::interpolate(f(0.75), 0, 255), 191);
    assert_eq!(u8::interpolate(f(2.0), 10, 20), 20);
    assert_eq!(u8::interpolate(f(-2.0), 10, 20), 10);
    assert_eq!(u8::interpolate(f(-0.0), 10, 20), 10);
    assert_eq!(u8::interpolate(f(f64::INFINITY), 10, 20), 20);
    assert_eq!(u8::interpolate(f(f64::NEG_INFINITY), 10, 20), 10);
    assert_eq!(u8::interpolate(f(f64::NAN), 10, 20), 10);
    assert_eq!(u8::interpolate(f(5e-324), 10, 20), 10);
    assert_eq!(u8::interpolate(f(1e-30), 0, 255), 0);
    assert_eq!(u8::interpolate(F64::from_bits(1.0f64.to_bits() - 1), 0, 255), 255);

    assert_eq!(u16::interpolate(f(0.5), 0, 65535), 32768);
    assert_eq!(u32::interpolate(f(0.5), 0, u32::MAX), 2147483648);
    assert_eq!(u32::interpolate(f(1.0), 0, u32::MAX), u32::MAX);
    assert_eq!(u32::interpolate(f(0.5), u32::MAX, 0), 2147483648);

    // A tie goes away from zero on either side of it.
    assert_eq!(i8::interpolate(f(0.5), -1, 0), -1);
    assert_eq!(i8::interpolate(f(0.5), 0, 1), 1);
    assert_eq!(i8::interpolate(f(0.5), -128, 127), -1);
    assert_eq!(i16::interpolate(f(0.5), -3, 0), -2);
    assert_eq!(i16::interpolate(f(0.25), -2, 0), -2);
    assert_eq!(i16::interpolate(f(0.75), -2, 0), -1);
    assert_eq!(i32::interpolate(f(0.5), i32::MIN, i32::MAX), -1);
    assert_eq!(i32::interpolate(f(0.0), i32::MIN, i32::MAX), i32::MIN);
    assert_eq!(i32::interpolate(f(1.0), i32::MIN, i32::MAX), i32::MAX);
    assert_eq!(i32::interpolate(f(0.75), -100, 100), 50);

    assert_eq!(blend(f(0.5), 0, 0x1_0000_0000), 0x8000_0000);
    assert_eq!(blend(f(0.5), -0x1_0000_0000, 0x1_0000_0000), 0);
    assert_eq!(map_unit(f(0.5), 10u8, 20u8), 15);
    assert_eq!(map_unit(f(3.0), 10u8, 20u8), 20);
    assert_eq!(map_unit(f(-3.0), 10u8, 20u8), 10);
}

#[test]
fn blending_agrees_with_floating_point_on_exact_fractions() {
    for step in 0..=64u32 {
        let t = step as f64 / 64.0;
        for (start, end) in [(0u8, 255u8), (255, 0), (10, 20), (200, 13), (7, 7)] {
            let expected = (start as f64 + (end as f64 - start as f64) * t).round() as u8;
            assert_eq!(u8::interpolate(f(t), start, end), expected, "{} {} {}", t, start, end);
        }
        for (start, end) in [(-100i32, 100i32), (1000, -1000), (i32::MIN, i32::MAX)] {
            let expected = (start as f64 + (end as f64 - start as f64) * t).round() as i32;
            assert_eq!(i32::interpolate(f(t), start, end), expected, "{} {} {}", t, start, end);
        }
    }
}

#[test]
fn blending_keeps_the_order_of_fractions() {
    let mut last_up = 0u8;
    let mut last_down = 255u8;
    for step in 0..=1000u32 {
        let t = f(step as f64 / 1000.0);
        let up = u8::interpolate(t, 0, 255);
        let down = u8::interpolate(t, 255, 0);
        assert!(last_up <= up);
        assert!(down <= last_down);
        last_up = up;
        last_down = down;
    }
    assert_eq!(last_up, 255);
    assert_eq!(last_down, 0);
}

#[test]
fn rounding_to_a_channel() {
    for x in [
        0.0, -0.0, 0.25, 0.49999999, 0.5, 0.75, 1.0, 1.5, 2.5, 126.5, 127.4999, 127.5, 200.0,
        254.4999, 254.5, 255.0, 255.5, 256.0, 1e10, -0.5, -1.0, -1e10, 5e-324, 1e-300,
    ] {
        assert_eq!(round_to_u8(f(x)), x.round() as u8, "{}", x);
    }
    assert_eq!(round_to_u8(f(f64::NAN)), 0);
    assert_eq!(round_to_u8(f(f64::INFINITY)), 255);
    assert_eq!(round_to_u8(f(f64::NEG_INFINITY)), 0);
    for whole in 0..=255u32 {
        assert_eq!(round_to_u8(f(whole as f64)) as u32, whole);
        assert_eq!(round_to_u8(f(whole as f64 + 0.25)) as u32, whole);
        assert_eq!(round_to_u8(f(whole as f64 + 0.5)) as u32, (whole + 1).min(255));
    }
}

#[test]
fn the_parts_of_a_double() {
    assert_eq!(f(1.0).significand_bits(), 1 << 52);
    assert_eq!(f(1.0).binary_places(), 52);
    assert_eq!(f(0.5).significand_bits(), 1 << 52);
    assert_eq!(f(0.5).binary_places(), 53);
    assert_eq!(f(0.75).significand_bits(), 3 << 51);
    assert_eq!(f(0.75).binary_places(), 53);
    assert_eq!(f(-3.0).significand_bits(), 3 << 51);
    assert_eq!(f(-3.0).binary_places(), 51);
    assert_eq!(f(5e-324).significand_bits(), 1);
    assert_eq!(f(5e-324).binary_places(), 1074);
    assert_eq!(f(0.0).significand_bits(), 0);
    assert_eq!(f(f64::MAX).binary_places(), -971);
    assert!(f(0.5).less(f(0.75)));
}

#[test]
fn clamping_is_tolerant() {
    let lo = f(1.0);
    let hi = f(2.0);
    assert_eq!(f(1.5).safe_clamp(lo, hi), f(1.5));
    assert_eq!(f(0.0).safe_clamp(lo, hi), lo);
    assert_eq!(f(3.0).safe_clamp(lo, hi), hi);
    assert_eq!(f(1.5).safe_clamp(hi, lo), f(1.5));
    assert_eq!(f(0.0).safe_clamp(hi, lo), lo);
    assert_eq!(f(3.0).safe_clamp(hi, lo), hi);
    // One step inside a bound is taken for the bound.
    assert_eq!(lo.next().safe_clamp(lo, hi), lo);
    assert_eq!(hi.prev().safe_clamp(lo, hi), hi);
    assert_eq!(lo.next().next().safe_clamp(lo, hi), lo.next().next());
    assert_eq!(hi.prev().prev().safe_clamp(lo, hi), hi.prev().prev());
    assert!(f(f64::NAN).safe_clamp(lo, hi).is_nan());
    assert_eq!(f(1.5).safe_clamp(f(f64::NAN), hi), f(1.5));
    assert_eq!(f(f64::INFINITY).safe_clamp(lo, hi), hi);
    assert_eq!(f(f64::NEG_INFINITY).safe_clamp(lo, hi), lo);
    // Infinity, one step beyond the largest finite bound, is neither
    // tolerantly equal to it nor tolerantly beyond it.
    assert_eq!(f(f64::INFINITY).safe_clamp(lo, f(f64::MAX)), f(f64::INFINITY));
    assert_eq!(f(f64::INFINITY).safe_clamp(lo, f(f64::MAX).prev()), f(f64::MAX).prev());
}
