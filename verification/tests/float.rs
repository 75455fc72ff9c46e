use cube::math::float::{FloatBits, FloatExt, F32, F64};
use ieee754::Ieee754;

fn d(x: f64) -> F64 {
    F64::from_bits(x.to_bits())
}

fn s(x: f32) -> F32 {
    F32::from_bits(x.to_bits())
}

#[test]
fn is_equal() {
    assert!(d(0f64).safe_eq(d(0f64)));
    assert!(d(1.0f64).safe_eq(d(1.0f64.next())));
    assert!(d(1.0f64).safe_eq(d(1.0f64.prev())));
    assert!(d(0.0000000001f64).safe_eq(d(0.0000000001f64.next())));
    assert!(d(0.0000000001f64).safe_eq(d(0.0000000001f64.prev())));
    assert!(d(1000000000.0f64).safe_eq(d(1000000000.0f64.next())));
    assert!(d(1000000000.0f64).safe_eq(d(1000000000.0f64.prev())));
    assert!(!d(1.0f64).safe_eq(d(1.0f64.next().next())));
    assert!(!d(1.0f64).safe_eq(d(1.0f64.prev().prev())));
    assert!(d(f64::MIN).safe_eq(d(f64::MIN)));
    assert!(d(f64::MAX).safe_eq(d(f64::MAX)));
    assert!(!d(f64::MIN).safe_eq(d(f64::MAX)));
    assert!(!d(f64::MAX).safe_eq(d(f64::MIN)));
    assert_eq!(d(f64::INFINITY).safe_eq(d(f64::INFINITY)), f64::INFINITY == f64::INFINITY);
    assert_eq!(
        d(f64::INFINITY).safe_eq(d(f64::NEG_INFINITY)),
        f64::INFINITY == f64::NEG_INFINITY
    );
    assert_eq!(
        d(f64::NEG_INFINITY).safe_eq(d(f64::NEG_INFINITY)),
        f64::NEG_INFINITY == f64::NEG_INFINITY
    );
    assert_eq!(
        d(f64::NEG_INFINITY).safe_eq(d(f64::INFINITY)),
        f64::INFINITY == f64::NEG_INFINITY
    );
    assert_eq!(d(f64::NAN).safe_eq(d(f64::NAN)), f64::NAN == f64::NAN);

    assert!(s(0f32).safe_eq(s(0f32)));
    assert!(s(1.0f32).safe_eq(s(1.0f32.next())));
    assert!(s(1.0f32).safe_eq(s(1.0f32.prev())));
    assert!(s(0.0000000001f32).safe_eq(s(0.0000000001f32.next())));
    assert!(s(0.0000000001f32).safe_eq(s(0.0000000001f32.prev())));
    assert!(s(1000000000.0f32).safe_eq(s(1000000000.0f32.next())));
    assert!(s(1000000000.0f32).safe_eq(s(1000000000.0f32.prev())));
    assert!(!s(1.0f32).safe_eq(s(1.0f32.next().next())));
    assert!(!s(1.0f32).safe_eq(s(1.0f32.prev().prev())));
    assert!(s(f32::MIN).safe_eq(s(f32::MIN)));
    assert!(s(f32::MAX).safe_eq(s(f32::MAX)));
    assert!(!s(f32::MIN).safe_eq(s(f32::MAX)));
    assert!(!s(f32::MAX).safe_eq(s(f32::MIN)));
    assert_eq!(s(f32::INFINITY).safe_eq(s(f32::INFINITY)), f32::INFINITY == f32::INFINITY);
    assert_eq!(
        s(f32::INFINITY).safe_eq(s(f32::NEG_INFINITY)),
        f32::INFINITY == f32::NEG_INFINITY
    );
    assert_eq!(
        s(f32::NEG_INFINITY).safe_eq(s(f32::NEG_INFINITY)),
        f32::NEG_INFINITY == f32::NEG_INFINITY
    );
    assert_eq!(
        s(f32::NEG_INFINITY).safe_eq(s(f32::INFINITY)),
        f32::INFINITY == f32::NEG_INFINITY
    );
    assert_eq!(s(f32::NAN).safe_eq(s(f32::NAN)), f32::NAN == f32::NAN);

    let lhs: f32 = 0.35;
    let rhs: f32 = 0.20 + 0.15;
    assert_ne!(lhs, rhs);
    assert!(s(lhs).safe_eq(s(rhs)));
}

#[test]
fn next_and_prev_agree_with_the_float_crate() {
    let samples = [
        0.0f64,
        -0.0,
        1.0,
        -1.0,
        0.35,
        1e-310,
        -1e-310,
        f64::MIN_POSITIVE,
        -f64::MIN_POSITIVE,
        5e-324,
        -5e-324,
        1e300,
        -1e300,
        f64::MAX,
        f64::MIN,
    ];
    for x in samples {
        assert_eq!(d(x).next(), d(x.next()));
        assert_eq!(d(x).prev(), d(x.prev()));
    }
    assert_eq!(d(f64::NEG_INFINITY).next(), d(f64::NEG_INFINITY.next()));
    assert_eq!(d(f64::INFINITY).prev(), d(f64::INFINITY.prev()));
    assert_eq!(d(f64::MAX).next(), d(f64::INFINITY));
    assert_eq!(d(f64::MIN).prev(), d(f64::NEG_INFINITY));
    let singles = [0.0f32, -0.0, 1.0, -1.0, 0.35, 1e-40, -1e-40, f32::MAX, f32::MIN];
    for x in singles {
        assert_eq!(s(x).next(), s(x.next()));
        assert_eq!(s(x).prev(), s(x.prev()));
    }
}

#[test]
fn every_number_equals_itself() {
    for x in [0.0, -0.0, 1.0, -1.0, 0.35, 5e-324, f64::MAX, f64::MIN, f64::INFINITY] {
        assert!(d(x).safe_eq(d(x)));
        assert!(d(x).safe_le(d(x)));
        assert!(d(x).safe_ge(d(x)));
        assert!(!d(x).safe_lt(d(x)));
        assert!(!d(x).safe_gt(d(x)));
    }
    assert!(d(0.0).safe_eq(d(-0.0)));
    assert!(d(-0.0).safe_eq(d(0.0)));
}

#[test]
fn one_step_is_equal_and_two_steps_are_not() {
    for x in [0.0, -0.0, 1.0, -1.0, 0.35, 5e-324, -5e-324, 1e300, -1e300] {
        let a = d(x);
        assert!(a.safe_eq(a.next()));
        assert!(a.next().safe_eq(a));
        assert!(a.safe_eq(a.prev()));
        assert!(!a.safe_eq(a.next().next()));
        assert!(!a.safe_eq(a.prev().prev()));
        assert!(!a.safe_lt(a.next()));
        assert!(a.safe_lt(a.next().next()));
        assert!(a.safe_le(a.next()));
        assert!(a.safe_le(a.prev()));
        assert!(!a.safe_le(a.prev().prev()));
        assert!(a.safe_gt(a.prev().prev()));
        assert!(!a.safe_gt(a.prev()));
        assert!(a.safe_ge(a.next()));
        assert!(!a.safe_ge(a.next().next()));
    }
}

#[test]
fn infinities_and_what_is_no_number() {
    let inf = d(f64::INFINITY);
    let neg = d(f64::NEG_INFINITY);
    let nan = d(f64::NAN);
    let max = d(f64::MAX);
    assert!(inf.safe_eq(inf));
    assert!(neg.safe_eq(neg));
    assert!(!inf.safe_eq(neg));
    assert!(!neg.safe_eq(inf));
    assert!(!nan.safe_eq(nan));
    // An infinity equals nothing but itself, from either side.
    assert!(!inf.safe_eq(max));
    assert!(!max.safe_eq(inf));
    assert!(!neg.safe_eq(d(f64::MIN)));
    assert!(!d(f64::MIN).safe_eq(neg));
    assert!(neg.safe_lt(inf));
    assert!(inf.safe_gt(neg));
    assert!(!inf.safe_lt(inf));
    assert!(max.prev().safe_lt(inf));
    assert!(!max.safe_lt(inf));
    for other in [d(0.0), inf, neg, nan, max] {
        assert!(!nan.safe_eq(other));
        assert!(!other.safe_eq(nan));
        assert!(!nan.safe_lt(other));
        assert!(!other.safe_lt(nan));
        assert!(!nan.safe_gt(other));
        assert!(!other.safe_gt(nan));
        assert!(!nan.safe_le(other));
        assert!(!other.safe_ge(nan));
    }
    assert!(nan.is_nan());
    assert!(!inf.is_nan());
    assert!(inf.is_infinite());
    assert!(neg.is_infinite());
    assert!(!max.is_infinite());
    assert!(!nan.is_infinite());
    assert_eq!(inf.next(), inf);
    assert_eq!(neg.prev(), neg);
    assert_eq!(nan.next(), nan);
    assert_eq!(nan.prev(), nan);
    let other_nan = F64::from_bits(0xffff_ffff_ffff_ffff);
    assert_eq!(other_nan.next(), other_nan);
    assert!(other_nan.is_nan());
    assert!(F32::from_bits(0x7fc0_0000).is_nan());
    assert!(F32::from_bits(0x7f80_0000).is_infinite());
}

#[test]
fn comparisons_agree_with_the_hardware() {
    let samples = [
        f64::NEG_INFINITY,
        f64::MIN,
        -1.0,
        -5e-324,
        -0.0,
        0.0,
        5e-324,
        0.35,
        1.0,
        f64::MAX,
        f64::INFINITY,
        f64::NAN,
    ];
    for a in samples {
        for b in samples {
            assert_eq!(d(a).less(d(b)), a < b, "{} < {}", a, b);
            assert_eq!(d(a).less_eq(d(b)), a <= b, "{} <= {}", a, b);
            assert_eq!(d(a).greater(d(b)), a > b, "{} > {}", a, b);
            assert_eq!(d(a).greater_eq(d(b)), a >= b, "{} >= {}", a, b);
            assert_eq!(d(a).equals(d(b)), a == b, "{} == {}", a, b);
        }
        assert_eq!(d(a).is_nan(), a.is_nan());
        assert_eq!(d(a).is_infinite(), a.is_infinite());
        assert_eq!(d(a).to_bits(), a.to_bits());
    }
    let singles = [f32::NEG_INFINITY, f32::MIN, -1.0, -0.0, 0.0, 1e-40, 1.0, f32::MAX, f32::NAN];
    for a in singles {
        for b in singles {
            assert_eq!(s(a).less(s(b)), a < b, "{} < {}", a, b);
            assert_eq!(s(a).less_eq(s(b)), a <= b, "{} <= {}", a, b);
            assert_eq!(s(a).equals(s(b)), a == b, "{} == {}", a, b);
        }
        assert_eq!(s(a).is_nan(), a.is_nan());
        assert_eq!(s(a).is_infinite(), a.is_infinite());
    }
}

#[test]
fn infinities_are_told_as_the_numeric_traits_tell_them() {
    let doubles = [0.0, -0.0, 1.0, f64::MAX, f64::MIN, f64::INFINITY, f64::NEG_INFINITY, f64::NAN];
    for x in doubles {
        assert_eq!(d(x).is_infinite(), num_traits::Float::is_infinite(x));
        assert_eq!(d(x).is_nan(), num_traits::Float::is_nan(x));
    }
    let singles = [0.0, -0.0, 1.0, f32::MAX, f32::MIN, f32::INFINITY, f32::NEG_INFINITY, f32::NAN];
    for x in singles {
        assert_eq!(s(x).is_infinite(), num_traits::Float::is_infinite(x));
        assert_eq!(s(x).is_nan(), num_traits::Float::is_nan(x));
    }
}
