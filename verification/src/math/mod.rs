//! Mapping a value from one range onto another.
//!
//! A mapping has three steps. The value is confined to its source range. Its
//! position in that range, the quotient of two differences, is a fraction
//! between zero and one. The target endpoints are blended at that fraction.
//! The quotient is floating-point arithmetic: `map` is handed a function
//! that computes it, and asks it only between the ends of the source range.
//! On the unit range the position of a value is the value itself, and
//! `map_unit` needs none.

pub mod float;
pub mod interpolate;
pub mod round;

use crate::math::float::{
    beside_infinity, eq_spec, finite, le_spec, lemma_safe_clamp_monotonic,
    lemma_safe_clamp_within, lower_bound, lt_spec, safe_clamp_spec, safe_eq_spec, upper_bound,
    FloatBits, FloatExt, FloatModel, F64, F64_ONE,
};
use crate::math::interpolate::{
    blend_spec, lemma_blend_bounded, lemma_blend_monotonic, Interpolate,
};
use vstd::prelude::*;

verus! {

/// Why a value cannot be mapped.
#[derive(Clone, Copy, Debug, PartialEq, Eq, Structural)]
pub enum DomainError {
    /// The two ends of the source range are tolerantly equal, so a position
    /// in the range would be a division by zero.
    ZeroWidth,
}

/// What `locate` returns: an error for a source range of zero width, else
/// the value confined to the range.
pub open spec fn locate_spec(value: F64, from_start: F64, from_end: F64) -> Result<
    F64,
    DomainError,
> {
    if safe_eq_spec(from_start, from_end) {
        Err(DomainError::ZeroWidth)
    } else {
        Ok(safe_clamp_spec(value, from_start, from_end))
    }
}

/// Checks the source range and confines `value` to it. The range may
/// descend. What is returned lies in the range, so its position there is a
/// fraction from zero to one: nothing is extrapolated.
pub fn locate(value: F64, from_start: F64, from_end: F64) -> (r: Result<F64, DomainError>)
    ensures
        r == locate_spec(value, from_start, from_end),
{
    if from_start.safe_eq(from_end) {
        return Err(DomainError::ZeroWidth);
    }
    Ok(value.safe_clamp(from_start, from_end))
}

/// Whether `position` returns what `quotient` says, on every input.
pub open spec fn computes<Q: Fn(F64, F64, F64) -> F64>(
    position: Q,
    quotient: spec_fn(F64, F64, F64) -> F64,
) -> bool {
    forall|v: F64, s: F64, e: F64, t: F64| #[trigger]
        call_ensures(position, (v, s, e), t) ==> t == quotient(v, s, e)
}

/// The fraction at which `value` lies in a source range of some width:
/// zero where the confined value is the start of the range, one where it is
/// the end, and between the ends what `quotient` gives.
pub open spec fn fraction_spec(
    quotient: spec_fn(F64, F64, F64) -> F64,
    value: F64,
    from_start: F64,
    from_end: F64,
) -> F64 {
    let v = safe_clamp_spec(value, from_start, from_end);
    if eq_spec(v, from_start) {
        F64 { bits: 0 }
    } else if eq_spec(v, from_end) {
        F64 { bits: F64_ONE }
    } else {
        quotient(v, from_start, from_end)
    }
}

/// The position of `value` in the source range, as a fraction.
///
/// The value is confined to the range. At the start of the range the
/// fraction is zero and at the end it is one, exactly and without a
/// division. Between the ends `position` is asked: it takes the confined
/// value and the two ends, and is to return the quotient of the value less
/// the start by the end less the start, in double precision. A source range
/// of zero width is refused before anything is divided.
pub fn fraction<Q: Fn(F64, F64, F64) -> F64>(
    value: F64,
    from_start: F64,
    from_end: F64,
    position: Q,
) -> (r: Result<F64, DomainError>)
    requires
        forall|v: F64, s: F64, e: F64| call_requires(position, (v, s, e)),
    ensures
        r is Err <==> safe_eq_spec(from_start, from_end),
        r is Err ==> r == Err::<F64, DomainError>(DomainError::ZeroWidth),
        r is Ok ==> ({
            let v = safe_clamp_spec(value, from_start, from_end);
            let t = r->Ok_0;
            if eq_spec(v, from_start) {
                t == (F64 { bits: 0 })
            } else if eq_spec(v, from_end) {
                t == (F64 { bits: F64_ONE })
            } else {
                call_ensures(position, (v, from_start, from_end), t)
            }
        }),
        forall|quotient: spec_fn(F64, F64, F64) -> F64|
            computes(position, quotient) && r is Ok ==> r->Ok_0 == fraction_spec(
                quotient,
                value,
                from_start,
                from_end,
            ),
{
    match locate(value, from_start, from_end) {
        Err(e) => Err(e),
        Ok(v) => {
            if v.equals(from_start) {
                Ok(F64 { bits: 0 })
            } else if v.equals(from_end) {
                Ok(F64 { bits: F64_ONE })
            } else {
                Ok(position(v, from_start, from_end))
            }
        },
    }
}

/// What `map` returns where `quotient` is what its `position` computes.
pub open spec fn map_spec<T: Interpolate>(
    quotient: spec_fn(F64, F64, F64) -> F64,
    value: F64,
    from_start: F64,
    from_end: F64,
    to_start: T,
    to_end: T,
) -> Result<T, DomainError> {
    if safe_eq_spec(from_start, from_end) {
        Err(DomainError::ZeroWidth)
    } else {
        Ok(
            T::interpolate_spec(
                fraction_spec(quotient, value, from_start, from_end),
                to_start,
                to_end,
            ),
        )
    }
}

/// Maps `value` from the source range onto the target range.
///
/// The target endpoints are blended at the `fraction` at which the value
/// lies in the source range. The start of the source range maps to
/// `to_start` and its end to `to_end`, exactly, whatever `position` is; a
/// value beyond an end maps as that end does.
pub fn map<T: Interpolate, Q: Fn(F64, F64, F64) -> F64>(
    value: F64,
    from_start: F64,
    from_end: F64,
    to_start: T,
    to_end: T,
    position: Q,
) -> (r: Result<T, DomainError>)
    requires
        forall|v: F64, s: F64, e: F64| call_requires(position, (v, s, e)),
    ensures
        r is Err <==> safe_eq_spec(from_start, from_end),
        r is Err ==> r == Err::<T, DomainError>(DomainError::ZeroWidth),
        r is Ok ==> ({
            let v = safe_clamp_spec(value, from_start, from_end);
            if eq_spec(v, from_start) {
                r->Ok_0 == to_start
            } else if eq_spec(v, from_end) {
                r->Ok_0 == to_end
            } else {
                exists|t: F64|
                    call_ensures(position, (v, from_start, from_end), t) && r->Ok_0
                        == T::interpolate_spec(t, to_start, to_end)
            }
        }),
        forall|quotient: spec_fn(F64, F64, F64) -> F64|
            computes(position, quotient) ==> r == map_spec(
                quotient,
                value,
                from_start,
                from_end,
                to_start,
                to_end,
            ),
{
    match fraction(value, from_start, from_end, position) {
        Err(e) => Err(e),
        Ok(t) => {
            proof {
                T::lemma_ends(t, to_start, to_end);
            }
            Ok(T::interpolate(t, to_start, to_end))
        },
    }
}

/// A mapping is exact at both ends of the source range, whatever the
/// quotient is.
pub proof fn lemma_map_ends<T: Interpolate>(
    quotient: spec_fn(F64, F64, F64) -> F64,
    from_start: F64,
    from_end: F64,
    to_start: T,
    to_end: T,
)
    requires
        !from_start.nan(),
        !from_end.nan(),
        !safe_eq_spec(from_start, from_end),
    ensures
        map_spec(quotient, from_start, from_start, from_end, to_start, to_end) == Ok::<
            T,
            DomainError,
        >(to_start),
        map_spec(quotient, from_end, from_start, from_end, to_start, to_end) == Ok::<
            T,
            DomainError,
        >(to_end),
{
    lemma_locate_endpoints(from_start, from_end);
    T::lemma_ends(F64 { bits: 0 }, to_start, to_end);
    T::lemma_ends(F64 { bits: F64_ONE }, to_start, to_end);
}

/// A value at or beyond an end of the source range maps to the end of the
/// target range that belongs to it, whatever the quotient is: nothing is
/// extrapolated. The one exception is a value exactly one rank beyond the
/// end where the value or the end is an infinity.
pub proof fn lemma_map_beyond<T: Interpolate>(
    quotient: spec_fn(F64, F64, F64) -> F64,
    value: F64,
    from_start: F64,
    from_end: F64,
    to_start: T,
    to_end: T,
)
    requires
        !from_start.nan(),
        !from_end.nan(),
        !safe_eq_spec(from_start, from_end),
    ensures
        le_spec(from_end, value) && lt_spec(from_start, from_end) && !beside_infinity(
            value,
            from_end,
        ) ==> map_spec(quotient, value, from_start, from_end, to_start, to_end) == Ok::<
            T,
            DomainError,
        >(to_end),
        le_spec(value, from_start) && lt_spec(from_start, from_end) && !beside_infinity(
            value,
            from_start,
        ) ==> map_spec(quotient, value, from_start, from_end, to_start, to_end) == Ok::<
            T,
            DomainError,
        >(to_start),
        le_spec(value, from_end) && lt_spec(from_end, from_start) && !beside_infinity(
            value,
            from_end,
        ) ==> map_spec(quotient, value, from_start, from_end, to_start, to_end) == Ok::<
            T,
            DomainError,
        >(to_end),
        le_spec(from_start, value) && lt_spec(from_end, from_start) && !beside_infinity(
            value,
            from_start,
        ) ==> map_spec(quotient, value, from_start, from_end, to_start, to_end) == Ok::<
            T,
            DomainError,
        >(to_start),
{
    lemma_locate_beyond(value, from_start, from_end);
    from_start.lemma_ranks();
    from_end.lemma_ranks();
    T::lemma_ends(F64 { bits: 0 }, to_start, to_end);
    T::lemma_ends(F64 { bits: F64_ONE }, to_start, to_end);
}

/// A mapping from an ascending finite range onto an ascending range of
/// integers keeps the order of two values, for every quotient that keeps
/// the order of two values between the ends of the source range.
pub proof fn lemma_map_monotonic(
    quotient: spec_fn(F64, F64, F64) -> F64,
    a: F64,
    b: F64,
    from_start: F64,
    from_end: F64,
    to_start: int,
    to_end: int,
)
    requires
        le_spec(a, b),
        finite(from_start),
        finite(from_end),
        lt_spec(from_start, from_end),
        to_start <= to_end,
        forall|v: F64, w: F64|
            lt_spec(from_start, v) && le_spec(v, w) && lt_spec(w, from_end) ==> le_spec(
                #[trigger] quotient(v, from_start, from_end),
                #[trigger] quotient(w, from_start, from_end),
            ),
        !beside_infinity(a, from_start),
        !beside_infinity(a, from_end),
        !beside_infinity(b, from_start),
        !beside_infinity(b, from_end),
    ensures
        blend_spec(fraction_spec(quotient, a, from_start, from_end), to_start, to_end)
            <= blend_spec(fraction_spec(quotient, b, from_start, from_end), to_start, to_end),
{
    let ta = fraction_spec(quotient, a, from_start, from_end);
    let tb = fraction_spec(quotient, b, from_start, from_end);
    lemma_safe_clamp_monotonic(a, b, from_start, from_end);
    lemma_safe_clamp_within(a, from_start, from_end);
    lemma_safe_clamp_within(b, from_start, from_end);
    lemma_blend_bounded(ta, to_start, to_end);
    lemma_blend_bounded(tb, to_start, to_end);
    let v = safe_clamp_spec(a, from_start, from_end);
    let w = safe_clamp_spec(b, from_start, from_end);
    if !eq_spec(v, from_start) && !eq_spec(v, from_end) && !eq_spec(w, from_start) && !eq_spec(
        w,
        from_end,
    ) {
        lemma_blend_monotonic(ta, tb, to_start, to_end);
    }
}

/// The fraction that stands for `value` on the unit range: `value`
/// confined to the range from zero to one.
pub open spec fn unit_fraction(value: F64) -> F64 {
    safe_clamp_spec(value, F64 { bits: 0 }, F64 { bits: F64_ONE })
}

/// Maps `value` from the range from zero to one onto the range from
/// `to_start` to `to_end`.
pub fn map_unit<T: Interpolate>(value: F64, to_start: T, to_end: T) -> (r: T)
    ensures
        r == T::interpolate_spec(unit_fraction(value), to_start, to_end),
{
    let t = value.safe_clamp(F64 { bits: 0 }, F64 { bits: F64_ONE });
    T::interpolate(t, to_start, to_end)
}

/// Each end of a source range is located at itself.
pub proof fn lemma_locate_endpoints(from_start: F64, from_end: F64)
    requires
        !from_start.nan(),
        !from_end.nan(),
        !safe_eq_spec(from_start, from_end),
    ensures
        locate_spec(from_start, from_start, from_end) == Ok::<F64, DomainError>(from_start),
        locate_spec(from_end, from_start, from_end) == Ok::<F64, DomainError>(from_end),
{
    from_start.lemma_ranks();
    from_end.lemma_ranks();
}

/// A value at or beyond an end of the source range is located at that end:
/// it is not carried further. The one exception is a value exactly one rank
/// beyond the end where the value or the end is an infinity.
pub proof fn lemma_locate_beyond(value: F64, from_start: F64, from_end: F64)
    requires
        !from_start.nan(),
        !from_end.nan(),
        !safe_eq_spec(from_start, from_end),
    ensures
        le_spec(upper_bound(from_start, from_end), value) && !beside_infinity(
            value,
            upper_bound(from_start, from_end),
        ) ==> locate_spec(value, from_start, from_end) == Ok::<F64, DomainError>(
            upper_bound(from_start, from_end),
        ),
        le_spec(value, lower_bound(from_start, from_end)) && !beside_infinity(
            value,
            lower_bound(from_start, from_end),
        ) ==> locate_spec(value, from_start, from_end) == Ok::<F64, DomainError>(
            lower_bound(from_start, from_end),
        ),
{
    value.lemma_ranks();
    from_start.lemma_ranks();
    from_end.lemma_ranks();
}

/// A source range of zero width is refused for every value, and no other
/// range is.
pub proof fn lemma_locate_fails(value: F64, from_start: F64, from_end: F64)
    ensures
        locate_spec(value, from_start, from_end) is Err <==> safe_eq_spec(from_start, from_end),
        from_start.bits == from_end.bits && !from_start.nan() ==> locate_spec(
            value,
            from_start,
            from_end,
        ) == Err::<F64, DomainError>(DomainError::ZeroWidth),
{
}

/// What is located in a finite source range lies between its ends, for
/// every value but a NaN.
pub proof fn lemma_locate_within(value: F64, from_start: F64, from_end: F64)
    requires
        !value.nan(),
        finite(from_start),
        finite(from_end),
        !safe_eq_spec(from_start, from_end),
        !beside_infinity(value, from_start),
        !beside_infinity(value, from_end),
    ensures
        locate_spec(value, from_start, from_end) is Ok,
        le_spec(
            lower_bound(from_start, from_end),
            locate_spec(value, from_start, from_end)->Ok_0,
        ),
        le_spec(
            locate_spec(value, from_start, from_end)->Ok_0,
            upper_bound(from_start, from_end),
        ),
{
    value.lemma_ranks();
    from_start.lemma_ranks();
    from_end.lemma_ranks();
}

/// The fraction that stands for a value on the unit range lies between zero
/// and one, for every value but a NaN, and is zero or one for a value at or
/// beyond that end.
pub proof fn lemma_unit_fraction(value: F64)
    requires
        !value.nan(),
    ensures
        0 <= unit_fraction(value).rank() <= F64_ONE,
        !unit_fraction(value).nan(),
        value.rank() <= 0 ==> unit_fraction(value) == (F64 { bits: 0 }),
        value.rank() >= F64_ONE ==> unit_fraction(value) == (F64 { bits: F64_ONE }),
{
}

} // verus!
