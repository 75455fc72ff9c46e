//! Tolerant comparison of binary floating-point values, on their bit patterns.
//!
//! A value is held as the unsigned word that encodes it: sign bit, biased
//! exponent, fraction. Every operation here is integer arithmetic on that
//! word, so the comparisons behave the same on every machine.

use vstd::prelude::*;

verus! {

/// The mathematical model of a binary floating-point format.
///
/// A pattern is modelled by two facts: whether it is a NaN, and, if it is not,
/// its rank. Ranks number the values of a format in ascending order: both
/// zeros have rank 0, the smallest positive subnormal has rank 1, the largest
/// finite value has rank `top() - 1` and positive infinity has rank `top()`.
/// Negative values mirror the positive ones.
pub trait FloatModel: Copy + Sized {
    /// Whether the pattern is a NaN.
    spec fn nan(self) -> bool;

    /// Position of the value among all values of the format.
    spec fn rank(self) -> int;

    /// Rank of positive infinity.
    spec fn top() -> int;

    /// The next value above: one rank up. NaN and positive infinity have
    /// none and stay as they are. The value above the largest negative one is
    /// positive zero.
    spec fn succ(self) -> Self;

    /// The next value below: one rank down. NaN and negative infinity have
    /// none and stay as they are. The value below the smallest positive one is
    /// positive zero.
    spec fn pred(self) -> Self;

    /// The facts about ranks that hold in every format.
    proof fn lemma_ranks(self)
        ensures
            Self::top() >= 2,
            !self.nan() ==> -Self::top() <= self.rank() <= Self::top(),
            self.succ().nan() == self.nan(),
            self.pred().nan() == self.nan(),
            !self.nan() ==> self.succ().rank() == if self.rank() < Self::top() {
                self.rank() + 1
            } else {
                self.rank()
            },
            !self.nan() ==> self.pred().rank() == if self.rank() > -Self::top() {
                self.rank() - 1
            } else {
                self.rank()
            },
    ;
}

/// Whether the pattern is one of the two infinities.
pub open spec fn infinite<T: FloatModel>(a: T) -> bool {
    !a.nan() && (a.rank() == T::top() || a.rank() == -T::top())
}

/// Whether the pattern is neither a NaN nor an infinity.
pub open spec fn finite<T: FloatModel>(a: T) -> bool {
    !a.nan() && -T::top() < a.rank() < T::top()
}

/// IEEE-754 `==`: false on a NaN, and the two zeros are equal.
pub open spec fn eq_spec<T: FloatModel>(a: T, b: T) -> bool {
    !a.nan() && !b.nan() && a.rank() == b.rank()
}

/// IEEE-754 `<`: false on a NaN.
pub open spec fn lt_spec<T: FloatModel>(a: T, b: T) -> bool {
    !a.nan() && !b.nan() && a.rank() < b.rank()
}

/// IEEE-754 `<=`: false on a NaN.
pub open spec fn le_spec<T: FloatModel>(a: T, b: T) -> bool {
    !a.nan() && !b.nan() && a.rank() <= b.rank()
}

/// Tolerant equality: neither is a NaN, and the two are at most one rank
/// apart. An infinity equals only itself.
pub open spec fn safe_eq_spec<T: FloatModel>(a: T, b: T) -> bool {
    &&& !a.nan()
    &&& !b.nan()
    &&& if infinite(a) || infinite(b) {
        a.rank() == b.rank()
    } else {
        a.rank() - 1 <= b.rank() <= a.rank() + 1
    }
}

/// Tolerant `<`: `a` is below `b` by more than one rank.
pub open spec fn safe_lt_spec<T: FloatModel>(a: T, b: T) -> bool {
    !a.nan() && !b.nan() && a.rank() + 1 < b.rank()
}

/// Tolerant `>`: `a` is above `b` by more than one rank.
pub open spec fn safe_gt_spec<T: FloatModel>(a: T, b: T) -> bool {
    !a.nan() && !b.nan() && a.rank() - 1 > b.rank()
}

/// Tolerant `<=`: tolerantly less or tolerantly equal.
pub open spec fn safe_le_spec<T: FloatModel>(a: T, b: T) -> bool {
    safe_lt_spec(a, b) || safe_eq_spec(a, b)
}

/// Tolerant `>=`: tolerantly greater or tolerantly equal.
pub open spec fn safe_ge_spec<T: FloatModel>(a: T, b: T) -> bool {
    safe_gt_spec(a, b) || safe_eq_spec(a, b)
}

/// Whether two values are exactly one rank apart and one of them is an
/// infinity. Such a pair is tolerantly neither equal nor ordered.
pub open spec fn beside_infinity<T: FloatModel>(a: T, b: T) -> bool {
    &&& infinite(a) || infinite(b)
    &&& a.rank() + 1 == b.rank() || b.rank() + 1 == a.rank()
}

/// The smaller of two bounds; the first where neither is below the other.
pub open spec fn lower_bound<T: FloatModel>(a: T, b: T) -> T {
    if lt_spec(b, a) {
        b
    } else {
        a
    }
}

/// The larger of two bounds; the second where neither is below the other.
pub open spec fn upper_bound<T: FloatModel>(a: T, b: T) -> T {
    if lt_spec(b, a) {
        a
    } else {
        b
    }
}

/// Tolerant clamp between two bounds given in either order: the smaller
/// bound where `value` is tolerantly at or below it, else the larger bound
/// where `value` is tolerantly at or above it, else `value`.
pub open spec fn safe_clamp_spec<T: FloatModel>(value: T, a: T, b: T) -> T {
    if safe_le_spec(value, lower_bound(a, b)) {
        lower_bound(a, b)
    } else if safe_ge_spec(value, upper_bound(a, b)) {
        upper_bound(a, b)
    } else {
        value
    }
}

/// The operations of a format on its bit patterns.
pub trait FloatBits: FloatModel {
    /// Whether the pattern is a NaN.
    fn is_nan(self) -> (r: bool)
        ensures
            r == self.nan(),
    ;

    /// Whether the pattern is one of the two infinities.
    fn is_infinite(self) -> (r: bool)
        ensures
            r == infinite(self),
    ;

    /// The next value above, or the pattern itself where there is none.
    fn next(self) -> (r: Self)
        ensures
            r == self.succ(),
    ;

    /// The next value below, or the pattern itself where there is none.
    fn prev(self) -> (r: Self)
        ensures
            r == self.pred(),
    ;

    /// IEEE-754 `==`.
    fn equals(self, rhs: Self) -> (r: bool)
        ensures
            r == eq_spec(self, rhs),
    ;

    /// IEEE-754 `<`.
    fn less(self, rhs: Self) -> (r: bool)
        ensures
            r == lt_spec(self, rhs),
    ;

    /// IEEE-754 `<=`.
    fn less_eq(self, rhs: Self) -> (r: bool)
        ensures
            r == le_spec(self, rhs),
    {
        self.less(rhs) || self.equals(rhs)
    }

    /// IEEE-754 `>`.
    fn greater(self, rhs: Self) -> (r: bool)
        ensures
            r == lt_spec(rhs, self),
    {
        rhs.less(self)
    }

    /// IEEE-754 `>=`.
    fn greater_eq(self, rhs: Self) -> (r: bool)
        ensures
            r == le_spec(rhs, self),
    {
        rhs.less(self) || rhs.equals(self)
    }
}

/// Comparisons that take two values one rank apart for equal.
pub trait FloatExt: FloatBits {
    /// Whether the two are equal within one representable step. An
    /// infinity equals only itself, and a NaN equals nothing.
    fn safe_eq(self, rhs: Self) -> (r: bool)
        ensures
            r == safe_eq_spec(self, rhs),
    {
        proof {
            self.lemma_ranks();
            rhs.lemma_ranks();
        }
        if self.is_infinite() || rhs.is_infinite() {
            return self.equals(rhs);
        }
        self.prev().less_eq(rhs) && self.next().greater_eq(rhs)
    }

    /// Whether the value above `self` is still below `rhs`.
    fn safe_lt(self, rhs: Self) -> (r: bool)
        ensures
            r == safe_lt_spec(self, rhs),
    {
        proof {
            self.lemma_ranks();
            rhs.lemma_ranks();
        }
        self.next().less(rhs)
    }

    /// Whether the value below `self` is still above `rhs`.
    fn safe_gt(self, rhs: Self) -> (r: bool)
        ensures
            r == safe_gt_spec(self, rhs),
    {
        proof {
            self.lemma_ranks();
            rhs.lemma_ranks();
        }
        self.prev().greater(rhs)
    }

    /// Tolerantly less or tolerantly equal.
    fn safe_le(self, rhs: Self) -> (r: bool)
        ensures
            r == safe_le_spec(self, rhs),
    {
        self.safe_lt(rhs) || self.safe_eq(rhs)
    }

    /// Tolerantly greater or tolerantly equal.
    fn safe_ge(self, rhs: Self) -> (r: bool)
        ensures
            r == safe_ge_spec(self, rhs),
    {
        self.safe_gt(rhs) || self.safe_eq(rhs)
    }

    /// Confines `self` between two bounds, given in either order: a bound
    /// where `self` is tolerantly at or beyond it, else `self`.
    fn safe_clamp(self, min: Self, max: Self) -> (r: Self)
        ensures
            r == safe_clamp_spec(self, min, max),
    {
        let swapped = max.less(min);
        let lo = if swapped { max } else { min };
        let hi = if swapped { min } else { max };
        if self.safe_le(lo) {
            return lo;
        }
        if self.safe_ge(hi) {
            return hi;
        }
        self
    }
}

/// Every value but a NaN tolerantly equals itself.
pub proof fn lemma_safe_eq_reflexive<T: FloatModel>(a: T)
    ensures
        safe_eq_spec(a, a) <==> !a.nan(),
{
}

/// Tolerant equality does not depend on the order of its operands.
pub proof fn lemma_safe_eq_symmetric<T: FloatModel>(a: T, b: T)
    ensures
        safe_eq_spec(a, b) == safe_eq_spec(b, a),
{
}

/// A finite value tolerantly equals its finite neighbour above, and does
/// not tolerantly equal the neighbour after that.
pub proof fn lemma_safe_eq_next<T: FloatModel>(a: T)
    requires
        finite(a),
        finite(a.succ()),
    ensures
        safe_eq_spec(a, a.succ()),
        !safe_eq_spec(a, a.succ().succ()),
{
    a.lemma_ranks();
    a.succ().lemma_ranks();
}

/// A finite value tolerantly equals its finite neighbour below, and does
/// not tolerantly equal the neighbour before that.
pub proof fn lemma_safe_eq_prev<T: FloatModel>(a: T)
    requires
        finite(a),
        finite(a.pred()),
    ensures
        safe_eq_spec(a, a.pred()),
        !safe_eq_spec(a, a.pred().pred()),
{
    a.lemma_ranks();
    a.pred().lemma_ranks();
}

/// Two infinities are tolerantly equal exactly when they are the same
/// infinity, and no finite value tolerantly equals an infinity.
pub proof fn lemma_safe_eq_infinite<T: FloatModel>(a: T, b: T)
    requires
        infinite(a),
        !b.nan(),
    ensures
        safe_eq_spec(a, b) <==> a.rank() == b.rank(),
        safe_eq_spec(a, b) ==> infinite(b),
        infinite(b) && a.rank() != b.rank() ==> !safe_eq_spec(a, b),
{
}

/// A NaN is unordered: every tolerant comparison with one is false.
pub proof fn lemma_nan_unordered<T: FloatModel>(a: T, b: T)
    requires
        a.nan() || b.nan(),
    ensures
        !safe_eq_spec(a, b),
        !safe_lt_spec(a, b),
        !safe_gt_spec(a, b),
        !safe_le_spec(a, b),
        !safe_ge_spec(a, b),
{
}

/// Tolerantly less means that the neighbour above is still below.
pub proof fn lemma_safe_lt_by_next<T: FloatModel>(a: T, b: T)
    ensures
        safe_lt_spec(a, b) == lt_spec(a.succ(), b),
        safe_gt_spec(a, b) == lt_spec(b, a.pred()),
{
    a.lemma_ranks();
    b.lemma_ranks();
}

/// Of two values that are not NaN, at most one of tolerantly less,
/// tolerantly equal and tolerantly greater holds; none holds only where the
/// two are exactly one rank apart and one of them is an infinity.
pub proof fn lemma_safe_order<T: FloatModel>(a: T, b: T)
    requires
        !a.nan(),
        !b.nan(),
    ensures
        !(safe_lt_spec(a, b) && safe_eq_spec(a, b)),
        !(safe_gt_spec(a, b) && safe_eq_spec(a, b)),
        !(safe_lt_spec(a, b) && safe_gt_spec(a, b)),
        safe_lt_spec(a, b) || safe_eq_spec(a, b) || safe_gt_spec(a, b) || beside_infinity(a, b),
{
}

/// A clamped value lies between the bounds. The one exception is a value
/// exactly one rank outside a bound where the value or that bound is an
/// infinity: it is tolerantly neither equal to the bound nor beyond it, and
/// comes back unchanged.
pub proof fn lemma_safe_clamp_within<T: FloatModel>(value: T, lo: T, hi: T)
    requires
        !value.nan(),
        le_spec(lo, hi),
    ensures
        ({
            let r = safe_clamp_spec(value, lo, hi);
            let below = value.rank() + 1 == lo.rank() && beside_infinity(value, lo);
            let above = hi.rank() + 1 == value.rank() && beside_infinity(value, hi);
            (le_spec(lo, r) && le_spec(r, hi)) <==> !(below || above)
        }),
{
    value.lemma_ranks();
    lo.lemma_ranks();
    hi.lemma_ranks();
}

/// A value between the bounds is clamped to a value that tolerantly equals
/// it, and to itself where it is more than one rank away from both bounds.
pub proof fn lemma_safe_clamp_keeps<T: FloatModel>(value: T, lo: T, hi: T)
    requires
        le_spec(lo, value),
        le_spec(value, hi),
    ensures
        safe_eq_spec(safe_clamp_spec(value, lo, hi), value),
        safe_lt_spec(lo, value) && safe_lt_spec(value, hi) ==> safe_clamp_spec(value, lo, hi)
            == value,
{
    value.lemma_ranks();
    lo.lemma_ranks();
    hi.lemma_ranks();
}

/// The order of the two bounds does not matter to a clamp, as long as the
/// bounds differ in value.
pub proof fn lemma_safe_clamp_either_order<T: FloatModel>(value: T, a: T, b: T)
    requires
        lt_spec(a, b) || lt_spec(b, a),
    ensures
        safe_clamp_spec(value, a, b) == safe_clamp_spec(value, b, a),
{
}

/// Clamping between finite bounds keeps the order of two values.
pub proof fn lemma_safe_clamp_monotonic<T: FloatModel>(x: T, y: T, a: T, b: T)
    requires
        le_spec(x, y),
        finite(a),
        finite(b),
    ensures
        le_spec(safe_clamp_spec(x, a, b), safe_clamp_spec(y, a, b)),
{
    x.lemma_ranks();
    y.lemma_ranks();
    a.lemma_ranks();
    b.lemma_ranks();
}

/// Sign bit of an F64 pattern.
pub const F64_SIGN: u64 = 0x8000_0000_0000_0000;

/// Pattern of positive infinity in F64; every larger magnitude is a NaN.
pub const F64_INFINITY: u64 = 0x7ff0_0000_0000_0000;

/// An IEEE-754 double-precision value, held as its bit pattern.
///
/// `==` on this type compares patterns; `equals` compares values.
#[derive(Clone, Copy, Debug, PartialEq, Eq, Structural)]
pub struct F64 {
    pub bits: u64,
}

impl F64 {
    /// Whether the sign bit is set.
    pub open spec fn negative(self) -> bool {
        self.bits >= F64_SIGN
    }

    /// The pattern without its sign bit.
    pub open spec fn magnitude(self) -> int {
        if self.bits >= F64_SIGN {
            self.bits - F64_SIGN
        } else {
            self.bits as int
        }
    }

    /// The value that a bit pattern encodes.
    pub fn from_bits(bits: u64) -> (r: F64)
        ensures
            r.bits == bits,
    {
        F64 { bits }
    }

    /// The bit pattern that encodes this value.
    pub fn to_bits(self) -> (r: u64)
        ensures
            r == self.bits,
    {
        self.bits
    }

    fn abs_bits(self) -> (r: u64)
        ensures
            r == self.magnitude(),
    {
        if self.bits >= F64_SIGN {
            self.bits - F64_SIGN
        } else {
            self.bits
        }
    }
}

impl FloatModel for F64 {
    open spec fn nan(self) -> bool {
        self.magnitude() > F64_INFINITY
    }

    open spec fn rank(self) -> int {
        if self.negative() {
            -self.magnitude()
        } else {
            self.magnitude()
        }
    }

    open spec fn top() -> int {
        F64_INFINITY as int
    }

    open spec fn succ(self) -> F64 {
        if self.nan() || self.bits == F64_INFINITY {
            self
        } else if self.magnitude() == 0 {
            F64 { bits: 1 }
        } else if self.negative() {
            if self.magnitude() == 1 {
                F64 { bits: 0 }
            } else {
                F64 { bits: (self.bits - 1) as u64 }
            }
        } else {
            F64 { bits: (self.bits + 1) as u64 }
        }
    }

    open spec fn pred(self) -> F64 {
        if self.nan() || self.bits == F64_SIGN + F64_INFINITY {
            self
        } else if self.magnitude() == 0 {
            F64 { bits: (F64_SIGN + 1) as u64 }
        } else if self.negative() {
            F64 { bits: (self.bits + 1) as u64 }
        } else {
            F64 { bits: (self.bits - 1) as u64 }
        }
    }

    proof fn lemma_ranks(self) {
    }
}

impl FloatBits for F64 {
    fn is_nan(self) -> (r: bool) {
        self.abs_bits() > F64_INFINITY
    }

    fn is_infinite(self) -> (r: bool) {
        self.abs_bits() == F64_INFINITY
    }

    fn next(self) -> (r: F64) {
        let m: u64 = self.abs_bits();
        if m > F64_INFINITY || self.bits == F64_INFINITY {
            self
        } else if m == 0 {
            F64 { bits: 1 }
        } else if self.bits >= F64_SIGN {
            if m == 1 {
                F64 { bits: 0 }
            } else {
                F64 { bits: self.bits - 1 }
            }
        } else {
            F64 { bits: self.bits + 1 }
        }
    }

    fn prev(self) -> (r: F64) {
        let m: u64 = self.abs_bits();
        if m > F64_INFINITY || self.bits == F64_SIGN + F64_INFINITY {
            self
        } else if m == 0 {
            F64 { bits: F64_SIGN + 1 }
        } else if self.bits >= F64_SIGN {
            F64 { bits: self.bits + 1 }
        } else {
            F64 { bits: self.bits - 1 }
        }
    }

    fn equals(self, rhs: F64) -> (r: bool) {
        let a: u64 = self.abs_bits();
        let b: u64 = rhs.abs_bits();
        if a > F64_INFINITY || b > F64_INFINITY {
            false
        } else if a == 0 {
            b == 0
        } else {
            self.bits == rhs.bits
        }
    }

    fn less(self, rhs: F64) -> (r: bool) {
        let a: u64 = self.abs_bits();
        let b: u64 = rhs.abs_bits();
        if a > F64_INFINITY || b > F64_INFINITY {
            false
        } else if self.bits >= F64_SIGN {
            if rhs.bits >= F64_SIGN {
                a > b
            } else {
                a > 0 || b > 0
            }
        } else {
            rhs.bits < F64_SIGN && a < b
        }
    }
}

impl FloatExt for F64 {
}

/// The implicit leading bit of a normal F64 significand: two to the 52nd.
pub const F64_HIDDEN: u64 = 0x10_0000_0000_0000;

/// Pattern of 1.0 in F64.
pub const F64_ONE: u64 = 0x3ff0_0000_0000_0000;

/// Pattern of 0.5 in F64.
pub const F64_HALF: u64 = 0x3fe0_0000_0000_0000;

impl F64 {
    /// The biased exponent: the eleven bits below the sign.
    pub open spec fn exponent_field(self) -> int {
        self.magnitude() / (F64_HIDDEN as int)
    }

    /// The integer significand: the low 52 bits, and above them the implicit
    /// leading bit unless the value is zero or subnormal.
    pub open spec fn significand(self) -> int {
        if self.exponent_field() == 0 {
            self.magnitude() % (F64_HIDDEN as int)
        } else {
            F64_HIDDEN + self.magnitude() % (F64_HIDDEN as int)
        }
    }

    /// The number of binary places of the significand: the magnitude of a
    /// finite value is `significand() / 2^places()`. It is negative for the
    /// large values that are multiples of a power of two.
    pub open spec fn places(self) -> int {
        if self.exponent_field() == 0 {
            1074
        } else {
            1075 - self.exponent_field()
        }
    }

    /// The value of a finite pattern, counted in units of the smallest
    /// positive value: the significand moved up by the binary places that
    /// the pattern has fewer than 1074, and negative under a sign bit.
    pub open spec fn scaled(self) -> int {
        let size = self.significand() * vstd::arithmetic::power2::pow2(
            (1074 - self.places()) as nat,
        );
        if self.negative() {
            -size
        } else {
            size
        }
    }

    /// The integer significand of this pattern.
    pub fn significand_bits(self) -> (r: u64)
        ensures
            r == self.significand(),
            r < 2 * F64_HIDDEN,
    {
        let m: u64 = self.abs_bits();
        if m / F64_HIDDEN == 0 {
            m % F64_HIDDEN
        } else {
            F64_HIDDEN + m % F64_HIDDEN
        }
    }

    /// The number of binary places of the significand.
    pub fn binary_places(self) -> (r: i32)
        ensures
            r == self.places(),
            -972 <= r <= 1074,
    {
        let m: u64 = self.abs_bits();
        let e: u64 = m / F64_HIDDEN;
        if e == 0 {
            1074
        } else {
            1075 - (e as i32)
        }
    }
}

/// Of two finite patterns without a sign bit, the larger pattern holds the
/// larger value.
proof fn lemma_magnitudes_order_values(a: F64, b: F64)
    requires
        a.bits < b.bits < F64_INFINITY,
    ensures
        0 <= a.scaled() < b.scaled(),
{
    vstd::arithmetic::power2::lemma2_to64();
    let ea = a.exponent_field();
    let eb = b.exponent_field();
    let ma = a.significand();
    let mb = b.significand();
    let ua = (1074 - a.places()) as nat;
    let ub = (1074 - b.places()) as nat;
    let pa = vstd::arithmetic::power2::pow2(ua) as int;
    let pb = vstd::arithmetic::power2::pow2(ub) as int;
    vstd::arithmetic::power2::lemma_pow2_pos(ua);
    vstd::arithmetic::power2::lemma_pow2_pos(ub);
    assert(a.magnitude() == a.bits && b.magnitude() == b.bits);
    assert(ea <= eb <= 2046);
    assert(0 <= ma < 2 * F64_HIDDEN && 0 < mb < 2 * F64_HIDDEN);
    assert(0 <= ma * pa) by (nonlinear_arith)
        requires
            0 <= ma,
            0 < pa,
    ;
    if ua == ub {
        assert(ma < mb);
        assert(ma * pa < mb * pb) by (nonlinear_arith)
            requires
                ma < mb,
                pa == pb,
                0 < pa,
        ;
    } else {
        assert(ua < ub);
        assert(mb >= F64_HIDDEN);
        vstd::arithmetic::power2::lemma_pow2_unfold(ua + 1);
        if ua + 1 < ub {
            vstd::arithmetic::power2::lemma_pow2_strictly_increases(ua + 1, ub);
        }
        assert(2 * pa <= pb);
        assert(ma * pa < mb * pb) by (nonlinear_arith)
            requires
                0 <= ma < 2 * F64_HIDDEN,
                mb >= F64_HIDDEN,
                0 < pa,
                2 * pa <= pb,
        ;
    }
}

/// Ranks order the finite values of F64 as the values themselves are
/// ordered, and two finite patterns have one rank exactly when they hold
/// one value.
pub proof fn lemma_rank_orders_values(a: F64, b: F64)
    requires
        finite(a),
        finite(b),
    ensures
        a.rank() < b.rank() <==> a.scaled() < b.scaled(),
        a.rank() == b.rank() <==> a.scaled() == b.scaled(),
{
    let pa = F64 { bits: a.magnitude() as u64 };
    let pb = F64 { bits: b.magnitude() as u64 };
    assert(pa.significand() == a.significand() && pa.places() == a.places());
    assert(pb.significand() == b.significand() && pb.places() == b.places());
    assert(a.scaled() == if a.negative() { -pa.scaled() } else { pa.scaled() });
    assert(b.scaled() == if b.negative() { -pb.scaled() } else { pb.scaled() });
    let zero = F64 { bits: 0 };
    assert(zero.scaled() == 0) by {
        assert(zero.significand() == 0);
        assert(0 * vstd::arithmetic::power2::pow2((1074 - zero.places()) as nat) == 0);
    }
    if pa.bits > 0 {
        lemma_magnitudes_order_values(zero, pa);
    }
    if pb.bits > 0 {
        lemma_magnitudes_order_values(zero, pb);
    }
    if pa.bits < pb.bits {
        lemma_magnitudes_order_values(pa, pb);
    } else if pb.bits < pa.bits {
        lemma_magnitudes_order_values(pb, pa);
    }
}

/// The patterns named one and one half hold those values: a significand of
/// two to the 52nd, with 52 and with 53 binary places.
pub proof fn lemma_one_and_half()
    ensures
        (F64 { bits: F64_ONE }).significand() == F64_HIDDEN,
        (F64 { bits: F64_ONE }).places() == 52,
        (F64 { bits: F64_HALF }).significand() == F64_HIDDEN,
        (F64 { bits: F64_HALF }).places() == 53,
        vstd::arithmetic::power2::pow2(52) == F64_HIDDEN,
{
    vstd::arithmetic::power2::lemma2_to64();
    vstd::arithmetic::power2::lemma2_to64_rest();
}

/// Sign bit of an F32 pattern.
pub const F32_SIGN: u32 = 0x8000_0000;

/// Pattern of positive infinity in F32; every larger magnitude is a NaN.
pub const F32_INFINITY: u32 = 0x7f80_0000;

/// An IEEE-754 single-precision value, held as its bit pattern.
///
/// `==` on this type compares patterns; `equals` compares values.
#[derive(Clone, Copy, Debug, PartialEq, Eq, Structural)]
pub struct F32 {
    pub bits: u32,
}

impl F32 {
    /// Whether the sign bit is set.
    pub open spec fn negative(self) -> bool {
        self.bits >= F32_SIGN
    }

    /// The pattern without its sign bit.
    pub open spec fn magnitude(self) -> int {
        if self.bits >= F32_SIGN {
            self.bits - F32_SIGN
        } else {
            self.bits as int
        }
    }

    /// The value that a bit pattern encodes.
    pub fn from_bits(bits: u32) -> (r: F32)
        ensures
            r.bits == bits,
    {
        F32 { bits }
    }

    /// The bit pattern that encodes this value.
    pub fn to_bits(self) -> (r: u32)
        ensures
            r == self.bits,
    {
        self.bits
    }

    fn abs_bits(self) -> (r: u32)
        ensures
            r == self.magnitude(),
    {
        if self.bits >= F32_SIGN {
            self.bits - F32_SIGN
        } else {
            self.bits
        }
    }
}

impl FloatModel for F32 {
    open spec fn nan(self) -> bool {
        self.magnitude() > F32_INFINITY
    }

    open spec fn rank(self) -> int {
        if self.negative() {
            -self.magnitude()
        } else {
            self.magnitude()
        }
    }

    open spec fn top() -> int {
        F32_INFINITY as int
    }

    open spec fn succ(self) -> F32 {
        if self.nan() || self.bits == F32_INFINITY {
            self
        } else if self.magnitude() == 0 {
            F32 { bits: 1 }
        } else if self.negative() {
            if self.magnitude() == 1 {
                F32 { bits: 0 }
            } else {
                F32 { bits: (self.bits - 1) as u32 }
            }
        } else {
            F32 { bits: (self.bits + 1) as u32 }
        }
    }

    open spec fn pred(self) -> F32 {
        if self.nan() || self.bits == F32_SIGN + F32_INFINITY {
            self
        } else if self.magnitude() == 0 {
            F32 { bits: (F32_SIGN + 1) as u32 }
        } else if self.negative() {
            F32 { bits: (self.bits + 1) as u32 }
        } else {
            F32 { bits: (self.bits - 1) as u32 }
        }
    }

    proof fn lemma_ranks(self) {
    }
}

impl FloatBits for F32 {
    fn is_nan(self) -> (r: bool) {
        self.abs_bits() > F32_INFINITY
    }

    fn is_infinite(self) -> (r: bool) {
        self.abs_bits() == F32_INFINITY
    }

    fn next(self) -> (r: F32) {
        let m: u32 = self.abs_bits();
        if m > F32_INFINITY || self.bits == F32_INFINITY {
            self
        } else if m == 0 {
            F32 { bits: 1 }
        } else if self.bits >= F32_SIGN {
            if m == 1 {
                F32 { bits: 0 }
            } else {
                F32 { bits: self.bits - 1 }
            }
        } else {
            F32 { bits: self.bits + 1 }
        }
    }

    fn prev(self) -> (r: F32) {
        let m: u32 = self.abs_bits();
        if m > F32_INFINITY || self.bits == F32_SIGN + F32_INFINITY {
            self
        } else if m == 0 {
            F32 { bits: F32_SIGN + 1 }
        } else if self.bits >= F32_SIGN {
            F32 { bits: self.bits + 1 }
        } else {
            F32 { bits: self.bits - 1 }
        }
    }

    fn equals(self, rhs: F32) -> (r: bool) {
        let a: u32 = self.abs_bits();
        let b: u32 = rhs.abs_bits();
        if a > F32_INFINITY || b > F32_INFINITY {
            false
        } else if a == 0 {
            b == 0
        } else {
            self.bits == rhs.bits
        }
    }

    fn less(self, rhs: F32) -> (r: bool) {
        let a: u32 = self.abs_bits();
        let b: u32 = rhs.abs_bits();
        if a > F32_INFINITY || b > F32_INFINITY {
            false
        } else if self.bits >= F32_SIGN {
            if rhs.bits >= F32_SIGN {
                a > b
            } else {
                a > 0 || b > 0
            }
        } else {
            rhs.bits < F32_SIGN && a < b
        }
    }
}

impl FloatExt for F32 {
}

} // verus!
