//! Binary64 scalars, held and compared by their bit patterns.
//!
//! A [`Scalar`] is the 64-bit pattern of an IEEE-754 double: one sign bit,
//! eleven exponent bits, fifty-two fraction bits. Arithmetic on scalars is
//! done by the caller in hardware floating point; this module holds what can
//! be decided from the pattern alone: classification, order, sign changes.
use vstd::prelude::*;
use vstd::arithmetic::power2::{
    lemma2_to64,
    lemma_pow2_pos,
    lemma_pow2_strictly_increases,
    lemma_pow2_unfold,
    pow2,
};

verus! {

/// The sign bit of a pattern.
pub const SIGN_BIT: u64 = 0x8000_0000_0000_0000;

/// The pattern of positive infinity; every larger magnitude is a NaN.
pub const INFINITY_BITS: u64 = 0x7ff0_0000_0000_0000;

/// The pattern of `1.0`.
pub const ONE_BITS: u64 = 0x3ff0_0000_0000_0000;

/// Two to the power 52: the fraction field counts in units of one over this.
pub const FRACTION_SPAN: u64 = 0x10_0000_0000_0000;

/// A binary64 value, held by its bit pattern.
#[derive(Clone, Copy, Debug)]
pub struct Scalar {
    pub bits: u64,
}

impl Scalar {
    /// Whether the sign bit is set (true of `-0.0` and of some NaNs too).
    pub open spec fn negative(self) -> bool {
        self.bits >= SIGN_BIT
    }

    /// The pattern with its sign bit cleared.
    pub open spec fn magnitude(self) -> int {
        if self.bits >= SIGN_BIT {
            self.bits - SIGN_BIT
        } else {
            self.bits as int
        }
    }

    /// Not a number: the exponent is all ones and the fraction is not zero.
    pub open spec fn is_nan(self) -> bool {
        self.magnitude() > INFINITY_BITS
    }

    /// Zero, subnormal or normal: neither infinite nor a NaN.
    pub open spec fn is_finite(self) -> bool {
        self.magnitude() < INFINITY_BITS
    }

    /// The exponent field, from 0 to 2047.
    pub open spec fn exponent(self) -> int {
        self.magnitude() / (FRACTION_SPAN as int)
    }

    /// The fraction field, below two to the power 52.
    pub open spec fn fraction(self) -> int {
        self.magnitude() % (FRACTION_SPAN as int)
    }

    /// The significand as a whole number: the fraction, with the hidden bit
    /// above it unless the exponent field is zero.
    pub open spec fn significand(self) -> int {
        if self.exponent() == 0 {
            self.fraction()
        } else {
            FRACTION_SPAN + self.fraction()
        }
    }

    /// The absolute value of a finite scalar, as a whole number: the value
    /// times two to the power 1074. The value of a normal number is its
    /// significand times two to the power `exponent - 1075`, that of a
    /// subnormal one its fraction times two to the power -1074.
    pub open spec fn size(self) -> int {
        let lift: nat = if self.exponent() == 0 {
            0
        } else {
            (self.exponent() - 1) as nat
        };
        self.significand() * pow2(lift)
    }

    /// What a finite scalar stands for, as a whole number: its value times
    /// two to the power 1074.
    pub open spec fn scaled(self) -> int {
        if self.negative() {
            -self.size()
        } else {
            self.size()
        }
    }

    /// The place of a number on the line: magnitudes of one sign are ordered
    /// as their patterns are, negative values mirror them, and both zeros
    /// share rank 0.
    pub open spec fn rank(self) -> int {
        if self.negative() {
            -self.magnitude()
        } else {
            self.magnitude()
        }
    }

    /// `self < other` as IEEE-754 defines it: false as soon as either side is
    /// a NaN, else the order of the ranks.
    pub open spec fn less(self, other: Scalar) -> bool {
        !self.is_nan() && !other.is_nan() && self.rank() < other.rank()
    }

    /// The scalar with its sign bit flipped.
    pub open spec fn negated(self) -> Scalar {
        if self.bits >= SIGN_BIT {
            Scalar { bits: (self.bits - SIGN_BIT) as u64 }
        } else {
            Scalar { bits: (self.bits + SIGN_BIT) as u64 }
        }
    }

    /// The scalar with its sign bit cleared.
    pub open spec fn absolute(self) -> Scalar {
        Scalar { bits: self.magnitude() as u64 }
    }

    /// The lesser of two scalars, a NaN giving way to the other: `other`
    /// where `self` is a NaN or `other` is below `self`, else `self`.
    pub open spec fn lesser(self, other: Scalar) -> Scalar {
        if self.is_nan() {
            other
        } else if other.is_nan() {
            self
        } else if other.less(self) {
            other
        } else {
            self
        }
    }

    /// The greater of two scalars, a NaN giving way to the other: `other`
    /// where `self` is a NaN or `other` is above `self`, else `self`.
    pub open spec fn greater(self, other: Scalar) -> Scalar {
        if self.is_nan() {
            other
        } else if other.is_nan() {
            self
        } else if self.less(other) {
            other
        } else {
            self
        }
    }

    /// `0.0`.
    pub open spec fn zero() -> Scalar {
        Scalar { bits: 0 }
    }

    /// `1.0`.
    pub open spec fn one() -> Scalar {
        Scalar { bits: ONE_BITS }
    }

    /// Positive infinity.
    pub open spec fn infinity() -> Scalar {
        Scalar { bits: INFINITY_BITS }
    }

    /// Wraps the pattern of a double.
    pub fn from_bits(bits: u64) -> (out: Scalar)
        ensures
            out.bits == bits,
    {
        Scalar { bits }
    }

    /// The pattern of the double.
    pub fn to_bits(self) -> (out: u64)
        ensures
            out == self.bits,
    {
        self.bits
    }

    /// The pattern without its sign bit.
    pub fn magnitude_bits(self) -> (out: u64)
        ensures
            out == self.magnitude(),
    {
        if self.bits >= SIGN_BIT {
            self.bits - SIGN_BIT
        } else {
            self.bits
        }
    }

    /// `self < other`.
    pub fn lt(self, other: Scalar) -> (out: bool)
        ensures
            out == self.less(other),
    {
        let a: u64 = self.magnitude_bits();
        let b: u64 = other.magnitude_bits();
        if a > INFINITY_BITS || b > INFINITY_BITS {
            false
        } else if self.bits >= SIGN_BIT {
            if other.bits >= SIGN_BIT {
                b < a
            } else {
                a > 0 || b > 0
            }
        } else {
            other.bits < SIGN_BIT && a < b
        }
    }

    /// `self > other`.
    pub fn gt(self, other: Scalar) -> (out: bool)
        ensures
            out == other.less(self),
    {
        other.lt(self)
    }

    /// The lesser of `self` and `other`; where one is a NaN, the other one.
    /// Of two that are equal in order, `self`.
    pub fn min(self, other: Scalar) -> (out: Scalar)
        ensures
            out == self.lesser(other),
    {
        if self.magnitude_bits() > INFINITY_BITS {
            other
        } else if other.magnitude_bits() > INFINITY_BITS {
            self
        } else if other.lt(self) {
            other
        } else {
            self
        }
    }

    /// The greater of `self` and `other`; where one is a NaN, the other one.
    /// Of two that are equal in order, `self`.
    pub fn max(self, other: Scalar) -> (out: Scalar)
        ensures
            out == self.greater(other),
    {
        if self.magnitude_bits() > INFINITY_BITS {
            other
        } else if other.magnitude_bits() > INFINITY_BITS {
            self
        } else if self.lt(other) {
            other
        } else {
            self
        }
    }

    /// Whether the scalar is one of the two zeros.
    pub fn is_zero(self) -> (out: bool)
        ensures
            out == (self.magnitude() == 0),
    {
        self.magnitude_bits() == 0
    }

    /// `-self`: only the sign bit changes, whatever the pattern.
    pub fn neg(self) -> (out: Scalar)
        ensures
            out == self.negated(),
    {
        if self.bits >= SIGN_BIT {
            Scalar { bits: self.bits - SIGN_BIT }
        } else {
            Scalar { bits: self.bits + SIGN_BIT }
        }
    }

    /// `|self|`: the sign bit is cleared, whatever the pattern.
    pub fn abs(self) -> (out: Scalar)
        ensures
            out == self.absolute(),
    {
        Scalar { bits: self.magnitude_bits() }
    }
}

/// Among finite scalars, the larger magnitude stands for the number that is
/// further from zero.
pub proof fn lemma_magnitude_orders_size(a: Scalar, b: Scalar)
    requires
        a.magnitude() < b.magnitude(),
        b.is_finite(),
    ensures
        0 <= a.size() < b.size(),
{
    let la: nat = if a.exponent() == 0 {
        0
    } else {
        (a.exponent() - 1) as nat
    };
    let lb: nat = if b.exponent() == 0 {
        0
    } else {
        (b.exponent() - 1) as nat
    };
    let sa = a.significand();
    let sb = b.significand();
    let pa = pow2(la) as int;
    let pb = pow2(lb) as int;
    lemma_pow2_pos(la);
    lemma_pow2_pos(lb);
    assert(0 <= sa * pa) by (nonlinear_arith)
        requires
            0 <= sa,
            0 < pa,
    ;
    if a.exponent() == b.exponent() {
        assert(sa * pa < sb * pb) by (nonlinear_arith)
            requires
                sa < sb,
                pa == pb,
                0 < pa,
        ;
    } else if a.exponent() == 0 {
        lemma2_to64();
        assert(sa * pa < sb * pb) by (nonlinear_arith)
            requires
                sa < 0x10_0000_0000_0000,
                pa == 1,
                0x10_0000_0000_0000 <= sb,
                1 <= pb,
        ;
    } else {
        lemma_pow2_unfold(la + 1);
        if la + 1 < lb {
            lemma_pow2_strictly_increases(la + 1, lb);
        }
        assert(sa * pa < sb * pb) by (nonlinear_arith)
            requires
                0 <= sa < 0x20_0000_0000_0000,
                0x10_0000_0000_0000 <= sb,
                0 < pa,
                2 * pa <= pb,
        ;
    }
}

/// Of the finite scalars exactly the two zeros stand for zero.
pub proof fn lemma_size_of_zero(a: Scalar)
    requires
        a.is_finite(),
    ensures
        0 <= a.size(),
        a.size() == 0 <==> a.magnitude() == 0,
{
    let zero = Scalar::zero();
    assert(zero.significand() == 0);
    assert(zero.size() == 0) by (nonlinear_arith)
        requires
            zero.size() == zero.significand() * pow2(0),
            zero.significand() == 0,
    ;
    if a.magnitude() > 0 {
        lemma_magnitude_orders_size(zero, a);
    }
}

/// The order of finite scalars is the order of the numbers that they stand
/// for.
pub proof fn lemma_less_is_value_order(a: Scalar, b: Scalar)
    requires
        a.is_finite(),
        b.is_finite(),
    ensures
        a.less(b) <==> a.scaled() < b.scaled(),
{
    if a.magnitude() < b.magnitude() {
        lemma_magnitude_orders_size(a, b);
    } else if b.magnitude() < a.magnitude() {
        lemma_magnitude_orders_size(b, a);
    }
    lemma_size_of_zero(a);
    lemma_size_of_zero(b);
}

} // verus!
