//! From a colour to the three levels of a pixel.
use vstd::prelude::*;
use vstd::arithmetic::div_mod::{lemma_basic_div, lemma_div_multiples_vanish_quotient};
use vstd::arithmetic::power2::{
    lemma2_to64,
    lemma2_to64_rest,
    lemma_pow2_adds,
    lemma_pow2_pos,
    lemma_pow2_strictly_increases,
    pow2,
};
use vstd::bits::lemma_u64_shr_is_div;
use crate::scalar::{Scalar, FRACTION_SPAN, INFINITY_BITS};
use crate::vec::Color;

verus! {

/// The pattern of `0.999`, the brightest shade that is told apart.
pub const BRIGHTEST_BITS: u64 = 0x3fef_f7ce_d916_872b;

/// `shade` held to the range from `0.0` to `0.999`: a shade below the range
/// becomes `0.0`, one above it `0.999`; any other, a NaN too, stays.
pub open spec fn clamped(shade: Scalar) -> Scalar {
    if shade.less(Scalar::zero()) {
        Scalar::zero()
    } else if (Scalar { bits: BRIGHTEST_BITS }).less(shade) {
        Scalar { bits: BRIGHTEST_BITS }
    } else {
        shade
    }
}

/// The level of a shade: 256 times the clamped shade, rounded down to a
/// whole number; 0 for a NaN.
pub open spec fn level(shade: Scalar) -> int {
    let c = clamped(shade);
    if c.is_nan() {
        0
    } else {
        (c.scaled() * 256) / (pow2(1074) as int)
    }
}

/// `significand * 2^(exponent - 1) * 256 / 2^1074` is the significand
/// shifted right by `1067 - exponent` places.
proof fn lemma_level_is_shift(significand: u64, exponent: u64)
    requires
        1 <= exponent <= 1022,
        significand < 0x20_0000_0000_0000,
    ensures
        (significand * pow2((exponent - 1) as nat) * 256) / (pow2(1074) as int) == (
        significand as int) / (pow2((1067 - exponent) as nat) as int),
        1067 - exponent < 64 ==> (significand as int) / (pow2((1067 - exponent) as nat) as int)
            == significand >> ((1067 - exponent) as u64),
        1067 - exponent >= 64 ==> (significand as int) / (pow2((1067 - exponent) as nat) as int)
            == 0,
        (significand as int) / (pow2((1067 - exponent) as nat) as int) < 256,
{
    let lift = (exponent - 1) as nat;
    let shift = (1067 - exponent) as nat;
    let up = (pow2(lift) * 256) as int;
    let down = pow2(shift) as int;
    let sig = significand as int;
    lemma2_to64();
    lemma2_to64_rest();
    lemma_pow2_pos(lift);
    lemma_pow2_pos(shift);
    lemma_pow2_adds(lift, 8);
    lemma_pow2_adds(lift + 8, shift);
    assert(lift + 8 + shift == 1074);
    assert(pow2(1074) == up * down);
    assert(sig * pow2(lift) * 256 == up * sig) by (nonlinear_arith)
        requires
            up == pow2(lift) * 256,
    ;
    lemma_div_multiples_vanish_quotient(up, sig, down);
    if shift < 64 {
        lemma_u64_shr_is_div(significand, shift as u64);
    } else {
        if shift > 64 {
            lemma_pow2_strictly_increases(64, shift);
        }
        lemma_basic_div(sig, down);
    }
    if shift > 45 {
        lemma_pow2_strictly_increases(45, shift);
    }
    assert(sig / down < 256) by (nonlinear_arith)
        requires
            0 <= sig < 0x20_0000_0000_0000,
            down >= 0x2000_0000_0000,
    ;
}

/// The level of one channel, from 0 to 255.
pub fn channel(shade: Scalar) -> (out: u64)
    ensures
        out == level(shade),
        out < 256,
{
    let zero = Scalar::from_bits(0);
    let brightest = Scalar::from_bits(BRIGHTEST_BITS);
    let c = if shade.lt(zero) {
        zero
    } else if shade.gt(brightest) {
        brightest
    } else {
        shade
    };
    let m: u64 = c.magnitude_bits();
    if m > INFINITY_BITS {
        return 0;
    }
    let exponent: u64 = m / FRACTION_SPAN;
    let fraction: u64 = m % FRACTION_SPAN;
    if exponent == 0 {
        proof {
            lemma2_to64();
            lemma2_to64_rest();
            lemma_pow2_strictly_increases(60, 1074);
            lemma_basic_div((fraction * 256) as int, pow2(1074) as int);
            assert(c.significand() == fraction);
            assert(c.scaled() == fraction);
        }
        0
    } else {
        let significand: u64 = FRACTION_SPAN + fraction;
        proof {
            lemma_level_is_shift(significand, exponent);
            assert(c.scaled() == significand * pow2((exponent - 1) as nat));
        }
        let shift: u64 = 1067 - exponent;
        if shift >= 64 {
            0
        } else {
            significand >> shift
        }
    }
}

/// The red, green and blue levels of a pixel, each from 0 to 255. `shade`
/// holds, channel by channel, the square root of the mean of the samples.
pub fn write_color(shade: Color) -> (out: (u64, u64, u64))
    ensures
        out.0 == level(shade.x),
        out.1 == level(shade.y),
        out.2 == level(shade.z),
        out.0 < 256 && out.1 < 256 && out.2 < 256,
{
    (channel(shade.x), channel(shade.y), channel(shade.z))
}

} // verus!
