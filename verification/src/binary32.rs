//! Single-precision IEEE 754 numbers, held as their 32-bit patterns.
//!
//! A pattern is one sign bit, eight bits of biased exponent and twenty-three
//! bits of fraction. A finite pattern stands for
//! `(-1)^sign * significand * 2^scale`. Everything here is integer
//! arithmetic on those fields, so that questions asked of a sample rate or
//! a duration ("is it above zero?", "how many whole samples is their
//! product?") have answers that can be stated and proved.

use vstd::prelude::*;
use vstd::arithmetic::power2::pow2;
use crate::rounding::{
    count_excess_bits,
    divide_round_half_even,
    excess_bits,
    lemma_round_half_even_is_exact,
    lemma_scaled_floor_shift,
    round_half_even,
    saturate,
    scaled_floor,
    scaled_floor_saturating,
};

verus! {

/// The pattern of the sign bit alone, which is also negative zero.
pub const SIGN_BIT: u32 = 0x8000_0000;

/// The pattern of positive infinity: every exponent bit set, no fraction.
pub const INFINITY: u32 = 0x7F80_0000;

/// The pattern of one.
pub const ONE: u32 = 0x3F80_0000;

/// Two to the twenty-third: the implicit leading bit of a normal significand.
pub const HIDDEN_BIT: u32 = 0x80_0000;

/// Whether the sign bit is set.
pub open spec fn spec_sign_is_set(bits: u32) -> bool {
    bits >= SIGN_BIT
}

/// The pattern with its sign bit cleared: the pattern of the absolute value.
pub open spec fn magnitude(bits: u32) -> int {
    bits as int % SIGN_BIT as int
}

/// The eight exponent bits, as a number from 0 to 255.
pub open spec fn biased_exponent(bits: u32) -> int {
    magnitude(bits) / HIDDEN_BIT as int
}

/// The twenty-three fraction bits.
pub open spec fn fraction(bits: u32) -> int {
    bits as int % HIDDEN_BIT as int
}

/// Not a number: all exponent bits set and a fraction that is not zero.
pub open spec fn spec_is_nan(bits: u32) -> bool {
    biased_exponent(bits) == 255 && fraction(bits) != 0
}

/// Positive or negative infinity.
pub open spec fn spec_is_infinite(bits: u32) -> bool {
    biased_exponent(bits) == 255 && fraction(bits) == 0
}

/// Positive or negative zero.
pub open spec fn spec_is_zero(bits: u32) -> bool {
    biased_exponent(bits) == 0 && fraction(bits) == 0
}

/// The number compares greater than zero. Infinity does; zero of either
/// sign and every NaN do not.
pub open spec fn spec_is_positive(bits: u32) -> bool {
    !sign_is_set(bits) && !is_nan(bits) && !is_zero(bits)
}

/// The number compares less than zero. Negative zero and NaN do not.
pub open spec fn spec_is_negative(bits: u32) -> bool {
    sign_is_set(bits) && !is_nan(bits) && !is_zero(bits)
}

/// The number lies between minus one and one, both included. A NaN does
/// not.
pub open spec fn is_within_unit(bits: u32) -> bool {
    magnitude(bits) <= ONE
}

/// The integer `m` of a finite pattern's value `m * 2^scale`: the fraction,
/// with the hidden bit in front unless the number is subnormal.
pub open spec fn significand(bits: u32) -> nat {
    if biased_exponent(bits) == 0 {
        fraction(bits) as nat
    } else {
        (HIDDEN_BIT + fraction(bits)) as nat
    }
}

/// The exponent `e` of a finite pattern's value `significand * 2^e`.
pub open spec fn scale(bits: u32) -> int {
    if biased_exponent(bits) == 0 {
        -149
    } else {
        biased_exponent(bits) - 150
    }
}

/// Reads the sign bit.
#[verifier::when_used_as_spec(spec_sign_is_set)]
pub fn sign_is_set(bits: u32) -> (r: bool)
    ensures
        r == spec_sign_is_set(bits),
{
    bits >= SIGN_BIT
}

/// Tests `x != x`.
#[verifier::when_used_as_spec(spec_is_nan)]
pub fn is_nan(bits: u32) -> (r: bool)
    ensures
        r == spec_is_nan(bits),
{
    bits % SIGN_BIT > INFINITY
}

/// Tests `|x| == inf`.
#[verifier::when_used_as_spec(spec_is_infinite)]
pub fn is_infinite(bits: u32) -> (r: bool)
    ensures
        r == spec_is_infinite(bits),
{
    bits % SIGN_BIT == INFINITY
}

/// Tests `x == 0`.
#[verifier::when_used_as_spec(spec_is_zero)]
pub fn is_zero(bits: u32) -> (r: bool)
    ensures
        r == spec_is_zero(bits),
{
    bits % SIGN_BIT == 0
}

/// Tests `x > 0`.
#[verifier::when_used_as_spec(spec_is_positive)]
pub fn is_positive(bits: u32) -> (r: bool)
    ensures
        r == spec_is_positive(bits),
{
    0 < bits && bits <= INFINITY
}

/// Tests `x < 0`.
#[verifier::when_used_as_spec(spec_is_negative)]
pub fn is_negative(bits: u32) -> (r: bool)
    ensures
        r == spec_is_negative(bits),
{
    SIGN_BIT < bits && bits <= SIGN_BIT + INFINITY
}

/// Reads the significand of a pattern.
pub fn significand_of(bits: u32) -> (m: u32)
    ensures
        m == significand(bits),
        m < 2 * HIDDEN_BIT,
{
    let fraction: u32 = bits % HIDDEN_BIT;
    if bits % SIGN_BIT / HIDDEN_BIT == 0 {
        fraction
    } else {
        HIDDEN_BIT + fraction
    }
}

/// Reads the scale of a pattern.
pub fn scale_of(bits: u32) -> (e: i32)
    ensures
        e == scale(bits),
        -149 <= e <= 105,
{
    let biased: u32 = bits % SIGN_BIT / HIDDEN_BIT;
    if biased == 0 {
        -149
    } else {
        biased as i32 - 150
    }
}

/// The exact product of the two significands, up to forty-eight bits wide.
pub open spec fn significand_product(a: u32, b: u32) -> nat {
    (significand(a) * significand(b)) as nat
}

/// The whole part of the magnitude of `a * b`, for finite `a` and `b`, where
/// the product is rounded to single precision before its fraction is cut
/// off: the exact product of the significands keeps twenty-four significant
/// bits, rounded to nearest, ties to even, and is scaled by the sum of the
/// scales.
///
/// A product below the normal range is rounded more coarsely by the
/// hardware than to twenty-four bits; its whole part is zero either way.
pub open spec fn product_floor(a: u32, b: u32) -> nat {
    let exact = significand_product(a, b);
    let dropped = excess_bits(exact);
    scaled_floor(round_half_even(exact, dropped), scale(a) + scale(b) + dropped)
}

/// What the single-precision product `a * b` is as a count: its whole part,
/// held to the range of `usize`. A NaN counts as zero, and so does every
/// product with the sign bit set; a product too large for `usize`, infinity
/// included, counts as the largest `usize`.
pub open spec fn spec_truncated_product(a: u32, b: u32) -> usize {
    if is_nan(a) || is_nan(b) {
        0
    } else if sign_is_set(a) != sign_is_set(b) {
        0
    } else if is_zero(a) || is_zero(b) {
        0
    } else if is_infinite(a) || is_infinite(b) {
        usize::MAX
    } else {
        saturate(product_floor(a, b))
    }
}

/// Multiplies two single-precision numbers and converts the product to a
/// count, as a saturating conversion of the rounded product does.
#[verifier::when_used_as_spec(spec_truncated_product)]
pub fn truncated_product(a: u32, b: u32) -> (n: usize)
    ensures
        n == spec_truncated_product(a, b),
{
    if is_nan(a) || is_nan(b) {
        return 0;
    }
    if sign_is_set(a) != sign_is_set(b) {
        return 0;
    }
    if is_zero(a) || is_zero(b) {
        return 0;
    }
    if is_infinite(a) || is_infinite(b) {
        return usize::MAX;
    }
    let left: u64 = significand_of(a) as u64;
    let right: u64 = significand_of(b) as u64;
    assert(left * right < 0x1_0000_0000_0000) by (nonlinear_arith)
        requires
            left < 0x100_0000,
            right < 0x100_0000,
    ;
    let exact: u64 = left * right;
    let dropped: u32 = count_excess_bits(exact);
    let rounded: u64 = divide_round_half_even(exact, dropped);
    scaled_floor_saturating(rounded, scale_of(a) + scale_of(b) + dropped as i32)
}

/// The length law where nothing is rounded. If the bits that the exact
/// product of the significands loses are all zero, then the whole part of
/// the product is the whole part of the exact product
/// `significand(a) * significand(b) * 2^(scale(a) + scale(b))`.
pub proof fn lemma_product_floor_of_exact_product(a: u32, b: u32)
    requires
        significand_product(a, b) % pow2(excess_bits(significand_product(a, b))) == 0,
    ensures
        product_floor(a, b) == scaled_floor(significand_product(a, b), scale(a) + scale(b)),
{
    let exact = significand_product(a, b);
    let dropped = excess_bits(exact);
    lemma_round_half_even_is_exact(exact, dropped);
    lemma_scaled_floor_shift(round_half_even(exact, dropped), dropped, scale(a) + scale(b));
}

} // verus!
