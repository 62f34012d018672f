//! Rounding an exact integer product to twenty-four significant bits, and
//! taking the whole part of a number `m * 2^e`.
//!
//! The product of two significands can be twice as wide as a significand.
//! Rounding brings it back: the low bits that do not fit are dropped and the
//! rest goes to the nearest value, to the even one on a tie.

use vstd::prelude::*;
use vstd::arithmetic::div_mod::{
    lemma_basic_div,
    lemma_div_by_multiple,
    lemma_div_multiples_vanish_quotient,
    lemma_fundamental_div_mod,
    lemma_mod_bound,
};
use vstd::arithmetic::mul::{lemma_mul_is_associative, lemma_mul_is_commutative};
use vstd::arithmetic::power2::{
    lemma2_to64,
    lemma2_to64_rest,
    lemma_pow2_adds,
    lemma_pow2_pos,
    lemma_pow2_strictly_increases,
    lemma_pow2_unfold,
    pow2,
};
use vstd::bits::lemma_u64_shl_is_mul;

verus! {

/// Two to the twenty-fourth: the first integer too wide for a significand.
pub const SIGNIFICAND_LIMIT: u64 = 0x100_0000;

/// How many low bits `p` must lose to fit in twenty-four bits.
pub open spec fn excess_bits(p: nat) -> nat
    decreases p,
{
    if p < SIGNIFICAND_LIMIT {
        0
    } else {
        1 + excess_bits(p / 2)
    }
}

/// `p / 2^s` rounded to the nearest integer, ties to the even one.
pub open spec fn round_half_even(p: nat, s: nat) -> nat {
    let q = p / pow2(s);
    let r = p % pow2(s);
    if 2 * r > pow2(s) || (2 * r == pow2(s) && q % 2 == 1) {
        q + 1
    } else {
        q
    }
}

/// The whole part of `m * 2^e`.
pub open spec fn scaled_floor(m: nat, e: int) -> nat {
    if e >= 0 {
        m * pow2(e as nat)
    } else {
        m / pow2((-e) as nat)
    }
}

/// `n` where it fits in a `usize`, the largest `usize` where it does not.
pub open spec fn saturate(n: nat) -> usize {
    if n > usize::MAX {
        usize::MAX
    } else {
        n as usize
    }
}

/// `excess_bits` without the recursion: once `excess_bits(p)` bits are
/// dropped, twenty-four are enough; and where any were dropped, one fewer
/// would not have done.
pub proof fn lemma_excess_bits_is_least(p: nat)
    ensures
        p < SIGNIFICAND_LIMIT * pow2(excess_bits(p)),
        excess_bits(p) > 0 ==> p >= SIGNIFICAND_LIMIT * pow2((excess_bits(p) - 1) as nat),
    decreases p,
{
    lemma2_to64();
    if p >= SIGNIFICAND_LIMIT {
        let below = excess_bits(p / 2);
        lemma_excess_bits_is_least(p / 2);
        lemma_pow2_unfold(below + 1);
        if below > 0 {
            lemma_pow2_unfold(below);
        }
    }
}

/// Rounding goes to a nearest multiple of `2^s`: the rounded value is no
/// further from `p` than half of `2^s`, and where it is exactly that far,
/// a tie, the rounded quotient is even.
pub proof fn lemma_round_half_even_is_nearest(p: nat, s: nat)
    ensures
        ({
            let rounded = round_half_even(p, s) * pow2(s);
            &&& 2 * (rounded - p) <= pow2(s)
            &&& 2 * (p - rounded) <= pow2(s)
            &&& (2 * (rounded - p) == pow2(s) || 2 * (p - rounded) == pow2(s))
                ==> round_half_even(p, s) % 2 == 0
        }),
{
    let unit = pow2(s) as int;
    let quotient = p as int / unit;
    let remainder = p as int % unit;
    lemma_pow2_pos(s);
    lemma_fundamental_div_mod(p as int, unit);
    lemma_mod_bound(p as int, unit);
    assert((quotient + 1) * unit == unit * quotient + unit) by (nonlinear_arith);
    assert(quotient * unit == unit * quotient) by (nonlinear_arith);
}

/// Where the dropped bits are all zero, rounding loses nothing.
pub proof fn lemma_round_half_even_is_exact(p: nat, s: nat)
    requires
        p % pow2(s) == 0,
    ensures
        round_half_even(p, s) * pow2(s) == p,
{
    let unit = pow2(s) as int;
    lemma_pow2_pos(s);
    lemma_fundamental_div_mod(p as int, unit);
    lemma_mul_is_commutative(p as int / unit, unit);
}

/// A factor of `2^s` may stand in the integer or in the exponent: the
/// whole part of `(m * 2^s) * 2^e` is the whole part of `m * 2^(e + s)`.
pub proof fn lemma_scaled_floor_shift(m: nat, s: nat, e: int)
    ensures
        scaled_floor(m * pow2(s), e) == scaled_floor(m, e + s),
{
    lemma_pow2_pos(s);
    if e >= 0 {
        lemma_pow2_adds(s, e as nat);
        lemma_mul_is_associative(m as int, pow2(s) as int, pow2(e as nat) as int);
    } else if e + s >= 0 {
        let kept = (e + s) as nat;
        let cut = (-e) as nat;
        lemma_pow2_pos(cut);
        lemma_pow2_adds(kept, cut);
        lemma_mul_is_associative(m as int, pow2(kept) as int, pow2(cut) as int);
        assert(m * pow2(kept) >= 0) by (nonlinear_arith)
            requires
                m >= 0,
                pow2(kept) >= 0,
        ;
        lemma_div_by_multiple((m * pow2(kept)) as int, pow2(cut) as int);
    } else {
        let cut = (-(e + s)) as nat;
        lemma_pow2_pos(cut);
        lemma_pow2_adds(s, cut);
        lemma_mul_is_commutative(m as int, pow2(s) as int);
        lemma_div_multiples_vanish_quotient(pow2(s) as int, m as int, pow2(cut) as int);
    }
}

/// Powers of two below the sixty-fourth fit in sixty-three bits and a carry.
proof fn lemma_pow2_fits(k: nat)
    requires
        k < 64,
    ensures
        0 < pow2(k) <= 0x8000_0000_0000_0000,
{
    lemma_pow2_pos(k);
    lemma2_to64_rest();
    if k < 63 {
        lemma_pow2_strictly_increases(k, 63);
    }
}

/// From the sixty-fourth on, a power of two is above every `u64`.
proof fn lemma_pow2_exceeds(k: nat)
    requires
        k >= 64,
    ensures
        pow2(k) > u64::MAX,
{
    lemma2_to64();
    if k > 64 {
        lemma_pow2_strictly_increases(64, k);
    }
}

/// `2^k` for `k` below sixty-four.
pub fn power_of_two(k: u32) -> (r: u64)
    requires
        k < 64,
    ensures
        r == pow2(k as nat),
{
    proof {
        lemma_pow2_fits(k as nat);
        lemma_u64_shl_is_mul(1, k as u64);
    }
    1u64 << (k as u64)
}

/// Counts the low bits that `p` must lose to fit in twenty-four bits.
pub fn count_excess_bits(p: u64) -> (s: u32)
    ensures
        s == excess_bits(p as nat),
        s <= 40,
{
    let mut rest: u64 = p;
    let mut s: u32 = 0;
    proof {
        lemma2_to64();
    }
    while rest >= SIGNIFICAND_LIMIT
        invariant
            s <= 40,
            rest < pow2((64 - s) as nat),
            excess_bits(p as nat) == s + excess_bits(rest as nat),
        decreases rest,
    {
        proof {
            // at forty bits dropped the rest is below 2^24 and the loop is over
            lemma2_to64();
            lemma_pow2_unfold((64 - s) as nat);
        }
        rest = rest / 2;
        s = s + 1;
    }
    s
}

/// Divides `p` by `2^s` and rounds to the nearest integer, ties to even.
pub fn divide_round_half_even(p: u64, s: u32) -> (q: u64)
    requires
        s < 64,
    ensures
        q == round_half_even(p as nat, s as nat),
{
    let unit: u64 = power_of_two(s);
    proof {
        lemma_pow2_fits(s as nat);
    }
    let quotient: u64 = p / unit;
    let remainder: u64 = p % unit;
    if unit == 1 {
        return quotient;
    }
    proof {
        // unit is at least two, so the quotient leaves room for the carry
        assert(quotient <= p / 2) by (nonlinear_arith)
            requires
                quotient == p / unit,
                unit >= 2,
        ;
    }
    let twice: u64 = 2 * remainder;
    if twice > unit || (twice == unit && quotient % 2 == 1) {
        quotient + 1
    } else {
        quotient
    }
}

/// The whole part of `m * 2^e`, held to the range of `usize`.
pub fn scaled_floor_saturating(m: u64, e: i32) -> (n: usize)
    ensures
        n == saturate(scaled_floor(m as nat, e as int)),
{
    if m == 0 {
        proof {
            if e >= 0 {
                assert(0 * pow2(e as nat) == 0);
            } else {
                lemma_pow2_pos((-e) as nat);
                lemma_basic_div(0, pow2((-e) as nat) as int);
            }
        }
        return 0;
    }
    if e >= 64 {
        proof {
            lemma_pow2_exceeds(e as nat);
            assert(m * pow2(e as nat) > usize::MAX) by (nonlinear_arith)
                requires
                    m >= 1,
                    pow2(e as nat) > usize::MAX,
            ;
        }
        return usize::MAX;
    }
    if e >= 0 {
        let unit: u64 = power_of_two(e as u32);
        proof {
            lemma_pow2_fits(e as nat);
            assert(m * unit <= 0xFFFF_FFFF_FFFF_FFFF * 0x8000_0000_0000_0000) by (nonlinear_arith)
                requires
                    m <= 0xFFFF_FFFF_FFFF_FFFF,
                    unit <= 0x8000_0000_0000_0000,
            ;
        }
        let wide: u128 = (m as u128) * (unit as u128);
        if wide > usize::MAX as u128 {
            usize::MAX
        } else {
            wide as usize
        }
    } else if e <= -64 {
        proof {
            lemma_pow2_exceeds((-e) as nat);
            lemma_basic_div(m as int, pow2((-e) as nat) as int);
        }
        0
    } else {
        let unit: u64 = power_of_two((-e) as u32);
        proof {
            lemma_pow2_fits((-e) as nat);
        }
        let whole: u64 = m / unit;
        if whole > usize::MAX as u64 {
            usize::MAX
        } else {
            whole as usize
        }
    }
}

} // verus!
