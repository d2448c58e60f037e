//! Fractional amounts as fixed-point integers, and their image in IEEE 754
//! binary64.
//!
//! Bucket levels are real-valued. The library counts them in units of
//! 2^-20 of a token, so that refill, leak and spend are exact integer
//! arithmetic and nothing drifts from call to call. On the wire a level is
//! the binary64 number of tokens. Every count up to `MAX_UNITS` has such a
//! number, and is read back from it unchanged; a stored number that is finer
//! than the grid is rounded down to it.

use vstd::arithmetic::div_mod::{lemma_div_is_ordered_by_denominator, lemma_div_multiples_vanish};
use vstd::arithmetic::power2::{
    lemma2_to64, lemma2_to64_rest, lemma_pow2_pos, lemma_pow2_strictly_increases,
    lemma_pow2_unfold, pow2,
};
use vstd::bits::lemma_u64_shr_is_div;
use vstd::prelude::*;

verus! {

/// The number of units in one token.
pub const UNITS_PER_TOKEN: u64 = 0x10_0000;

/// The largest count that binary64 holds exactly at this resolution:
/// 2^53 - 1 units, a little under 2^33 tokens.
pub const MAX_UNITS: u64 = 0x1F_FFFF_FFFF_FFFF;

/// 2^52: the weight of the implicit leading bit of a binary64 significand.
pub const HIDDEN_BIT: u64 = 0x10_0000_0000_0000;

/// The sign bit of a binary64 pattern.
pub const SIGN_BIT: u64 = 0x8000_0000_0000_0000;

/// The exponent field at which the significand, read as an integer, counts
/// units: the bias 1023, plus 52 for the significand's point, minus 20 for
/// the units' own.
pub const UNIT_EXPONENT: u64 = 1055;

/// The smallest exponent field of a number that is at least one unit.
pub const MIN_EXPONENT: u64 = 1003;

/// How far a count is below 2^52.
pub open spec fn below_hidden_bit(units: nat) -> nat {
    if units < HIDDEN_BIT {
        (HIDDEN_BIT - units) as nat
    } else {
        0
    }
}

/// The number of doublings that bring a count below 2^52 up into the range
/// of a normalised significand, from 2^52 to 2^53.
pub open spec fn normal_shift(units: nat) -> nat
    decreases below_hidden_bit(units),
{
    if units == 0 || units >= HIDDEN_BIT {
        0
    } else {
        1 + normal_shift(2 * units)
    }
}

/// The binary64 pattern of `units / 2^20`, for a count up to `MAX_UNITS`:
/// zero is all zeros; any other count, doubled `s` times to a normalised
/// significand, has the exponent field `1055 - s` and the significand's low
/// 52 bits as its fraction.
pub open spec fn bits_of_units(units: nat) -> nat {
    if units == 0 {
        0
    } else {
        let s = normal_shift(units);
        ((UNIT_EXPONENT - s) * HIDDEN_BIT + (units * pow2(s) - HIDDEN_BIT)) as nat
    }
}

/// The count that a binary64 pattern stands for, rounded down to whole
/// units: none for a pattern with the sign bit set and for a number of 2^33
/// tokens or more (infinities and NaNs among them), zero for a number
/// below one unit, and else the significand shifted by the exponent.
pub open spec fn units_of_bits(bits: u64) -> Option<nat> {
    let exponent = bits / HIDDEN_BIT;
    let significand = HIDDEN_BIT + bits % HIDDEN_BIT;
    if bits >= SIGN_BIT || exponent > UNIT_EXPONENT {
        None
    } else if exponent < MIN_EXPONENT {
        Some(0)
    } else {
        Some((significand / pow2((UNIT_EXPONENT - exponent) as nat) as int) as nat)
    }
}

/// Doubling a count `s` times multiplies it by 2^s and shortens what is
/// left of its way to a normalised significand by `s`.
proof fn lemma_normal_shift_step(units: nat, s: nat)
    requires
        0 < units,
        units * pow2(s) < 2 * HIDDEN_BIT,
        s == 0 || units * pow2((s - 1) as nat) < HIDDEN_BIT,
    ensures
        normal_shift(units) == s + normal_shift(units * pow2(s)),
    decreases s,
{
    lemma2_to64();
    if s == 0 {
        assert(units * pow2(0) == units);
    } else {
        let t = (s - 1) as nat;
        lemma_pow2_unfold(s);
        lemma_pow2_pos(t);
        assert(units * pow2(s) == (2 * units) * pow2(t) && units <= units * pow2(t))
            by (nonlinear_arith)
            requires
                pow2(s) == 2 * pow2(t),
                pow2(t) > 0,
        ;
        if t > 0 {
            let u = (t - 1) as nat;
            lemma_pow2_unfold(t);
            assert((2 * units) * pow2(u) == units * pow2(t)) by (nonlinear_arith)
                requires
                    pow2(t) == 2 * pow2(u),
            ;
        }
        lemma_normal_shift_step(2 * units, t);
    }
}

/// A count of at least one unit needs at most 52 doublings.
proof fn lemma_shift_bound(units: nat, s: nat)
    requires
        0 < units,
        units * pow2(s) < 2 * HIDDEN_BIT,
    ensures
        s <= 52,
{
    lemma2_to64_rest();
    if s > 52 {
        if s > 53 {
            lemma_pow2_strictly_increases(53, s);
        }
        assert(units * pow2(s) >= pow2(s)) by (nonlinear_arith)
            requires
                units >= 1,
        ;
    }
}

/// The binary64 pattern of a fixed-point count, where it has one.
pub fn bits_from_units(units: u64) -> (r: Option<u64>)
    ensures
        units <= MAX_UNITS ==> r == Some(bits_of_units(units as nat) as u64),
        units <= MAX_UNITS ==> bits_of_units(units as nat) < SIGN_BIT,
        units > MAX_UNITS ==> r is None,
{
    if units > MAX_UNITS {
        return None;
    }
    if units == 0 {
        return Some(0);
    }
    let mut significand: u64 = units;
    let mut exponent: u64 = UNIT_EXPONENT;
    proof {
        lemma2_to64();
        assert(units * pow2(0) == units);
    }
    while significand < HIDDEN_BIT
        invariant
            0 < units <= MAX_UNITS,
            0 < significand,
            MIN_EXPONENT <= exponent <= UNIT_EXPONENT,
            significand == units * pow2((UNIT_EXPONENT - exponent) as nat),
            significand < 2 * HIDDEN_BIT,
            exponent == UNIT_EXPONENT || units * pow2((UNIT_EXPONENT - exponent - 1) as nat)
                < HIDDEN_BIT,
        decreases below_hidden_bit(significand as nat),
    {
        proof {
            let s = (UNIT_EXPONENT - exponent) as nat;
            lemma_pow2_unfold(s + 1);
            assert(units * pow2(s + 1) == 2 * (units * pow2(s))) by (nonlinear_arith)
                requires
                    pow2(s + 1) == 2 * pow2(s),
            ;
            lemma_shift_bound(units as nat, s + 1);
        }
        significand = significand * 2;
        exponent = exponent - 1;
    }
    proof {
        lemma_normal_shift_step(units as nat, (UNIT_EXPONENT - exponent) as nat);
    }
    Some(exponent * HIDDEN_BIT + (significand - HIDDEN_BIT))
}

/// The fixed-point count that a binary64 pattern stands for, where it
/// stands for one.
pub fn units_from_bits(bits: u64) -> (r: Option<u64>)
    ensures
        r matches Some(units) ==> units_of_bits(bits) == Some(units as nat) && units <= MAX_UNITS,
        r is None ==> units_of_bits(bits) is None,
{
    if bits >= SIGN_BIT {
        return None;
    }
    let exponent: u64 = bits / HIDDEN_BIT;
    let significand: u64 = HIDDEN_BIT + bits % HIDDEN_BIT;
    if exponent > UNIT_EXPONENT {
        None
    } else if exponent < MIN_EXPONENT {
        Some(0)
    } else {
        let shift: u64 = UNIT_EXPONENT - exponent;
        proof {
            lemma_u64_shr_is_div(significand, shift);
            lemma_pow2_pos(shift as nat);
            lemma_div_is_ordered_by_denominator(significand as int, 1, pow2(shift as nat) as int);
        }
        Some(significand >> shift)
    }
}

/// A count up to `MAX_UNITS` is read back unchanged from its binary64
/// pattern.
pub proof fn lemma_units_round_trip(units: nat)
    requires
        units <= MAX_UNITS,
    ensures
        bits_of_units(units) < SIGN_BIT,
        units_of_bits(bits_of_units(units) as u64) == Some(units),
{
    lemma2_to64();
    if units > 0 {
        let s = normal_shift(units);
        lemma_normal_shift_bounds(units);
        let significand = units * pow2(s);
        let bits = bits_of_units(units);
        let exponent = (UNIT_EXPONENT - s) as nat;
        assert(bits == exponent * HIDDEN_BIT + (significand - HIDDEN_BIT));
        assert(bits / (HIDDEN_BIT as nat) == exponent);
        assert(bits % (HIDDEN_BIT as nat) == significand - HIDDEN_BIT);
        lemma_pow2_pos(s);
        lemma_div_multiples_vanish(units as int, pow2(s) as int);
    }
}

/// The doublings of `normal_shift` end in a normalised significand, after
/// at most 52 of them.
proof fn lemma_normal_shift_bounds(units: nat)
    requires
        0 < units <= MAX_UNITS,
    ensures
        normal_shift(units) <= 52,
        HIDDEN_BIT <= units * pow2(normal_shift(units)) < 2 * HIDDEN_BIT,
    decreases below_hidden_bit(units),
{
    lemma2_to64();
    if units >= HIDDEN_BIT {
        assert(units * pow2(0) == units);
    } else {
        lemma_normal_shift_bounds(2 * units);
        let t = normal_shift(2 * units);
        lemma_pow2_unfold(t + 1);
        assert((2 * units) * pow2(t) == units * pow2(t + 1)) by (nonlinear_arith)
            requires
                pow2(t + 1) == 2 * pow2(t),
        ;
        lemma_shift_bound(units, t + 1);
    }
}

} // verus!
