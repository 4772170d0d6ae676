//! Coefficients, held as 64-bit patterns, and the arithmetic that reads them.

use crate::util::{at_least, not_below, ONE};
use vstd::arithmetic::div_mod::{
    lemma_div_denominator, lemma_fundamental_div_mod, lemma_mod_bound,
};
use vstd::arithmetic::power2::{
    lemma2_to64, lemma2_to64_rest, lemma_pow2_pos, lemma_pow2_strictly_increases,
    lemma_pow2_unfold, pow2,
};
use vstd::prelude::*;

verus! {

/// Two to the fifty-second: the number of patterns that share one exponent.
pub const FRACTION: u64 = 0x10_0000_0000_0000;

/// Two to the fifty-third: the least whole number of fifty-four bits.
pub const PRECISION: u64 = 0x20_0000_0000_0000;

/// A coefficient, held as the 64-bit pattern of a binary floating-point number
/// of double precision.
#[derive(Clone, Copy, Debug, PartialEq, Eq, Structural)]
pub struct Scale {
    pub bits: u64,
}

/// The exponent field of the pattern of a number that is not below zero: what
/// is left of the pattern above the fraction.
pub open spec fn pattern_exponent(bits: u64) -> int {
    (bits / FRACTION) as int
}

/// The fraction field of a pattern.
pub open spec fn pattern_fraction(bits: u64) -> int {
    (bits % FRACTION) as int
}

/// The whole number that a pattern holds before its exponent is applied: the
/// fraction, and above it a leading one unless the exponent field is zero.
pub open spec fn significand(bits: u64) -> int {
    if pattern_exponent(bits) == 0 {
        pattern_fraction(bits)
    } else {
        FRACTION + pattern_fraction(bits)
    }
}

/// The power of two by which the significand is multiplied.
pub open spec fn binary_exponent(bits: u64) -> int {
    if pattern_exponent(bits) == 0 {
        -1074
    } else {
        pattern_exponent(bits) - 1075
    }
}

/// The numerator of the number that a pattern above zero and below infinity
/// stands for, written as a ratio with a power of two beneath it.
pub open spec fn exact_num(bits: u64) -> int {
    if binary_exponent(bits) >= 0 {
        significand(bits) * pow2(binary_exponent(bits) as nat)
    } else {
        significand(bits)
    }
}

/// The denominator of the number that a pattern above zero and below infinity
/// stands for.
pub open spec fn exact_den(bits: u64) -> int {
    if binary_exponent(bits) >= 0 {
        1
    } else {
        pow2((-binary_exponent(bits)) as nat) as int
    }
}

/// The number of bits that a whole number has beyond fifty-three.
pub open spec fn excess(m: nat) -> nat
    decreases m,
{
    if m < PRECISION {
        0
    } else {
        1 + excess(m / 2)
    }
}

/// The multiple of two to the power `shift` that is nearest to `m`, and of two
/// that are as near the one that is an even multiple.
pub open spec fn round_to_even(m: nat, shift: nat) -> nat {
    let unit = pow2(shift);
    let quotient = m / unit;
    let rest = m % unit;
    if 2 * rest > unit || (2 * rest == unit && quotient % 2 == 1) {
        (quotient + 1) * unit
    } else {
        quotient * unit
    }
}

/// A whole number rounded to fifty-three significant bits, ties to even: what
/// arithmetic in double precision keeps of it.
pub open spec fn rounded(m: nat) -> nat {
    round_to_even(m, excess(m))
}

/// A whole number of more than fifty-three bits lies between the two powers of
/// two that its excess names.
pub proof fn excess_bounds(m: nat)
    ensures
        excess(m) == 0 <==> m < PRECISION,
        pow2(excess(m)) * FRACTION <= m || excess(m) == 0,
        m < pow2(excess(m)) * PRECISION,
    decreases m,
{
    lemma2_to64();
    if m >= PRECISION {
        excess_bounds(m / 2);
        let s = excess(m / 2);
        lemma_pow2_unfold(s + 1);
        lemma_pow2_pos(s);
        assert(m < pow2(s + 1) * PRECISION) by (nonlinear_arith)
            requires
                m / 2 < pow2(s) * PRECISION,
                pow2(s + 1) == 2 * pow2(s),
        ;
        if s == 0 {
            assert(pow2(1) * FRACTION <= m);
        } else {
            assert(pow2(s + 1) * FRACTION <= m) by (nonlinear_arith)
                requires
                    pow2(s) * FRACTION <= m / 2,
                    pow2(s + 1) == 2 * pow2(s),
            ;
        }
    }
}

/// Rounding keeps a whole number of up to fifty-three bits as it is, and puts
/// any other on one of the two multiples of the unit that lie about it.
pub proof fn rounded_bounds(m: nat)
    ensures
        excess(m) == 0 ==> rounded(m) == m,
        ({
            let unit = pow2(excess(m));
            let quotient = m / unit;
            &&& unit >= 1
            &&& quotient * unit <= m < (quotient + 1) * unit
            &&& rounded(m) == quotient * unit || rounded(m) == (quotient + 1) * unit
            &&& excess(m) > 0 ==> FRACTION <= quotient < PRECISION
        }),
{
    let shift = excess(m);
    let unit = pow2(shift);
    let quotient = m / unit;
    let rest = m % unit;
    excess_bounds(m);
    lemma_pow2_pos(shift);
    lemma2_to64();
    lemma_fundamental_div_mod(m as int, unit as int);
    lemma_mod_bound(m as int, unit as int);
    assert(quotient * unit <= m < (quotient + 1) * unit) by (nonlinear_arith)
        requires
            m == unit * quotient + rest,
            0 <= rest < unit,
    ;
    if shift == 0 {
        assert(unit == 1);
        assert(m as int / 1 == m);
        assert(m as int % 1 == 0);
        assert(quotient == m && rest == 0);
        assert(quotient * unit == m);
    } else {
        assert(FRACTION <= quotient < PRECISION) by (nonlinear_arith)
            requires
                unit * FRACTION <= m,
                m < unit * PRECISION,
                m == unit * quotient + rest,
                0 <= rest < unit,
        ;
    }
}

pub(crate) fn power_of_two(exponent: u64) -> (power: u64)
    requires
        exponent <= 62,
    ensures
        power == pow2(exponent as nat),
        power >= 1,
{
    let mut power: u64 = 1;
    let mut i: u64 = 0;
    proof {
        lemma2_to64();
    }
    while i < exponent
        invariant
            i <= exponent <= 62,
            power == pow2(i as nat),
            1 <= power <= 0x4000_0000_0000_0000,
        decreases exponent - i,
    {
        proof {
            lemma_pow2_unfold((i + 1) as nat);
            lemma2_to64_rest();
            if i + 1 < 62 {
                lemma_pow2_strictly_increases((i + 1) as nat, 62);
            }
        }
        power = 2 * power;
        i += 1;
    }
    power
}

/// Rounds a whole number below two to the sixty-first to fifty-three
/// significant bits, ties to even.
pub(crate) fn round_to_precision(m: u64) -> (kept: u64)
    requires
        m < 0x2000_0000_0000_0000,
    ensures
        kept == rounded(m as nat),
        kept <= 0x2000_0000_0000_0000,
        m < PRECISION ==> kept == m,
        2 * kept >= m,
{
    let mut shift: u64 = 0;
    let mut top: u64 = m;
    proof {
        lemma2_to64();
        lemma2_to64_rest();
    }
    while top >= PRECISION
        invariant
            top == m as nat / pow2(shift as nat),
            excess(m as nat) == shift + excess(top as nat),
            shift <= 8,
            m < 0x2000_0000_0000_0000,
        decreases top,
    {
        proof {
            let unit = pow2(shift as nat);
            lemma_pow2_pos(shift as nat);
            lemma_pow2_unfold((shift + 1) as nat);
            lemma_div_denominator(m as int, unit as int, 2);
            assert(unit * 2 == pow2((shift + 1) as nat));
            lemma_fundamental_div_mod(m as int, unit as int);
            lemma_mod_bound(m as int, unit as int);
            if shift >= 8 {
                lemma2_to64();
                assert(unit == 256);
                assert(false) by (nonlinear_arith)
                    requires
                        unit == 256,
                        top >= 0x20_0000_0000_0000,
                        m < 0x2000_0000_0000_0000,
                        m == unit * (top as int) + (m as int % unit as int),
                        0 <= m as int % unit as int,
                ;
            }
        }
        top = top / 2;
        shift += 1;
    }
    let unit: u64 = power_of_two(shift);
    let quotient: u64 = m / unit;
    let rest: u64 = m % unit;
    proof {
        lemma2_to64();
        if shift < 8 {
            lemma_pow2_strictly_increases(shift as nat, 8);
        }
        assert(unit <= 256);
        lemma_fundamental_div_mod(m as int, unit as int);
        excess_bounds(m as nat);
        assert(quotient < PRECISION);
        assert((quotient + 1) * unit <= 0x2000_0000_0000_0000) by (nonlinear_arith)
            requires
                quotient + 1 <= 0x20_0000_0000_0000,
                0 < unit <= 256,
        ;
        assert(quotient * unit <= m) by (nonlinear_arith)
            requires
                m == unit * quotient + rest,
                rest >= 0,
        ;
        assert((quotient + 1) * unit >= quotient * unit) by (nonlinear_arith)
            requires
                unit > 0,
        ;
        if shift == 0 {
            assert(unit == 1);
            assert(quotient == m && rest == 0);
            assert(quotient * unit == m);
        } else {
            assert(quotient >= FRACTION) by (nonlinear_arith)
                requires
                    unit * FRACTION <= m,
                    m == unit * quotient + rest,
                    rest < unit,
                    unit > 0,
            ;
            assert(2 * (quotient * unit) >= m) by (nonlinear_arith)
                requires
                    m == unit * quotient + rest,
                    rest < unit,
                    quotient >= 1,
                    unit > 0,
            ;
        }
    }
    if 2 * rest > unit || (2 * rest == unit && quotient % 2 == 1) {
        (quotient + 1) * unit
    } else {
        quotient * unit
    }
}

impl Scale {
    /// Whether the coefficient is a number that is at most zero.
    pub open spec fn at_most_zero(self) -> bool {
        at_least(0, self.bits)
    }

    /// The coefficient of the given pattern.
    pub fn from_bits(bits: u64) -> (made: Scale)
        ensures
            made.bits == bits,
    {
        Scale { bits }
    }

    /// The coefficient zero.
    pub fn zero() -> (made: Scale)
        ensures
            made.bits == 0,
    {
        Scale { bits: 0 }
    }

    /// The coefficient one.
    pub fn one() -> (made: Scale)
        ensures
            made.bits == ONE,
    {
        Scale { bits: ONE }
    }

    /// Whether the coefficient is a number that is at most zero. What is no
    /// number is not.
    pub fn is_at_most_zero(&self) -> (low: bool)
        ensures
            low == self.at_most_zero(),
    {
        not_below(0, self.bits)
    }
}

} // verus!
