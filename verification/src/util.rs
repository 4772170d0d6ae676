//! The order of numbers that are held as 64-bit patterns.

use crate::distance::INFINITY;
use vstd::prelude::*;

verus! {

/// The pattern of the sign alone. A pattern from here up stands for a number
/// with the sign set; the rest of the pattern is its size.
pub const SIGN: u64 = 0x8000_0000_0000_0000;

/// The pattern of the number one.
pub const ONE: u64 = 0x3ff0_0000_0000_0000;

/// The pattern of the distance from one to the next number above it, below
/// which a number counts as nothing.
pub const EPSILON: u64 = 0x3cb0_0000_0000_0000;

/// Whether the pattern stands for a number: its size is at most infinity.
pub open spec fn is_number(bits: u64) -> bool {
    bits % SIGN <= INFINITY
}

/// The place of a number in the order of all numbers: its size, counted
/// downwards from zero where the sign is set. Both zeros have the same place.
pub open spec fn rank(bits: u64) -> int {
    if bits >= SIGN {
        -(bits % SIGN)
    } else {
        bits as int
    }
}

/// Whether the first pattern stands for a number below the second. What is no
/// number is neither below nor above anything.
pub open spec fn less(a: u64, b: u64) -> bool {
    is_number(a) && is_number(b) && rank(a) < rank(b)
}

/// Whether the first pattern stands for a number that is at least the second.
pub open spec fn at_least(a: u64, b: u64) -> bool {
    is_number(a) && is_number(b) && rank(a) >= rank(b)
}

/// Whether the pattern stands for a number whose size is below `EPSILON`.
pub open spec fn negligible(bits: u64) -> bool {
    bits % SIGN < EPSILON
}

fn place(bits: u64) -> (at: i128)
    ensures
        at == rank(bits),
{
    if bits >= SIGN {
        -((bits % SIGN) as i128)
    } else {
        bits as i128
    }
}

/// Whether the first pattern stands for a number below the second.
pub fn less_than(a: u64, b: u64) -> (below: bool)
    ensures
        below == less(a, b),
{
    a % SIGN <= INFINITY && b % SIGN <= INFINITY && place(a) < place(b)
}

/// Whether the first pattern stands for a number that is at least the second.
pub fn not_below(a: u64, b: u64) -> (reached: bool)
    ensures
        reached == at_least(a, b),
{
    a % SIGN <= INFINITY && b % SIGN <= INFINITY && place(a) >= place(b)
}

/// Whether the pattern stands for a number whose size is below `EPSILON`.
pub fn is_negligible(bits: u64) -> (small: bool)
    ensures
        small == negligible(bits),
{
    bits % SIGN < EPSILON
}

/// The lesser of two numbers: the first where it is below the second, else
/// the second.
pub fn fmin(a: u64, b: u64) -> (least: u64)
    ensures
        least == (if less(a, b) {
            a
        } else {
            b
        }),
        !less(a, least) && !less(b, least),
{
    if less_than(a, b) {
        a
    } else {
        b
    }
}

/// The greater of two numbers: the first where it is above the second, else
/// the second.
pub fn fmax(a: u64, b: u64) -> (greatest: u64)
    ensures
        greatest == (if less(b, a) {
            a
        } else {
            b
        }),
        !less(greatest, a) && !less(greatest, b),
{
    if less_than(b, a) {
        a
    } else {
        b
    }
}

} // verus!
