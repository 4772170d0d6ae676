//! Lengths along a ray, held as ordered keys.

use vstd::prelude::*;

verus! {

/// The key of the length that no hit reaches: infinity.
pub const INFINITY: u64 = 0x7ff0_0000_0000_0000;

/// The key of the least length that counts as a hit, one millionth. A crossing
/// at or below it is taken for the surface that the ray starts from.
pub const THRESHOLD: u64 = 0x3eb0_c6f7_a0b5_ed8d;

/// The key of the snap distance, one hundredth: a moving camera that is nearer
/// to its target than this is put on the target.
pub const SNAP: u64 = 0x3f84_7ae1_47ae_147b;

/// A length along a ray, held as a key: the 64-bit pattern of a binary
/// floating-point number of double precision. For numbers from zero up to
/// infinity the order of the patterns is the order of the numbers, so keys up
/// to `INFINITY` are compared as plain integers. Every larger key stands for a
/// value that is no length: a number below zero, or no number at all.
#[derive(Clone, Copy, Debug, PartialEq, Eq, Structural)]
pub struct Distance {
    pub key: u64,
}

impl Distance {
    /// Whether the key stands for a length, from zero up to infinity.
    pub open spec fn is_length(self) -> bool {
        self.key <= INFINITY
    }

    /// Whether the key stands for a crossing that counts as a hit: a length
    /// above the threshold.
    pub open spec fn is_hit(self) -> bool {
        THRESHOLD < self.key <= INFINITY
    }

    /// Whether this value is below the other, as numbers: both are lengths and
    /// the keys are in that order. A value that is no length is neither below
    /// nor above anything.
    pub open spec fn below(self, other: Distance) -> bool {
        self.key < other.key && other.key <= INFINITY
    }

    /// Whether this value is at most the other, as numbers.
    pub open spec fn at_most(self, other: Distance) -> bool {
        self.key <= other.key && other.key <= INFINITY
    }

    /// The length that no hit reaches.
    pub fn infinity() -> (far: Distance)
        ensures
            far.key == INFINITY,
    {
        Distance { key: INFINITY }
    }

    /// Whether this is the length that no hit reaches.
    pub fn is_infinite(&self) -> (infinite: bool)
        ensures
            infinite == (self.key == INFINITY),
    {
        self.key == INFINITY
    }

    /// Whether a crossing at this value counts as a hit.
    pub fn counts_as_hit(&self) -> (hit: bool)
        ensures
            hit == self.is_hit(),
    {
        THRESHOLD < self.key && self.key <= INFINITY
    }

    /// Whether this value is below the other, as numbers.
    pub fn is_below(&self, other: &Distance) -> (less: bool)
        ensures
            less == self.below(*other),
    {
        self.key < other.key && other.key <= INFINITY
    }

    /// Whether this value is at most the other, as numbers.
    pub fn is_at_most(&self, other: &Distance) -> (within: bool)
        ensures
            within == self.at_most(*other),
    {
        self.key <= other.key && other.key <= INFINITY
    }
}

} // verus!
