//! Vectors of three numbers, carried and compared but never computed with.

use crate::util::{is_negligible, negligible, ONE, SIGN};
use vstd::prelude::*;

verus! {

/// One of the three axes of space.
#[derive(Clone, Copy, Debug, PartialEq, Eq, Structural)]
pub enum Axis {
    I,
    J,
    K,
}

/// A vector of three numbers, each held as its 64-bit pattern. Two vectors are
/// the same where all three patterns are.
#[derive(Clone, Copy, Debug, PartialEq, Eq, Structural)]
pub struct Vec3 {
    pub x: u64,
    pub y: u64,
    pub z: u64,
}

/// The error of asking for a component along a vector that is no axis.
#[derive(Clone, Copy, Debug, PartialEq, Eq, Structural)]
pub struct InvalidAxis;

/// Whether the pattern stands for a number nearer to one than `EPSILON`: one
/// itself, or the number just below it.
pub open spec fn near_one(bits: u64) -> bool {
    bits == ONE || bits == ONE - 1
}

/// The pattern of the same number with the other sign.
pub open spec fn negated(bits: u64) -> u64 {
    if bits >= SIGN {
        (bits - SIGN) as u64
    } else {
        (bits + SIGN) as u64
    }
}

fn negate(bits: u64) -> (flipped: u64)
    ensures
        flipped == negated(bits),
{
    if bits >= SIGN {
        bits - SIGN
    } else {
        bits + SIGN
    }
}

impl Axis {
    /// The two other axes, in the order I, J, K.
    pub open spec fn spec_others(self) -> (Axis, Axis) {
        match self {
            Axis::I => (Axis::J, Axis::K),
            Axis::J => (Axis::I, Axis::K),
            Axis::K => (Axis::I, Axis::J),
        }
    }

    /// The vector of length one along the axis.
    pub open spec fn spec_unit(self) -> Vec3 {
        match self {
            Axis::I => Vec3 { x: ONE, y: 0, z: 0 },
            Axis::J => Vec3 { x: 0, y: ONE, z: 0 },
            Axis::K => Vec3 { x: 0, y: 0, z: ONE },
        }
    }

    /// The two other axes, in the order I, J, K.
    pub fn others(&self) -> (rest: (Axis, Axis))
        ensures
            rest == self.spec_others(),
            rest.0 != *self,
            rest.1 != *self,
            rest.0 != rest.1,
    {
        match self {
            Axis::I => (Axis::J, Axis::K),
            Axis::J => (Axis::I, Axis::K),
            Axis::K => (Axis::I, Axis::J),
        }
    }

    /// The vector of length one along the axis.
    pub fn unit(&self) -> (vector: Vec3)
        ensures
            vector == self.spec_unit(),
            vector.spec_axis() == Some(*self),
    {
        match self {
            Axis::I => Vec3 { x: ONE, y: 0, z: 0 },
            Axis::J => Vec3 { x: 0, y: ONE, z: 0 },
            Axis::K => Vec3 { x: 0, y: 0, z: ONE },
        }
    }
}

impl Vec3 {
    /// The number that the vector has along an axis.
    pub open spec fn spec_along(self, axis: Axis) -> u64 {
        match axis {
            Axis::I => self.x,
            Axis::J => self.y,
            Axis::K => self.z,
        }
    }

    /// The axis that the vector is the unit of, each number taken for one or
    /// for zero where it is nearer to it than `EPSILON`; nothing where the
    /// vector is the unit of no axis.
    pub open spec fn spec_axis(self) -> Option<Axis> {
        if near_one(self.x) && negligible(self.y) && negligible(self.z) {
            Some(Axis::I)
        } else if negligible(self.x) && near_one(self.y) && negligible(self.z) {
            Some(Axis::J)
        } else if negligible(self.x) && negligible(self.y) && near_one(self.z) {
            Some(Axis::K)
        } else {
            None
        }
    }

    /// The vector with the sign of each number changed.
    pub open spec fn spec_invert(self) -> Vec3 {
        Vec3 { x: negated(self.x), y: negated(self.y), z: negated(self.z) }
    }

    /// The vector of the three given numbers.
    pub fn new(x: u64, y: u64, z: u64) -> (vector: Vec3)
        ensures
            vector.x == x,
            vector.y == y,
            vector.z == z,
    {
        Vec3 { x, y, z }
    }

    /// The vector of three zeros.
    pub fn zero() -> (vector: Vec3)
        ensures
            vector == (Vec3 { x: 0, y: 0, z: 0 }),
    {
        Vec3 { x: 0, y: 0, z: 0 }
    }

    /// The vector that points the other way: the sign of each number changed.
    pub fn invert(&self) -> (inverted: Vec3)
        ensures
            inverted == self.spec_invert(),
    {
        Vec3 { x: negate(self.x), y: negate(self.y), z: negate(self.z) }
    }

    /// The axis that the vector is the unit of, if it is the unit of one.
    pub fn axis(&self) -> (axis: Option<Axis>)
        ensures
            axis == self.spec_axis(),
    {
        let x_is_one = self.x == ONE || self.x == ONE - 1;
        let y_is_one = self.y == ONE || self.y == ONE - 1;
        let z_is_one = self.z == ONE || self.z == ONE - 1;
        if x_is_one && is_negligible(self.y) && is_negligible(self.z) {
            Some(Axis::I)
        } else if is_negligible(self.x) && y_is_one && is_negligible(self.z) {
            Some(Axis::J)
        } else if is_negligible(self.x) && is_negligible(self.y) && z_is_one {
            Some(Axis::K)
        } else {
            None
        }
    }

    /// The number that the vector has along an axis.
    pub fn along(&self, axis: &Axis) -> (number: u64)
        ensures
            number == self.spec_along(*axis),
    {
        match axis {
            Axis::I => self.x,
            Axis::J => self.y,
            Axis::K => self.z,
        }
    }

    /// The number that this vector has along the axis that `axis` is the unit
    /// of. A vector that is the unit of no axis is refused.
    pub fn component(&self, axis: &Vec3) -> (number: Result<u64, InvalidAxis>)
        ensures
            number == (match axis.spec_axis() {
                Some(found) => Ok::<u64, InvalidAxis>(self.spec_along(found)),
                None => Err::<u64, InvalidAxis>(InvalidAxis),
            }),
    {
        match axis.axis() {
            Some(found) => Ok(self.along(&found)),
            None => Err(InvalidAxis),
        }
    }
}

} // verus!
