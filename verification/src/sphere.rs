//! Spheres.

use crate::appearance::Appearance;
use crate::distance::Distance;
use crate::util::{is_negligible, less, less_than, negligible};
use crate::vec3::Vec3;
use vstd::prelude::*;

verus! {

/// A sphere: its centre, its radius as a 64-bit pattern, and its appearance.
#[derive(Clone, Copy, Debug)]
pub struct Sphere {
    pub center: Vec3,
    pub radius: u64,
    pub appearance: Appearance,
}

/// The roots that count for a discriminant: none where it is below zero, the
/// one root of a tangent ray where its size is negligible, else the nearer
/// root and then the farther.
pub open spec fn spec_sphere_intersections(
    discriminant: u64,
    tangent: Distance,
    near: Distance,
    far: Distance,
) -> Seq<Distance> {
    if less(discriminant, 0) {
        Seq::empty()
    } else if negligible(discriminant) {
        seq![tangent]
    } else {
        seq![near, far]
    }
}

impl Sphere {
    /// A sphere of the given centre, radius and appearance.
    pub fn new(center: Vec3, radius: u64, appearance: Appearance) -> (sphere: Sphere)
        ensures
            sphere.center == center,
            sphere.radius == radius,
            sphere.appearance == appearance,
    {
        Sphere { center, radius, appearance }
    }

    /// The parameters at which a ray crosses the sphere, given the
    /// discriminant of the equation of the crossing and its roots: the one root
    /// of a discriminant of zero, and the two roots of a discriminant above
    /// zero, the nearer first. A discriminant below zero has no root; one
    /// whose size is negligible counts as zero.
    pub fn intersections(
        discriminant: u64,
        tangent: Distance,
        near: Distance,
        far: Distance,
    ) -> (crossings: Vec<Distance>)
        ensures
            crossings@ == spec_sphere_intersections(discriminant, tangent, near, far),
            less(discriminant, 0) ==> crossings@.len() == 0,
            !less(discriminant, 0) && negligible(discriminant) ==> crossings@ == seq![tangent],
            !less(discriminant, 0) && !negligible(discriminant) ==> crossings@ == seq![near, far],
    {
        let mut crossings: Vec<Distance> = Vec::new();
        if less_than(discriminant, 0) {
        } else if is_negligible(discriminant) {
            crossings.push(tangent);
        } else {
            crossings.push(near);
            crossings.push(far);
        }
        crossings
    }

    /// The appearance of the sphere.
    pub fn appearance(&self) -> (appearance: Appearance)
        ensures
            appearance == self.appearance,
    {
        self.appearance
    }
}

} // verus!
