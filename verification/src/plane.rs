//! Planes.

use crate::appearance::Appearance;
use crate::distance::Distance;
use crate::util::{is_negligible, negligible};
use crate::vec3::Vec3;
use vstd::prelude::*;

verus! {

/// A plane: a point on it, its normal of length one, and its appearance.
#[derive(Clone, Copy, Debug)]
pub struct Plane {
    pub point: Vec3,
    pub normal: Vec3,
    pub appearance: Appearance,
}

/// The crossing of a ray with a plane: none where the ray runs along the
/// plane, that is, where the cosine between its direction and the normal is
/// negligible; else the one crossing.
pub open spec fn spec_plane_intersections(cosine: u64, crossing: Distance) -> Seq<Distance> {
    if negligible(cosine) {
        Seq::empty()
    } else {
        seq![crossing]
    }
}

impl Plane {
    /// The plane through `point` with the given normal, which has length one.
    pub fn new(point: Vec3, normal: Vec3, appearance: Appearance) -> (plane: Plane)
        ensures
            plane.point == point,
            plane.normal == normal,
            plane.appearance == appearance,
    {
        Plane { point, normal, appearance }
    }

    /// The parameters at which a ray crosses the plane, given the cosine
    /// between the ray's direction and the normal, and the crossing that
    /// follows from it. A ray that runs along the plane crosses it nowhere.
    pub fn intersections(cosine: u64, crossing: Distance) -> (crossings: Vec<Distance>)
        ensures
            crossings@ == spec_plane_intersections(cosine, crossing),
            negligible(cosine) ==> crossings@.len() == 0,
            !negligible(cosine) ==> crossings@ == seq![crossing],
    {
        let mut crossings: Vec<Distance> = Vec::new();
        if !is_negligible(cosine) {
            crossings.push(crossing);
        }
        crossings
    }

    /// The normal of the plane, the same at every point.
    pub fn normal_at(&self, _point: &Vec3) -> (normal: Vec3)
        ensures
            normal == self.normal,
    {
        self.normal
    }

    /// The appearance of the plane.
    pub fn appearance(&self) -> (appearance: Appearance)
        ensures
            appearance == self.appearance,
    {
        self.appearance
    }
}

} // verus!
