//! Boxes whose faces lie along the axes.

use crate::appearance::Appearance;
use crate::distance::Distance;
use crate::util::{fmax, fmin, less, less_than, EPSILON, SIGN};
use crate::vec3::{Axis, Vec3};
use vstd::prelude::*;

verus! {

/// A box whose faces lie along the axes, given by two opposite corners: the
/// one of the least numbers and the one of the greatest.
#[derive(Clone, Copy, Debug)]
pub struct Prism {
    pub corner_ll: Vec3,
    pub corner_ur: Vec3,
    pub appearance: Appearance,
}

/// Where a ray crosses the plane of one face of a box.
#[derive(Clone, Copy, Debug)]
pub struct FaceCrossing {
    /// The value of the ray's parameter at the crossing.
    pub parameter: Distance,
    /// The point of the crossing.
    pub point: Vec3,
}

/// The pattern of the greatest distance, one hundred-thousandth, within which
/// a point counts as lying on a face.
pub const TOLERANCE: u64 = 0x3ee4_f8b5_88e3_68f1;

/// How far a point lies, along one axis, from the two faces of a box that are
/// square to that axis: each number a 64-bit pattern.
#[derive(Clone, Copy, Debug, PartialEq, Eq, Structural)]
pub struct FaceOffsets {
    /// From the point to the face of the least number along the axis.
    pub from_lower: u64,
    /// From the point to the face of the greatest number along the axis.
    pub from_upper: u64,
}

/// Whether an offset is small enough for the point to lie on the face: its
/// size is below the tolerance.
pub open spec fn on_face_within(offset: u64) -> bool {
    offset % SIGN < TOLERANCE
}

/// Whether a ray of the given direction along an axis runs along the faces
/// that are square to that axis, and so crosses neither: the size of that
/// number is not above `EPSILON`.
pub open spec fn runs_along(direction: u64) -> bool {
    !less(EPSILON, (direction % SIGN) as u64)
}

/// Whether, along the given axis, the point lies strictly between the two
/// corners.
pub open spec fn spec_contains(lower: Vec3, upper: Vec3, point: Vec3, axis: Axis) -> bool {
    less(lower.spec_along(axis), point.spec_along(axis)) && less(
        point.spec_along(axis),
        upper.spec_along(axis),
    )
}

/// Whether a crossing with a face that is square to `axis` lies on the box:
/// within its extent along both other axes.
pub open spec fn on_face(lower: Vec3, upper: Vec3, axis: Axis, crossing: FaceCrossing) -> bool {
    spec_contains(lower, upper, crossing.point, axis.spec_others().0) && spec_contains(
        lower,
        upper,
        crossing.point,
        axis.spec_others().1,
    )
}

/// The parameters of those crossings that lie on the box, in their order.
pub open spec fn crossings_on_face(
    lower: Vec3,
    upper: Vec3,
    axis: Axis,
    crossings: Seq<FaceCrossing>,
) -> Seq<Distance>
    decreases crossings.len(),
{
    if crossings.len() == 0 {
        Seq::empty()
    } else {
        let before = crossings_on_face(lower, upper, axis, crossings.drop_last());
        if on_face(lower, upper, axis, crossings.last()) {
            before.push(crossings.last().parameter)
        } else {
            before
        }
    }
}

/// The parameters at which a ray of the given direction crosses the two faces
/// that are square to `axis`: none where the ray runs along them, else those of
/// the crossings that lie on the box.
pub open spec fn spec_intersect_on_axis(
    lower: Vec3,
    upper: Vec3,
    axis: Axis,
    direction: Vec3,
    crossings: Seq<FaceCrossing>,
) -> Seq<Distance> {
    if runs_along(direction.spec_along(axis)) {
        Seq::empty()
    } else {
        crossings_on_face(lower, upper, axis, crossings)
    }
}

/// The normal at a point of the surface: along the first axis, in the order
/// I, J, K, with a face that the point lies on within the tolerance, against
/// the axis on the face of the least number, which is looked at first. Nothing
/// where the point lies on no face.
pub open spec fn spec_normal_at(i: FaceOffsets, j: FaceOffsets, k: FaceOffsets) -> Option<Vec3> {
    if on_face_within(i.from_lower) {
        Some(Axis::I.spec_unit().spec_invert())
    } else if on_face_within(i.from_upper) {
        Some(Axis::I.spec_unit())
    } else if on_face_within(j.from_lower) {
        Some(Axis::J.spec_unit().spec_invert())
    } else if on_face_within(j.from_upper) {
        Some(Axis::J.spec_unit())
    } else if on_face_within(k.from_lower) {
        Some(Axis::K.spec_unit().spec_invert())
    } else if on_face_within(k.from_upper) {
        Some(Axis::K.spec_unit())
    } else {
        None
    }
}

fn lies_on_face(offset: u64) -> (on: bool)
    ensures
        on == on_face_within(offset),
{
    offset % SIGN < TOLERANCE
}

impl Prism {
    /// The box between two opposite corners, whichever two they are: along each
    /// axis the lesser number goes to the one corner kept and the greater to
    /// the other.
    pub fn new(corner_a: Vec3, corner_b: Vec3, appearance: Appearance) -> (prism: Prism)
        ensures
            prism.appearance == appearance,
            forall|axis: Axis|
                #![trigger prism.corner_ll.spec_along(axis)]
                #![trigger prism.corner_ur.spec_along(axis)]
                {
                    let a = corner_a.spec_along(axis);
                    let b = corner_b.spec_along(axis);
                    &&& prism.corner_ll.spec_along(axis) == (if less(a, b) {
                        a
                    } else {
                        b
                    })
                    &&& prism.corner_ur.spec_along(axis) == (if less(b, a) {
                        a
                    } else {
                        b
                    })
                    &&& !less(
                        prism.corner_ur.spec_along(axis),
                        prism.corner_ll.spec_along(axis),
                    )
                },
    {
        Prism {
            corner_ll: Vec3::new(
                fmin(corner_a.x, corner_b.x),
                fmin(corner_a.y, corner_b.y),
                fmin(corner_a.z, corner_b.z),
            ),
            corner_ur: Vec3::new(
                fmax(corner_a.x, corner_b.x),
                fmax(corner_a.y, corner_b.y),
                fmax(corner_a.z, corner_b.z),
            ),
            appearance,
        }
    }

    /// Whether, along the given axis, the point lies strictly inside the box.
    pub fn contains(&self, point: &Vec3, axis: &Axis) -> (inside: bool)
        ensures
            inside == spec_contains(self.corner_ll, self.corner_ur, *point, *axis),
    {
        less_than(self.corner_ll.along(axis), point.along(axis)) && less_than(
            point.along(axis),
            self.corner_ur.along(axis),
        )
    }

    /// The parameters at which a ray crosses the two faces of the box that are
    /// square to `axis`, given the ray's direction and where it crosses their
    /// planes. A ray that runs along the faces crosses neither. Otherwise a
    /// crossing counts where its point lies strictly inside the box along both
    /// other axes.
    pub fn intersect_on_axis(
        &self,
        axis: &Axis,
        direction: &Vec3,
        crossings: &Vec<FaceCrossing>,
    ) -> (intersections: Vec<Distance>)
        ensures
            intersections@ == spec_intersect_on_axis(
                self.corner_ll,
                self.corner_ur,
                *axis,
                *direction,
                crossings@,
            ),
            runs_along(direction.spec_along(*axis)) ==> intersections@.len() == 0,
    {
        let mut intersections: Vec<Distance> = Vec::new();
        if !less_than(EPSILON, direction.along(axis) % SIGN) {
            return intersections;
        }
        let (first, second) = axis.others();
        let mut i: usize = 0;
        while i < crossings.len()
            invariant
                i <= crossings.len(),
                (first, second) == axis.spec_others(),
                intersections@ == crossings_on_face(
                    self.corner_ll,
                    self.corner_ur,
                    *axis,
                    crossings@.take(i as int),
                ),
            decreases crossings.len() - i,
        {
            proof {
                assert(crossings@.take(i + 1).drop_last() == crossings@.take(i as int));
            }
            let crossing = crossings[i];
            if self.contains(&crossing.point, &first) && self.contains(&crossing.point, &second) {
                intersections.push(crossing.parameter);
            }
            i += 1;
        }
        proof {
            assert(crossings@.take(i as int) == crossings@);
        }
        intersections
    }

    /// The parameters at which a ray crosses the surface of the box, given the
    /// ray's direction and where it crosses the planes of the faces square to
    /// I, to J and to K: those for I first, then those for J, then those for K.
    pub fn intersections(
        &self,
        direction: &Vec3,
        along_i: &Vec<FaceCrossing>,
        along_j: &Vec<FaceCrossing>,
        along_k: &Vec<FaceCrossing>,
    ) -> (intersections: Vec<Distance>)
        ensures
            intersections@ == spec_intersect_on_axis(
                self.corner_ll,
                self.corner_ur,
                Axis::I,
                *direction,
                along_i@,
            ) + spec_intersect_on_axis(
                self.corner_ll,
                self.corner_ur,
                Axis::J,
                *direction,
                along_j@,
            ) + spec_intersect_on_axis(
                self.corner_ll,
                self.corner_ur,
                Axis::K,
                *direction,
                along_k@,
            ),
    {
        let mut intersections = self.intersect_on_axis(&Axis::I, direction, along_i);
        let mut second = self.intersect_on_axis(&Axis::J, direction, along_j);
        let mut third = self.intersect_on_axis(&Axis::K, direction, along_k);
        intersections.append(&mut second);
        intersections.append(&mut third);
        intersections
    }

    /// The normal at a point of the surface, of length one and pointing
    /// outwards, given for each axis how far the point lies from the two faces
    /// square to it. The point must lie on some face within the tolerance.
    pub fn normal_at(i: FaceOffsets, j: FaceOffsets, k: FaceOffsets) -> (normal: Vec3)
        requires
            on_face_within(i.from_lower) || on_face_within(i.from_upper) || on_face_within(
                j.from_lower,
            ) || on_face_within(j.from_upper) || on_face_within(k.from_lower) || on_face_within(
                k.from_upper,
            ),
        ensures
            spec_normal_at(i, j, k) == Some(normal),
    {
        if lies_on_face(i.from_lower) {
            Axis::I.unit().invert()
        } else if lies_on_face(i.from_upper) {
            Axis::I.unit()
        } else if lies_on_face(j.from_lower) {
            Axis::J.unit().invert()
        } else if lies_on_face(j.from_upper) {
            Axis::J.unit()
        } else if lies_on_face(k.from_lower) {
            Axis::K.unit().invert()
        } else {
            Axis::K.unit()
        }
    }

    /// Whether a point lies on some face of the box within the tolerance, given
    /// for each axis how far it lies from the two faces square to it.
    pub fn on_surface(i: FaceOffsets, j: FaceOffsets, k: FaceOffsets) -> (on: bool)
        ensures
            on == (spec_normal_at(i, j, k) is Some),
    {
        lies_on_face(i.from_lower) || lies_on_face(i.from_upper) || lies_on_face(j.from_lower)
            || lies_on_face(j.from_upper) || lies_on_face(k.from_lower) || lies_on_face(
            k.from_upper,
        )
    }
}

} // verus!
