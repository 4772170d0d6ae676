//! Triangle meshes: which numbers of the vertex list make up each triangle,
//! and which triangle a ray is taken to hit.

use crate::appearance::Appearance;
use crate::distance::{Distance, THRESHOLD};
use crate::util::{at_least, not_below, ONE};
use crate::vec3::Vec3;
use vstd::prelude::*;

verus! {

/// Why a list of vertex indices does not describe a mesh.
#[derive(Clone, Copy, Debug, PartialEq, Eq, Structural)]
pub enum MeshError {
    /// The number of indices is no multiple of three.
    IncompleteTriangle,
    /// An index names a vertex whose coordinates the list of positions does not
    /// hold.
    MissingVertex,
}

/// Whether every index names a vertex whose three coordinates lie within
/// `positions` numbers.
pub open spec fn vertices_present(indices: Seq<u32>, positions: int) -> bool {
    forall|i: int| 0 <= i < indices.len() ==> 3 * (#[trigger] indices[i]) + 3 <= positions
}

/// A mesh of triangles with one appearance. The vertices lie in a flat list of
/// numbers, three for each vertex; the mesh holds the length of that list and,
/// for each triangle, the indices of its three vertices. Every mesh is whole:
/// the indices come in threes and each names a vertex of the list.
pub struct ColoredMesh {
    indices: Vec<u32>,
    positions: usize,
    location: Vec3,
    appearance: Appearance,
}

/// Where a ray crosses the plane of a triangle, as measured: each number but
/// the parameter is a 64-bit pattern.
#[derive(Clone, Copy, Debug)]
pub struct TriangleCrossing {
    /// The determinant: how squarely the ray faces the triangle.
    pub det: u64,
    /// The value of the ray's parameter at the crossing.
    pub t: Distance,
    /// The share of the first edge in the crossing.
    pub u: u64,
    /// The share of the second edge in the crossing.
    pub v: u64,
    /// The sum of the two shares.
    pub sum: u64,
    /// The point of the crossing.
    pub point: Vec3,
}

/// What was measured between one triangle of a mesh and a ray.
#[derive(Clone, Copy, Debug)]
pub struct TriangleSample {
    /// Where the ray crosses the plane of the triangle.
    pub crossing: TriangleCrossing,
    /// The distance from the ray's origin to each corner of the triangle.
    pub corners: [Distance; 3],
}

/// Whether a crossing with the plane of a triangle lies on the triangle, seen
/// from its front: the determinant is at least the threshold, the parameter
/// and both shares are at least zero, and the shares sum to at most one.
pub open spec fn meets(crossing: TriangleCrossing) -> bool {
    &&& at_least(crossing.det, THRESHOLD)
    &&& at_least(crossing.t.key, 0)
    &&& at_least(crossing.u, 0)
    &&& at_least(crossing.v, 0)
    &&& at_least(ONE, crossing.sum)
}

/// Whether a crossing with the plane of a triangle lies on the triangle, seen
/// from its front.
pub fn crossing_meets(crossing: &TriangleCrossing) -> (met: bool)
    ensures
        met == meets(*crossing),
{
    not_below(crossing.det, THRESHOLD) && not_below(crossing.t.key, 0) && not_below(crossing.u, 0)
        && not_below(crossing.v, 0) && not_below(ONE, crossing.sum)
}

/// Whether some corner of `current` is nearer than every corner of `best`.
pub open spec fn has_nearer_corner(current: TriangleSample, best: TriangleSample) -> bool {
    exists|j: int|
        0 <= j < 3 && #[trigger] nearer_than_all(current.corners@[j], best.corners@)
}

/// Whether a distance is below each of three others.
pub open spec fn nearer_than_all(corner: Distance, others: Seq<Distance>) -> bool {
    corner.below(others[0]) && corner.below(others[1]) && corner.below(others[2])
}

/// The parameters at which a ray meets the triangles of a mesh, in the order
/// of the triangles.
pub open spec fn spec_intersections(samples: Seq<TriangleSample>) -> Seq<Distance>
    decreases samples.len(),
{
    if samples.len() == 0 {
        Seq::empty()
    } else {
        let before = spec_intersections(samples.drop_last());
        if meets(samples.last().crossing) {
            before.push(samples.last().crossing.t)
        } else {
            before
        }
    }
}

/// The triangle whose normal stands for the mesh where a ray hits it, among the
/// first `count` triangles: of those that the ray meets, the first, unless a
/// later one has a corner nearer to the ray's origin than every corner of the
/// one chosen so far. Nothing where the ray meets none of them.
pub open spec fn spec_facing_triangle(samples: Seq<TriangleSample>, count: int) -> Option<int>
    decreases count,
{
    if count <= 0 {
        None
    } else {
        let before = spec_facing_triangle(samples, count - 1);
        let current = samples[count - 1];
        if !meets(current.crossing) {
            before
        } else {
            match before {
                None => Some(count - 1),
                Some(best) => if has_nearer_corner(current, samples[best]) {
                    Some(count - 1)
                } else {
                    before
                },
            }
        }
    }
}

/// The triangle chosen is one that the ray meets, and one is chosen as soon as
/// the ray meets any.
pub proof fn facing_triangle_is_hit(samples: Seq<TriangleSample>, count: int)
    requires
        0 <= count <= samples.len(),
    ensures
        spec_facing_triangle(samples, count) matches Some(chosen) ==> 0 <= chosen < count
            && meets(samples[chosen].crossing),
        spec_facing_triangle(samples, count) is None <==> forall|i: int|
            0 <= i < count ==> !meets((#[trigger] samples[i]).crossing),
    decreases count,
{
    if count > 0 {
        facing_triangle_is_hit(samples, count - 1);
        if spec_facing_triangle(samples, count) is None {
            assert forall|i: int| 0 <= i < count implies !meets(
                (#[trigger] samples[i]).crossing,
            ) by {}
        }
    }
}

fn nearer_corner(current: &TriangleSample, best: &TriangleSample) -> (nearer: bool)
    ensures
        nearer == has_nearer_corner(*current, *best),
{
    let mut j: usize = 0;
    while j < 3
        invariant
            j <= 3,
            forall|k: int|
                0 <= k < j ==> !#[trigger] nearer_than_all(current.corners@[k], best.corners@),
        decreases 3 - j,
    {
        let corner = current.corners[j];
        if corner.is_below(&best.corners[0]) && corner.is_below(&best.corners[1])
            && corner.is_below(&best.corners[2]) {
            assert(nearer_than_all(current.corners@[j as int], best.corners@));
            return true;
        }
        j += 1;
    }
    false
}

impl ColoredMesh {
    /// The indices of the vertices, three for each triangle.
    pub closed spec fn indices(&self) -> Seq<u32> {
        self.indices@
    }

    /// The length of the list of positions that the indices refer to.
    pub closed spec fn positions(&self) -> int {
        self.positions as int
    }

    /// The appearance that the mesh was made with.
    pub closed spec fn spec_appearance(&self) -> Appearance {
        self.appearance
    }

    /// The place that the mesh was made with.
    pub closed spec fn spec_location(&self) -> Vec3 {
        self.location
    }

    #[verifier::type_invariant]
    spec fn whole(&self) -> bool {
        self.indices@.len() % 3 == 0 && vertices_present(self.indices@, self.positions as int)
    }

    /// A mesh of the triangles that `indices` names among the vertices of a
    /// list of `positions` numbers, or the reason why there is no such mesh: an
    /// incomplete triangle where the indices do not come in threes, else a
    /// missing vertex where an index points beyond the list.
    pub fn new(
        indices: Vec<u32>,
        positions: usize,
        location: Vec3,
        appearance: Appearance,
    ) -> (made: Result<ColoredMesh, MeshError>)
        ensures
            indices@.len() % 3 != 0 <==> made == Err::<ColoredMesh, MeshError>(
                MeshError::IncompleteTriangle,
            ),
            indices@.len() % 3 == 0 && !vertices_present(indices@, positions as int) <==> made
                == Err::<ColoredMesh, MeshError>(MeshError::MissingVertex),
            made matches Ok(mesh) ==> {
                &&& mesh.indices() == indices@
                &&& mesh.positions() == positions
                &&& mesh.spec_location() == location
                &&& mesh.spec_appearance() == appearance
            },
    {
        if indices.len() % 3 != 0 {
            return Err(MeshError::IncompleteTriangle);
        }
        let mut i: usize = 0;
        while i < indices.len()
            invariant
                i <= indices.len(),
                indices@.len() % 3 == 0,
                forall|j: int| 0 <= j < i ==> 3 * (#[trigger] indices@[j]) + 3 <= positions,
            decreases indices.len() - i,
        {
            if 3 * (indices[i] as u64) + 3 > positions as u64 {
                return Err(MeshError::MissingVertex);
            }
            i += 1;
        }
        Ok(ColoredMesh { indices, positions, location, appearance })
    }

    /// The appearance of the mesh.
    pub fn appearance(&self) -> (appearance: Appearance)
        ensures
            appearance == self.spec_appearance(),
    {
        self.appearance
    }

    /// Where the mesh stands.
    pub fn location(&self) -> (location: Vec3)
        ensures
            location == self.spec_location(),
    {
        self.location
    }

    /// The triangles of the mesh. Each is given by three offsets into the list
    /// of positions, one for each corner: the three coordinates of the corner
    /// start there, and all lie within the list.
    pub fn triangles(&self) -> (triangles: Vec<[usize; 3]>)
        ensures
            triangles@.len() == self.indices().len() / 3,
            forall|t: int, c: int|
                0 <= t < triangles@.len() && 0 <= c < 3 ==> (#[trigger] triangles@[t]@[c]) == 3
                    * self.indices()[3 * t + c] && triangles@[t]@[c] + 3 <= self.positions(),
    {
        proof {
            use_type_invariant(self);
        }
        let mut triangles: Vec<[usize; 3]> = Vec::new();
        let length: usize = self.indices.len();
        let count: usize = length / 3;
        let mut t: usize = 0;
        while t < count
            invariant
                t <= count,
                count == self.indices@.len() / 3,
                length == self.indices@.len(),
                length == 3 * count,
                vertices_present(self.indices@, self.positions as int),
                triangles@.len() == t,
                forall|s: int, c: int|
                    0 <= s < t && 0 <= c < 3 ==> (#[trigger] triangles@[s]@[c]) == 3
                        * self.indices@[3 * s + c] && triangles@[s]@[c] + 3 <= self.positions,
            decreases count - t,
        {
            let a: usize = self.corner_offset(3 * t);
            let b: usize = self.corner_offset(3 * t + 1);
            let c: usize = self.corner_offset(3 * t + 2);
            triangles.push([a, b, c]);
            t += 1;
        }
        triangles
    }

    fn corner_offset(&self, i: usize) -> (offset: usize)
        requires
            i < self.indices().len(),
        ensures
            offset == 3 * self.indices()[i as int],
            offset + 3 <= self.positions(),
    {
        proof {
            use_type_invariant(self);
        }
        let index: u32 = self.indices[i];
        let wide: u64 = 3 * (index as u64);
        wide as usize
    }

    /// The point and the parameter at which a ray meets a triangle, given where
    /// it crosses the triangle's plane; nothing where the crossing lies off the
    /// triangle, behind the ray's origin, or on the back of the triangle.
    pub fn intersect_triangle(crossing: &TriangleCrossing) -> (met: Option<(Vec3, Distance)>)
        ensures
            met == (if meets(*crossing) {
                Some((crossing.point, crossing.t))
            } else {
                None
            }),
    {
        if crossing_meets(crossing) {
            Some((crossing.point, crossing.t))
        } else {
            None
        }
    }

    /// The parameters at which a ray meets the mesh: one for each triangle that
    /// the ray meets, in the order of the triangles.
    pub fn intersections(samples: &Vec<TriangleSample>) -> (crossings: Vec<Distance>)
        ensures
            crossings@ == spec_intersections(samples@),
    {
        let mut crossings: Vec<Distance> = Vec::new();
        let mut i: usize = 0;
        while i < samples.len()
            invariant
                i <= samples.len(),
                crossings@ == spec_intersections(samples@.take(i as int)),
            decreases samples.len() - i,
        {
            proof {
                assert(samples@.take(i + 1).drop_last() == samples@.take(i as int));
            }
            match ColoredMesh::intersect_triangle(&samples[i].crossing) {
                Some((_, t)) => {
                    crossings.push(t);
                },
                None => {},
            }
            i += 1;
        }
        proof {
            assert(samples@.take(i as int) == samples@);
        }
        crossings
    }

    /// The triangle whose normal stands for the mesh where the ray hits it,
    /// by its place among the samples. The ray must meet some triangle.
    pub fn normal_at(samples: &Vec<TriangleSample>) -> (chosen: usize)
        requires
            exists|i: int| 0 <= i < samples@.len() && meets((#[trigger] samples@[i]).crossing),
        ensures
            spec_facing_triangle(samples@, samples@.len() as int) == Some(chosen as int),
            chosen < samples@.len(),
            meets(samples@[chosen as int].crossing),
    {
        let mut best: Option<usize> = None;
        let mut i: usize = 0;
        while i < samples.len()
            invariant
                i <= samples.len(),
                match best {
                    Some(b) => spec_facing_triangle(samples@, i as int) == Some(b as int),
                    None => spec_facing_triangle(samples@, i as int) is None,
                },
            decreases samples.len() - i,
        {
            proof {
                facing_triangle_is_hit(samples@, i as int);
            }
            if ColoredMesh::intersect_triangle(&samples[i].crossing).is_some() {
                match best {
                    None => {
                        best = Some(i);
                    },
                    Some(b) => {
                        if nearer_corner(&samples[i], &samples[b]) {
                            best = Some(i);
                        }
                    },
                }
            }
            i += 1;
        }
        proof {
            facing_triangle_is_hit(samples@, samples@.len() as int);
        }
        match best {
            Some(b) => b,
            None => {
                proof {
                    assert(false);
                }
                0
            },
        }
    }
}

} // verus!
