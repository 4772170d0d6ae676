//! Rays, and the recursion that turns a ray into a colour.

use crate::appearance::spec_reflect;
use crate::color::Color;
use crate::distance::{Distance, INFINITY};
use crate::mesh::{crossing_meets, meets, TriangleCrossing};
use crate::scale::Scale;
use crate::scene::Scene;
use crate::shape::{closest_hit, closest_hit_is_least, spec_color_at, Shape};
use crate::vec3::Vec3;
use vstd::prelude::*;

verus! {

/// The greatest depth at which a ray is still followed.
pub const MAX_DEPTH: i32 = 16;

/// What was measured between a shaded point and one light of the scene.
pub struct LightSample {
    /// For each shape of the scene, in the scene's order, the crossings of the
    /// ray from the point towards the light with the shape's surface.
    pub shadow: Vec<Vec<Distance>>,
    /// The distance from the point to the light.
    pub distance_to_light: Distance,
    /// The cosine of the angle between the surface's normal and the direction
    /// of the light.
    pub brightness: Scale,
    /// The cosine of the angle between the mirrored ray and the direction of
    /// the light.
    pub cosine: Scale,
    /// The coefficient of the highlight: the shininess times that cosine
    /// raised to thirty-two times the square of the shininess.
    pub strength: Scale,
}

/// A ray, as the shading sees it: what it crosses, and what was measured where
/// it first hits.
pub struct Ray {
    /// For each shape of the scene, in the scene's order, every value of the
    /// ray's parameter at which the ray crosses the shape's surface.
    pub intersections: Vec<Vec<Distance>>,
    /// Where the ray first hits a shape.
    pub point: Vec3,
    /// For each light of the scene, in the scene's order, what was measured
    /// between that point and the light.
    pub lights: Vec<LightSample>,
    /// The ray that leaves that point mirrored about the surface's normal.
    pub reflected: Option<Box<Ray>>,
}

/// The crossings listed for the shape of the given index, or none where the
/// lists end before it.
pub open spec fn crossings_of(lists: Seq<Vec<Distance>>, shape: int) -> Seq<Distance> {
    if 0 <= shape < lists.len() {
        lists[shape]@
    } else {
        Seq::empty()
    }
}

/// For each of `shapes` shapes, the distance to its nearest hit.
pub open spec fn closest_distances(lists: Seq<Vec<Distance>>, shapes: int) -> Seq<Distance> {
    Seq::new(shapes as nat, |i: int| closest_hit(crossings_of(lists, i)))
}

/// The index of the nearest of the given distances, the last one among equals.
pub open spec fn nearest(distances: Seq<Distance>) -> int
    decreases distances.len(),
{
    if distances.len() <= 1 {
        0
    } else {
        let before = nearest(distances.drop_last());
        if distances[before].key < distances.last().key {
            before
        } else {
            distances.len() - 1
        }
    }
}

/// The nearest distance is at most every other and below every later one.
pub proof fn nearest_is_least(distances: Seq<Distance>)
    requires
        distances.len() > 0,
    ensures
        0 <= nearest(distances) < distances.len(),
        forall|i: int|
            0 <= i < distances.len() ==> distances[nearest(distances)].key <= (
            #[trigger] distances[i]).key,
        forall|i: int|
            nearest(distances) < i < distances.len() ==> distances[nearest(distances)].key < (
            #[trigger] distances[i]).key,
    decreases distances.len(),
{
    if distances.len() > 1 {
        let front = distances.drop_last();
        nearest_is_least(front);
        let before = nearest(front);
        assert(front[before] == distances[before]);
        assert forall|i: int| 0 <= i < distances.len() implies distances[nearest(distances)].key
            <= (#[trigger] distances[i]).key by {
            if i < front.len() {
                assert(front[i] == distances[i]);
            }
        }
        assert forall|i: int| nearest(distances) < i < distances.len() implies distances[nearest(
            distances,
        )].key < (#[trigger] distances[i]).key by {
            if i < front.len() {
                assert(front[i] == distances[i]);
            }
        }
    }
}

/// The colour that the mirrored ray shows at the given depth: the background
/// where the ray was not followed.
pub open spec fn spec_reflected_color(
    reflected: Option<Box<Ray>>,
    scene: Scene,
    depth: int,
) -> Color
    decreases reflected, 1int,
{
    match reflected {
        Some(ray) => spec_trace(*ray, scene, depth),
        None => scene.background,
    }
}

/// The colour that a ray shows in a scene at the given depth. Beyond the
/// greatest depth, in a scene without shapes, or where the ray hits no shape,
/// that is the background. Otherwise it is the shading of the nearest shape
/// hit, one level deeper.
pub open spec fn spec_trace(ray: Ray, scene: Scene, depth: int) -> Color
    decreases ray, 0int,
{
    if depth > MAX_DEPTH || scene.shapes@.len() == 0 {
        scene.background
    } else {
        let distances = closest_distances(ray.intersections@, scene.shapes@.len() as int);
        let hit = nearest(distances);
        if distances[hit].key == INFINITY {
            scene.background
        } else {
            let appearance = scene.shapes@[hit].spec_appearance();
            spec_color_at(
                appearance,
                ray,
                scene,
                spec_reflect(
                    appearance.finish.reflect,
                    spec_reflected_color(ray.reflected, scene, depth + 1),
                ),
            )
        }
    }
}

impl Ray {
    /// A ray that crosses what is listed, with what was measured at its first
    /// hit.
    pub fn new(
        intersections: Vec<Vec<Distance>>,
        point: Vec3,
        lights: Vec<LightSample>,
        reflected: Option<Box<Ray>>,
    ) -> (ray: Ray)
        ensures
            ray.intersections == intersections,
            ray.point == point,
            ray.lights == lights,
            ray.reflected == reflected,
    {
        Ray { intersections, point, lights, reflected }
    }

    /// Whether a ray at the given depth is still followed: one deeper than
    /// `MAX_DEPTH` is not.
    pub fn follows(depth: i32) -> (followed: bool)
        ensures
            followed == (depth <= MAX_DEPTH),
    {
        depth <= MAX_DEPTH
    }

    /// The point at which a ray meets a triangle, given where it crosses the
    /// triangle's plane; nothing where the crossing lies off the triangle,
    /// behind the ray's origin, or on the back of the triangle.
    pub fn intersect_triangle(crossing: &TriangleCrossing) -> (met: Option<Vec3>)
        ensures
            met == (if meets(*crossing) {
                Some(crossing.point)
            } else {
                None
            }),
    {
        if crossing_meets(crossing) {
            Some(crossing.point)
        } else {
            None
        }
    }

    /// The shape that the ray hits first among the first `shapes` shapes, with
    /// the distance to the hit: the shape of the least distance, the last one
    /// among equals. Nothing where there is no shape or the ray hits none.
    pub fn nearest_hit(&self, shapes: usize) -> (hit: Option<(usize, Distance)>)
        ensures
            hit is None <==> shapes == 0 || closest_distances(
                self.intersections@,
                shapes as int,
            )[nearest(closest_distances(self.intersections@, shapes as int))].key == INFINITY,
            hit matches Some((shape, distance)) ==> {
                &&& shape == nearest(closest_distances(self.intersections@, shapes as int))
                &&& shape < shapes
                &&& distance == closest_distances(self.intersections@, shapes as int)[shape as int]
                &&& distance.is_hit()
                &&& forall|i: int|
                    0 <= i < shapes ==> distance.key <= (#[trigger] closest_distances(
                        self.intersections@,
                        shapes as int,
                    )[i]).key
                &&& forall|i: int|
                    shape < i < shapes ==> distance.key < (#[trigger] closest_distances(
                        self.intersections@,
                        shapes as int,
                    )[i]).key
            },
    {
        if shapes == 0 {
            return None;
        }
        let ghost distances = closest_distances(self.intersections@, shapes as int);
        let mut best: usize = 0;
        let mut shortest = self.closest_distance(0);
        let mut i: usize = 1;
        while i < shapes
            invariant
                1 <= i <= shapes,
                distances == closest_distances(self.intersections@, shapes as int),
                best == nearest(distances.take(i as int)),
                best < i,
                shortest == distances[best as int],
            decreases shapes - i,
        {
            let current = self.closest_distance(i);
            proof {
                assert(distances.take(i + 1).drop_last() == distances.take(i as int));
            }
            if !(shortest.key < current.key) {
                best = i;
                shortest = current;
            }
            i += 1;
        }
        proof {
            assert(distances.take(shapes as int) == distances);
            closest_hit_is_least(crossings_of(self.intersections@, best as int));
            nearest_is_least(distances);
        }
        if shortest.is_infinite() {
            None
        } else {
            Some((best, shortest))
        }
    }

    /// The distance along the ray to the nearest hit of the shape of the given
    /// index: infinity where the ray passes it, or lists nothing for it.
    pub fn closest_distance(&self, shape: usize) -> (closest: Distance)
        ensures
            closest == closest_hit(crossings_of(self.intersections@, shape as int)),
    {
        if shape < self.intersections.len() {
            Shape::closest_distance_along_ray(&self.intersections[shape])
        } else {
            Distance::infinity()
        }
    }

    /// The colour that the ray shows in the scene. A ray deeper than
    /// `MAX_DEPTH` is not followed and shows the background, as does a ray that
    /// hits nothing; any other shows the shading of the nearest shape it hits.
    pub fn trace(&self, scene: &Scene, depth: i32) -> (color: Color)
        ensures
            color == spec_trace(*self, *scene, depth as int),
            depth > MAX_DEPTH ==> color == scene.background,
        decreases self, 3int,
    {
        if !Ray::follows(depth) {
            return scene.background;
        }
        match self.nearest_hit(scene.shapes.len()) {
            None => scene.background,
            Some((shape, _)) => scene.shapes[shape].color_at(self, scene, depth + 1),
        }
    }
}

/// The ray with its chain of mirrored rays cut short: the ray itself, and at
/// most `levels` mirrored rays after it.
pub open spec fn pruned(ray: Ray, levels: nat) -> Ray
    decreases levels,
{
    Ray {
        intersections: ray.intersections,
        point: ray.point,
        lights: ray.lights,
        reflected: if levels == 0 {
            None
        } else {
            match ray.reflected {
                Some(next) => Some(Box::new(pruned(*next, (levels - 1) as nat))),
                None => None,
            }
        },
    }
}

/// The recursion is bounded: a ray traced at a depth up to `MAX_DEPTH` shows a
/// colour that depends on the ray and on at most `MAX_DEPTH - depth` mirrored
/// rays after it, however long the chain of mirrored rays is. The primary ray
/// of a pixel, traced at depth zero, is followed through sixteen mirrors and
/// no further.
pub proof fn trace_stops_at_max_depth(ray: Ray, scene: Scene, depth: int)
    requires
        depth <= MAX_DEPTH,
    ensures
        spec_trace(ray, scene, depth) == spec_trace(
            pruned(ray, (MAX_DEPTH - depth) as nat),
            scene,
            depth,
        ),
    decreases MAX_DEPTH - depth,
{
    let levels = (MAX_DEPTH - depth) as nat;
    let cut = pruned(ray, levels);
    if depth < MAX_DEPTH {
        match ray.reflected {
            Some(next) => {
                trace_stops_at_max_depth(*next, scene, depth + 1);
                assert(cut.reflected == Some(Box::new(pruned(*next, (levels - 1) as nat))));
            },
            None => {},
        }
    }
    assert(spec_reflected_color(ray.reflected, scene, depth + 1) == spec_reflected_color(
        cut.reflected,
        scene,
        depth + 1,
    ));
}

/// A surface that mirrors nothing shows a colour in which no mirrored ray has
/// a part: where the shape that the ray hits has a reflectivity of at most
/// zero, the ray shows the same colour whatever ray leaves the hit mirrored.
pub proof fn trace_without_mirror(ray: Ray, other: Option<Box<Ray>>, scene: Scene, depth: int)
    requires
        scene.shapes@.len() > 0 ==> scene.shapes@[nearest(
            closest_distances(ray.intersections@, scene.shapes@.len() as int),
        )].spec_appearance().finish.reflect.at_most_zero(),
    ensures
        spec_trace(ray, scene, depth) == spec_trace(
            (Ray {
                intersections: ray.intersections,
                point: ray.point,
                lights: ray.lights,
                reflected: other,
            }),
            scene,
            depth,
        ),
{
}

} // verus!
