//! What every shape shares: the nearest crossing along a ray, the shadow test
//! and the shading of a hit.

use crate::appearance::{spec_reflect, Appearance};
use crate::color::{color_add, spec_color_add, spec_color_scale, Color};
use crate::distance::{Distance, INFINITY};
use crate::finish::{black, spec_black, spec_highlight};
use crate::light::{spec_illuminate, Light};
use crate::mesh::ColoredMesh;
use crate::plane::Plane;
use crate::prism::Prism;
use crate::ray::{crossings_of, spec_reflected_color, LightSample, Ray};
use crate::scene::Scene;
use crate::sphere::Sphere;
use vstd::prelude::*;

verus! {

/// The nearest crossing that counts as a hit among the given ones, or infinity
/// where none counts.
pub open spec fn closest_hit(crossings: Seq<Distance>) -> Distance
    decreases crossings.len(),
{
    if crossings.len() == 0 {
        Distance { key: INFINITY }
    } else {
        let before = closest_hit(crossings.drop_last());
        let last = crossings.last();
        if last.is_hit() && last.key < before.key {
            last
        } else {
            before
        }
    }
}

/// The nearest hit is a lower bound of every crossing that counts as a hit, and
/// is one of them unless it is infinity.
pub proof fn closest_hit_is_least(crossings: Seq<Distance>)
    ensures
        closest_hit(crossings).is_hit(),
        forall|i: int|
            0 <= i < crossings.len() && (#[trigger] crossings[i]).is_hit() ==> closest_hit(
                crossings,
            ).key <= crossings[i].key,
        closest_hit(crossings).key == INFINITY || exists|i: int|
            0 <= i < crossings.len() && #[trigger] crossings[i] == closest_hit(crossings),
    decreases crossings.len(),
{
    if crossings.len() > 0 {
        let front = crossings.drop_last();
        closest_hit_is_least(front);
        let best = closest_hit(crossings);
        assert forall|i: int|
            0 <= i < crossings.len() && (#[trigger] crossings[i]).is_hit() implies best.key
            <= crossings[i].key by {
            if i < front.len() {
                assert(front[i] == crossings[i]);
            }
        }
        if best.key != INFINITY {
            if best == crossings.last() {
                assert(crossings[crossings.len() - 1] == best);
            } else {
                let i = choose|i: int|
                    0 <= i < front.len() && #[trigger] front[i] == closest_hit(front);
                assert(crossings[i] == best);
            }
        }
    }
}

/// A shape of the scene: one of the four kinds.
pub enum Shape {
    Sphere(Sphere),
    Plane(Plane),
    Prism(Prism),
    Mesh(ColoredMesh),
}

/// Whether any of the first `shapes` shapes shades the point from the light of
/// the sample.
pub open spec fn in_shadow(sample: LightSample, shapes: int) -> bool {
    exists|i: int|
        0 <= i < shapes && (#[trigger] closest_hit(crossings_of(sample.shadow@, i))).at_most(
            sample.distance_to_light,
        )
}

/// The colour after one light has been added to `color`. A light that is
/// shaded by a shape, or that stands behind the surface, adds nothing. Any
/// other adds the diffuse colour of the surface under it, and then its
/// highlight.
pub open spec fn spec_add_light(
    color: Color,
    appearance: Appearance,
    light: Light,
    sample: LightSample,
    shapes: int,
) -> Color {
    if in_shadow(sample, shapes) || sample.brightness.at_most_zero() {
        color
    } else {
        let diffuse = spec_color_scale(appearance.material, appearance.finish.diffuse.bits);
        let lit = spec_color_add(color, spec_illuminate(light.color, diffuse, sample.brightness));
        spec_color_add(
            lit,
            spec_highlight(appearance.finish.shiny, light.color, sample.cosine, sample.strength),
        )
    }
}

/// A light that a shape shades adds nothing: where the nearest hit of some
/// shape along the ray from the point towards the light is at most as far as
/// the light, the colour is the same after the light as before it, whatever
/// the brightness and the highlight would have been.
pub proof fn shaded_light_adds_nothing(
    color: Color,
    appearance: Appearance,
    light: Light,
    sample: LightSample,
    shapes: int,
    occluder: int,
)
    requires
        0 <= occluder < shapes,
        closest_hit(crossings_of(sample.shadow@, occluder)).at_most(sample.distance_to_light),
    ensures
        spec_add_light(color, appearance, light, sample, shapes) == color,
{
}

/// The colour after the first `count` lights of the scene have been added to
/// `base`, each with the sample of the same index. A light without a sample
/// adds nothing.
pub open spec fn spec_add_lights(
    base: Color,
    appearance: Appearance,
    lights: Seq<Light>,
    samples: Seq<LightSample>,
    shapes: int,
    count: int,
) -> Color
    decreases count,
{
    if count <= 0 {
        base
    } else {
        let before = spec_add_lights(base, appearance, lights, samples, shapes, count - 1);
        if count - 1 < samples.len() {
            spec_add_light(before, appearance, lights[count - 1], samples[count - 1], shapes)
        } else {
            before
        }
    }
}

/// The colour of a surface where a ray hits it: the ambient colour, plus the
/// mirrored colour `mirrored`, plus what each light of the scene adds.
pub open spec fn spec_color_at(
    appearance: Appearance,
    ray: Ray,
    scene: Scene,
    mirrored: Color,
) -> Color {
    let ambient = spec_color_scale(appearance.material, appearance.finish.ambient.bits);
    spec_add_lights(
        spec_color_add(ambient, mirrored),
        appearance,
        scene.lights@,
        ray.lights@,
        scene.shapes@.len() as int,
        scene.lights@.len() as int,
    )
}

/// Whether any of the first `shapes` shapes shades the point of the sample from
/// its light.
pub fn shaded_by_any(sample: &LightSample, shapes: usize) -> (shaded: bool)
    ensures
        shaded == in_shadow(*sample, shapes as int),
{
    let mut i: usize = 0;
    while i < shapes
        invariant
            i <= shapes,
            forall|j: int|
                0 <= j < i ==> !(#[trigger] closest_hit(crossings_of(sample.shadow@, j))).at_most(
                    sample.distance_to_light,
                ),
        decreases shapes - i,
    {
        let shaded = if i < sample.shadow.len() {
            Shape::casts_shadow(&sample.shadow[i], sample.distance_to_light)
        } else {
            let none: Vec<Distance> = Vec::new();
            Shape::casts_shadow(&none, sample.distance_to_light)
        };
        if shaded {
            assert(closest_hit(crossings_of(sample.shadow@, i as int)).at_most(
                sample.distance_to_light,
            ));
            return true;
        }
        i += 1;
    }
    false
}

impl Shape {
    /// The appearance of the shape, whatever its kind.
    pub open spec fn spec_appearance(&self) -> Appearance {
        match self {
            Shape::Sphere(sphere) => sphere.appearance,
            Shape::Plane(plane) => plane.appearance,
            Shape::Prism(prism) => prism.appearance,
            Shape::Mesh(mesh) => mesh.spec_appearance(),
        }
    }

    /// The appearance of the shape, whatever its kind.
    pub fn appearance(&self) -> (appearance: Appearance)
        ensures
            appearance == self.spec_appearance(),
    {
        match self {
            Shape::Sphere(sphere) => sphere.appearance(),
            Shape::Plane(plane) => plane.appearance(),
            Shape::Prism(prism) => prism.appearance,
            Shape::Mesh(mesh) => mesh.appearance(),
        }
    }

    /// The distance along a ray to the nearest place where it meets a shape,
    /// given every value of the ray's parameter at which it crosses the shape's
    /// surface. Crossings behind the origin, or within the threshold of it, do
    /// not count; where none is left the answer is infinity, and the ray passes
    /// the shape.
    pub fn closest_distance_along_ray(intersections: &Vec<Distance>) -> (closest: Distance)
        ensures
            closest == closest_hit(intersections@),
            closest.is_hit(),
            forall|i: int|
                0 <= i < intersections.len() && (#[trigger] intersections[i]).is_hit()
                    ==> closest.key <= intersections[i].key,
            closest.key == INFINITY || exists|i: int|
                0 <= i < intersections.len() && #[trigger] intersections[i] == closest,
    {
        let mut closest = Distance::infinity();
        let mut i: usize = 0;
        while i < intersections.len()
            invariant
                i <= intersections.len(),
                closest == closest_hit(intersections@.take(i as int)),
            decreases intersections.len() - i,
        {
            let current = intersections[i];
            proof {
                assert(intersections@.take(i + 1).drop_last() == intersections@.take(i as int));
            }
            if current.counts_as_hit() && current.key < closest.key {
                closest = current;
            }
            i += 1;
        }
        proof {
            assert(intersections@.take(i as int) == intersections@);
            closest_hit_is_least(intersections@);
        }
        closest
    }

    /// Whether a shape shades a point from a light, given the crossings of the
    /// ray from the point towards the light with the shape's surface and the
    /// distance to the light: it does where the nearest crossing that counts as
    /// a hit is at most as far as the light.
    pub fn casts_shadow(intersections: &Vec<Distance>, distance_to_light: Distance) -> (shaded:
        bool)
        ensures
            shaded == closest_hit(intersections@).at_most(distance_to_light),
    {
        let closest = Shape::closest_distance_along_ray(intersections);
        closest.is_at_most(&distance_to_light)
    }

    /// The colour of a shape that is not shaded at all: black.
    pub fn color(&self) -> (color: Color)
        ensures
            color == spec_black(),
    {
        black()
    }

    /// The colour with one light added to it, as seen on this shape.
    pub fn add_light(
        &self,
        color: Color,
        ray: &Ray,
        light: &Light,
        sample: &LightSample,
        shapes: usize,
    ) -> (lit: Color)
        ensures
            lit == spec_add_light(color, self.spec_appearance(), *light, *sample, shapes as int),
            in_shadow(*sample, shapes as int) ==> lit == color,
            sample.brightness.at_most_zero() ==> lit == color,
    {
        if shaded_by_any(sample, shapes) {
            return color;
        }
        if sample.brightness.is_at_most_zero() {
            return color;
        }
        let appearance = self.appearance();
        let diffuse = appearance.diffuse_color_at(&ray.point);
        let illumination = light.illuminate(diffuse, ray.point, sample.brightness);
        let lit = color_add(&color, &illumination);
        let highlight = appearance.finish.add_highlight(light, sample.cosine, sample.strength);
        color_add(&lit, &highlight)
    }

    /// The colour of this shape where the ray hits it: its ambient colour, the
    /// colour it mirrors, and for each light of the scene that no shape shades
    /// and that stands before the surface, the diffuse colour under that light
    /// and its highlight.
    pub fn color_at(&self, ray: &Ray, scene: &Scene, depth: i32) -> (color: Color)
        ensures
            color == spec_color_at(
                self.spec_appearance(),
                *ray,
                *scene,
                spec_reflect(
                    self.spec_appearance().finish.reflect,
                    spec_reflected_color(ray.reflected, *scene, depth as int),
                ),
            ),
        decreases ray, 2int,
    {
        let appearance = self.appearance();
        let ambient = appearance.ambient_color_at(&ray.point);
        let reflection = appearance.reflect(&ray.reflected, scene, depth);
        let mut color = color_add(&ambient, &reflection);
        let ghost base = color;
        let shapes = scene.shapes.len();
        let mut i: usize = 0;
        while i < scene.lights.len()
            invariant
                i <= scene.lights.len(),
                shapes == scene.shapes@.len(),
                appearance == self.spec_appearance(),
                color == spec_add_lights(
                    base,
                    appearance,
                    scene.lights@,
                    ray.lights@,
                    shapes as int,
                    i as int,
                ),
            decreases scene.lights.len() - i,
        {
            if i < ray.lights.len() {
                color = self.add_light(color, ray, &scene.lights[i], &ray.lights[i], shapes);
            }
            i += 1;
        }
        color
    }
}

} // verus!
