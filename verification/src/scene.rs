//! A scene: the camera, the background, the shapes and the lights.

use crate::animate::Animate;
use crate::camera::{spec_update, Basis, Camera};
use crate::color::Color;
use crate::distance::{Distance, SNAP};
use crate::light::Light;
use crate::vec3::Vec3;
use crate::ray::{spec_trace, Ray};
use crate::shape::Shape;
use vstd::prelude::*;

verus! {

/// Everything that a ray can meet: the shapes, the lights that shine on them,
/// and the background that shows where a ray meets nothing; and the camera
/// that the rays start from.
pub struct Scene {
    pub camera: Camera,
    pub background: Color,
    pub shapes: Vec<Shape>,
    pub lights: Vec<Light>,
}

impl Scene {
    /// A scene seen by the given camera before the given background, with no
    /// shape and no light yet.
    pub fn new(camera: Camera, background: Color) -> (scene: Scene)
        ensures
            scene.camera == camera,
            scene.background == background,
            scene.shapes@.len() == 0,
            scene.lights@.len() == 0,
    {
        Scene { camera, background, shapes: Vec::new(), lights: Vec::new() }
    }

    /// The colour of one pixel, given the ray that the camera casts through it.
    pub fn trace(&self, ray: &Ray) -> (color: Color)
        ensures
            color == spec_trace(*ray, *self, 0),
    {
        ray.trace(self, 0)
    }

}

impl Animate for Scene {
    /// Advances the scene by one step of time: the camera makes its step, and
    /// nothing else changes. Returns whether the camera arrived at a target.
    fn update(&mut self, advanced: Vec3, remaining: Distance, aimed: Basis) -> (arrived: bool)
        ensures
            (
                final(self).camera.location,
                final(self).camera.spec_basis(),
                final(self).camera.camera_moves@,
            ) == spec_update(
                old(self).camera.location,
                old(self).camera.spec_basis(),
                old(self).camera.camera_moves@,
                advanced,
                remaining,
                aimed,
            ),
            final(self).camera.look_at == old(self).camera.look_at,
            final(self).camera.width == old(self).camera.width,
            final(self).camera.height == old(self).camera.height,
            final(self).background == old(self).background,
            final(self).shapes == old(self).shapes,
            final(self).lights == old(self).lights,
            arrived == (old(self).camera.camera_moves@.len() > 0 && remaining.below(
                (Distance { key: SNAP }),
            )),
    {
        self.camera.update(advanced, remaining, aimed)
    }
}

} // verus!
