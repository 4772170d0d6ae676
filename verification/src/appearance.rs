//! The appearance of a surface: its material and its finish.

use crate::color::{color_scale, spec_color_scale, Color};
use crate::finish::{black, spec_black, Finish};
use crate::vec3::Vec3;
use crate::ray::{spec_reflected_color, Ray};
use crate::scale::Scale;
use crate::scene::Scene;
use vstd::prelude::*;

verus! {

/// The material of a surface, one colour all over, and its finish.
#[derive(Clone, Copy, Debug)]
pub struct Appearance {
    pub material: Color,
    pub finish: Finish,
}

/// The share of a traced colour that a surface of the given reflectivity
/// mirrors: nothing where the reflectivity is at most zero, else the colour
/// scaled by it.
pub open spec fn spec_reflect(reflect: Scale, traced: Color) -> Color {
    if reflect.at_most_zero() {
        spec_black()
    } else {
        spec_color_scale(traced, reflect.bits)
    }
}

impl Appearance {
    /// An appearance of the given material and finish.
    pub fn new(material: Color, finish: Finish) -> (appearance: Appearance)
        ensures
            appearance.material == material,
            appearance.finish == finish,
    {
        Appearance { material, finish }
    }

    /// The colour of the material at a point of the surface: the same at every
    /// point.
    pub fn color_at(&self, _point: &Vec3) -> (color: Color)
        ensures
            color == self.material,
    {
        self.material
    }

    /// The colour that the surface shows at a point without any light: the
    /// material scaled by the ambient coefficient.
    pub fn ambient_color_at(&self, point: &Vec3) -> (color: Color)
        ensures
            color == spec_color_scale(self.material, self.finish.ambient.bits),
    {
        color_scale(&self.color_at(point), self.finish.ambient)
    }

    /// The colour that the surface offers to a light at a point: the material
    /// scaled by the diffuse coefficient.
    pub fn diffuse_color_at(&self, point: &Vec3) -> (color: Color)
        ensures
            color == spec_color_scale(self.material, self.finish.diffuse.bits),
    {
        color_scale(&self.color_at(point), self.finish.diffuse)
    }

    /// The colour that the surface mirrors. Where the reflectivity is at most
    /// zero that is black, and the mirrored ray is not traced. Otherwise the
    /// mirrored ray is traced at the given depth and its colour scaled by the
    /// reflectivity; a mirrored ray that was not followed meets nothing and
    /// shows the background.
    pub fn reflect(&self, reflected: &Option<Box<Ray>>, scene: &Scene, depth: i32) -> (mirrored:
        Color)
        ensures
            mirrored == spec_reflect(
                self.finish.reflect,
                spec_reflected_color(*reflected, *scene, depth as int),
            ),
            self.finish.reflect.at_most_zero() ==> mirrored == spec_black(),
        decreases reflected, 1int,
    {
        if self.finish.reflect.is_at_most_zero() {
            black()
        } else {
            let traced = match reflected {
                Some(ray) => ray.trace(scene, depth),
                None => scene.background,
            };
            color_scale(&traced, self.finish.reflect)
        }
    }
}

} // verus!
