//! Point lights.

use crate::color::{color_multiply, color_scale, spec_color_multiply, spec_color_scale, Color};
use crate::vec3::Vec3;
use crate::scale::Scale;
use vstd::prelude::*;

verus! {

/// A point light: where it stands and the colour it sheds.
#[derive(Clone, Copy, Debug)]
pub struct Light {
    pub position: Vec3,
    pub color: Color,
}

/// The colour that a surface of the colour `appearance` shows under the light
/// of colour `light` at the given brightness: the product of the two colours,
/// scaled by the brightness.
pub open spec fn spec_illuminate(light: Color, appearance: Color, brightness: Scale) -> Color {
    spec_color_scale(spec_color_multiply(appearance, light), brightness.bits)
}

impl Light {
    /// A light of the given colour at the given position.
    pub fn new(position: Vec3, color: Color) -> (light: Light)
        ensures
            light.position == position,
            light.color == color,
    {
        Light { position, color }
    }

    /// The colour that a surface of the colour `appearance` shows under this
    /// light at the given brightness. The distance to the light plays no part.
    pub fn illuminate(&self, appearance: Color, _point: Vec3, brightness: Scale) -> (lit: Color)
        ensures
            lit == spec_illuminate(self.color, appearance, brightness),
    {
        color_scale(&color_multiply(&appearance, &self.color), brightness)
    }
}

} // verus!
