//! The finish of a surface: how strongly it answers to each kind of light.

use crate::color::{color_scale, spec_color_scale, Color};
use crate::light::Light;
use crate::scale::Scale;
use crate::util::ONE;
use vstd::prelude::*;

verus! {

/// The coefficients of a surface: its share of ambient light, of diffuse light,
/// its shininess and its reflectivity. Each is meant to lie between zero and
/// one; none is held to that.
#[derive(Clone, Copy, Debug)]
pub struct Finish {
    pub ambient: Scale,
    pub diffuse: Scale,
    pub shiny: Scale,
    pub reflect: Scale,
}

/// Black at full alpha: the colour that adds nothing.
pub open spec fn spec_black() -> Color {
    Color { r: 0, g: 0, b: 0, a: 255 }
}

/// The highlight that a light of colour `light` leaves on a surface of the
/// given shininess: nothing where the shininess or the cosine between the
/// mirrored ray and the light is at most zero, else the light's colour scaled
/// by `strength`.
pub open spec fn spec_highlight(
    shiny: Scale,
    light: Color,
    cosine: Scale,
    strength: Scale,
) -> Color {
    if shiny.at_most_zero() || cosine.at_most_zero() {
        spec_black()
    } else {
        spec_color_scale(light, strength.bits)
    }
}

/// Black at full alpha.
pub fn black() -> (color: Color)
    ensures
        color == spec_black(),
{
    Color { r: 0, g: 0, b: 0, a: 255 }
}

impl Default for Finish {
    /// The finish of a matt surface: all diffuse, with no ambient share, no shine
    /// and no reflection.
    fn default() -> (finish: Finish)
        ensures
            finish.ambient.bits == 0,
            finish.diffuse.bits == ONE,
            finish.shiny.bits == 0,
            finish.reflect.bits == 0,
    {
        Finish {
            ambient: Scale::zero(),
            diffuse: Scale::one(),
            shiny: Scale::zero(),
            reflect: Scale::zero(),
        }
    }
}

impl Finish {
    /// A finish of the given coefficients.
    pub fn new(ambient: Scale, diffuse: Scale, shiny: Scale, reflect: Scale) -> (finish: Finish)
        ensures
            finish.ambient == ambient,
            finish.diffuse == diffuse,
            finish.shiny == shiny,
            finish.reflect == reflect,
    {
        Finish { ambient, diffuse, shiny, reflect }
    }

    /// The highlight that a light leaves on a surface of this finish. `cosine`
    /// is the cosine of the angle between the mirrored ray and the direction of
    /// the light. `strength` is the shininess times that cosine raised to
    /// thirty-two times the square of the shininess; it is read only where
    /// neither the shininess nor the cosine is at most zero.
    pub fn add_highlight(&self, light: &Light, cosine: Scale, strength: Scale) -> (highlight: Color)
        ensures
            highlight == spec_highlight(self.shiny, light.color, cosine, strength),
    {
        if self.shiny.is_at_most_zero() {
            black()
        } else if cosine.is_at_most_zero() {
            black()
        } else {
            color_scale(&light.color, strength)
        }
    }
}

} // verus!
