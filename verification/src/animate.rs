//! What moves with time.

use crate::camera::Basis;
use crate::distance::Distance;
use crate::vec3::Vec3;
use vstd::prelude::*;

verus! {

/// Something that changes from one frame to the next.
pub trait Animate {
    /// Advances by one step of time. `advanced` is the place that the step
    /// carries the camera to on its way to its first target, `remaining` the
    /// distance from there to that target, and `aimed` the screen of a camera
    /// that looks from there at the aim point of the move. Returns whether the
    /// camera arrived at the target.
    fn update(&mut self, advanced: Vec3, remaining: Distance, aimed: Basis) -> (arrived: bool);
}

} // verus!
