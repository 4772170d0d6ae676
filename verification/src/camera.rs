//! The camera: where it stands, and the moves that are still ahead of it.

use crate::animate::Animate;
use crate::color::Color;
use crate::distance::{Distance, SNAP};
use crate::ray::{spec_trace, Ray};
use crate::scene::Scene;
use crate::vec3::Vec3;
use vstd::prelude::*;

verus! {

/// A move that the camera is to make.
#[derive(Clone, Copy, Debug, PartialEq, Eq, Structural)]
pub struct CameraMove {
    /// Where the camera is to arrive.
    pub target: Vec3,
    /// The time that the move is to take, held as a 64-bit pattern.
    pub duration: u64,
    /// The point to keep in view while moving, if the aim is to change.
    pub look_at: Option<Vec3>,
}

/// The camera: its location, the point it looks at, the three directions of
/// its screen, the width and height of the screen as 64-bit patterns, and its
/// pending moves in the order in which they were asked for.
pub struct Camera {
    pub location: Vec3,
    pub look_at: Vec3,
    pub direction: Vec3,
    pub camera_right: Vec3,
    pub camera_up: Vec3,
    pub camera_moves: Vec<CameraMove>,
    pub width: u64,
    pub height: u64,
}

/// The three directions of a camera's screen: forwards, to the right and
/// upwards, the last two as long as half the screen is wide and high.
#[derive(Clone, Copy, Debug, PartialEq, Eq, Structural)]
pub struct Basis {
    pub direction: Vec3,
    pub camera_right: Vec3,
    pub camera_up: Vec3,
}

/// What one step of time does to a camera of the given location, screen and
/// pending moves. `advanced` is the place that the step carries the camera to
/// on its way to the first target, `remaining` the distance from there to that
/// target, and `aimed` the screen of a camera that looks from there at the aim
/// point of the move. Without a pending move nothing changes. Where the move
/// has an aim point the screen becomes `aimed`, in all three directions;
/// otherwise it stays. Where less than the snap distance remains, the camera is
/// put on the target itself and the move is done with; otherwise the camera is
/// at `advanced` and the move stays.
pub open spec fn spec_update(
    location: Vec3,
    basis: Basis,
    moves: Seq<CameraMove>,
    advanced: Vec3,
    remaining: Distance,
    aimed: Basis,
) -> (Vec3, Basis, Seq<CameraMove>) {
    if moves.len() == 0 {
        (location, basis, moves)
    } else {
        let turned = if moves[0].look_at is Some {
            aimed
        } else {
            basis
        };
        if remaining.below(Distance { key: SNAP }) {
            (moves[0].target, turned, moves.skip(1))
        } else {
            (advanced, turned, moves)
        }
    }
}

/// The camera after a run of steps, each given by the place it carries the
/// camera to, the distance that then remains, and the screen aimed from there.
pub open spec fn spec_updates(
    location: Vec3,
    basis: Basis,
    moves: Seq<CameraMove>,
    steps: Seq<(Vec3, Distance, Basis)>,
) -> (Vec3, Basis, Seq<CameraMove>)
    decreases steps.len(),
{
    if steps.len() == 0 {
        (location, basis, moves)
    } else {
        let before = spec_updates(location, basis, moves, steps.drop_last());
        spec_update(
            before.0,
            before.1,
            before.2,
            steps.last().0,
            steps.last().1,
            steps.last().2,
        )
    }
}

/// The number of steps among the given ones that leave less than the snap
/// distance.
pub open spec fn arrivals(steps: Seq<(Vec3, Distance, Basis)>) -> nat
    decreases steps.len(),
{
    if steps.len() == 0 {
        0
    } else {
        let before = arrivals(steps.drop_last());
        if steps.last().1.below(Distance { key: SNAP }) {
            before + 1
        } else {
            before
        }
    }
}

/// Every step that leaves less than the snap distance finishes one pending
/// move, and no other step finishes any: after a run of steps the moves still
/// pending are those that were pending before, less one from the front for
/// each such step. Once there have been as many such steps as moves, no move
/// is pending.
pub proof fn arrivals_consume_moves(
    location: Vec3,
    basis: Basis,
    moves: Seq<CameraMove>,
    steps: Seq<(Vec3, Distance, Basis)>,
)
    ensures
        arrivals(steps) >= moves.len() ==> spec_updates(location, basis, moves, steps).2.len()
            == 0,
        arrivals(steps) <= moves.len() ==> spec_updates(location, basis, moves, steps).2
            == moves.skip(arrivals(steps) as int),
    decreases steps.len(),
{
    if steps.len() > 0 {
        arrivals_consume_moves(location, basis, moves, steps.drop_last());
        let before = spec_updates(location, basis, moves, steps.drop_last());
        let seen = arrivals(steps.drop_last());
        if seen <= moves.len() {
            assert(before.2 == moves.skip(seen as int));
            if seen < moves.len() {
                assert(moves.skip(seen as int).skip(1) == moves.skip(seen as int + 1));
            }
        }
    } else {
        assert(moves.skip(0) == moves);
    }
}

/// The step that leaves less than the snap distance puts the camera exactly
/// on the target of the move it finishes.
pub proof fn arrival_is_exact(
    location: Vec3,
    basis: Basis,
    moves: Seq<CameraMove>,
    advanced: Vec3,
    remaining: Distance,
    aimed: Basis,
)
    requires
        moves.len() > 0,
        remaining.below((Distance { key: SNAP })),
    ensures
        spec_update(location, basis, moves, advanced, remaining, aimed).0 == moves[0].target,
        spec_update(location, basis, moves, advanced, remaining, aimed).2 == moves.skip(1),
        moves.len() == 1 ==> spec_update(location, basis, moves, advanced, remaining, aimed).2.len()
            == 0,
{
}

impl Camera {
    /// A camera at `location` that looks at `look_at` over a screen of the
    /// given directions, width and height, with no move pending.
    pub fn new(location: Vec3, look_at: Vec3, basis: Basis, width: u64, height: u64) -> (camera:
        Camera)
        ensures
            camera.location == location,
            camera.look_at == look_at,
            camera.direction == basis.direction,
            camera.camera_right == basis.camera_right,
            camera.camera_up == basis.camera_up,
            camera.width == width,
            camera.height == height,
            camera.camera_moves@.len() == 0,
    {
        Camera {
            location,
            look_at,
            direction: basis.direction,
            camera_right: basis.camera_right,
            camera_up: basis.camera_up,
            camera_moves: Vec::new(),
            width,
            height,
        }
    }

    /// The three directions of the camera's screen.
    pub open spec fn spec_basis(&self) -> Basis {
        Basis {
            direction: self.direction,
            camera_right: self.camera_right,
            camera_up: self.camera_up,
        }
    }

    /// Asks for one more move, to be made after those already pending.
    pub fn add_camera_move(&mut self, move_to: Vec3, duration: u64, look_at: Option<Vec3>)
        ensures
            final(self).camera_moves@ == old(self).camera_moves@.push(
                (CameraMove { target: move_to, duration, look_at }),
            ),
            final(self).location == old(self).location,
            final(self).look_at == old(self).look_at,
            final(self).direction == old(self).direction,
            final(self).camera_right == old(self).camera_right,
            final(self).camera_up == old(self).camera_up,
            final(self).width == old(self).width,
            final(self).height == old(self).height,
    {
        self.camera_moves.push(CameraMove { target: move_to, duration, look_at });
    }

    /// The move that the camera is making, if any: the first of those pending.
    pub fn current_move(&self) -> (current: Option<CameraMove>)
        ensures
            self.camera_moves@.len() == 0 <==> current is None,
            current matches Some(first) ==> first == self.camera_moves@[0],
    {
        if self.camera_moves.len() == 0 {
            None
        } else {
            Some(self.camera_moves[0])
        }
    }

    /// The colour that the camera sees through one pixel, given the ray that
    /// it casts through that pixel: the trace of the ray from depth zero.
    pub fn trace(&self, scene: &Scene, ray: &Ray) -> (color: Color)
        ensures
            color == spec_trace(*ray, *scene, 0),
    {
        ray.trace(scene, 0)
    }
}

impl Animate for Camera {
    /// Advances the camera by one step of time. `advanced` is the place that
    /// the step carries the camera to on its way to the first target,
    /// `remaining` the distance from there to that target, and `aimed` the
    /// screen of a camera that looks from there at the aim point of the move.
    /// A move with an aim point turns the screen at every step. Returns whether
    /// the camera arrived, that is, was put on the target and the move removed.
    fn update(&mut self, advanced: Vec3, remaining: Distance, aimed: Basis) -> (arrived: bool)
        ensures
            (final(self).location, final(self).spec_basis(), final(self).camera_moves@)
                == spec_update(
                old(self).location,
                old(self).spec_basis(),
                old(self).camera_moves@,
                advanced,
                remaining,
                aimed,
            ),
            final(self).look_at == old(self).look_at,
            final(self).width == old(self).width,
            final(self).height == old(self).height,
            arrived == (old(self).camera_moves@.len() > 0 && remaining.below(
                (Distance { key: SNAP }),
            )),
            arrived ==> final(self).location == old(self).camera_moves@[0].target,
            old(self).camera_moves@.len() > 0 && old(self).camera_moves@[0].look_at is Some
                ==> final(self).spec_basis() == aimed,
    {
        if self.camera_moves.len() == 0 {
            return false;
        }
        if self.camera_moves[0].look_at.is_some() {
            self.direction = aimed.direction;
            self.camera_right = aimed.camera_right;
            self.camera_up = aimed.camera_up;
        }
        let snap = Distance { key: SNAP };
        if remaining.is_below(&snap) {
            let done = self.camera_moves.remove(0);
            assert(self.camera_moves@ == old(self).camera_moves@.skip(1));
            self.location = done.target;
            true
        } else {
            self.location = advanced;
            false
        }
    }
}

} // verus!
