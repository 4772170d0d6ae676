use eyebeam::animate::Animate;
use eyebeam::camera::{Basis, Camera, CameraMove};
use eyebeam::color::Color;
use eyebeam::distance::Distance;
use eyebeam::scene::Scene;
use eyebeam::vec3::Vec3;

fn at(t: f64) -> Distance {
    Distance { key: t.to_bits() }
}

fn place(x: f64, y: f64, z: f64) -> Vec3 {
    Vec3::new(x.to_bits(), y.to_bits(), z.to_bits())
}

fn ahead() -> Basis {
    Basis {
        direction: place(0.0, 0.0, 1.0),
        camera_right: place(2.0, 0.0, 0.0),
        camera_up: place(0.0, 1.125, 0.0),
    }
}

fn turned() -> Basis {
    Basis {
        direction: place(0.6, 0.0, 0.8),
        camera_right: place(1.6, 0.0, -1.2),
        camera_up: place(0.0, 1.125, 0.0),
    }
}

fn camera_at(location: Vec3, look_at: Vec3) -> Camera {
    Camera::new(location, look_at, ahead(), 4.0f64.to_bits(), 2.25f64.to_bits())
}

fn coordinates(v: Vec3) -> [f64; 3] {
    [f64::from_bits(v.x), f64::from_bits(v.y), f64::from_bits(v.z)]
}

// One step of the camera as the renderer makes it: the camera goes the share
// delta / duration of the way that is left, and what then remains is measured.
fn step(camera: &mut Camera, delta: f64) -> bool {
    match camera.current_move() {
        None => camera.update(camera.location, at(0.0), turned()),
        Some(current) => {
            let from = coordinates(camera.location);
            let to = coordinates(current.target);
            let share = delta / f64::from_bits(current.duration);
            let next = [
                from[0] + (to[0] - from[0]) * share,
                from[1] + (to[1] - from[1]) * share,
                from[2] + (to[2] - from[2]) * share,
            ];
            let left = [to[0] - next[0], to[1] - next[1], to[2] - next[2]];
            let remaining = (left[0] * left[0] + left[1] * left[1] + left[2] * left[2]).sqrt();
            camera.update(place(next[0], next[1], next[2]), at(remaining), turned())
        }
    }
}

#[test]
fn a_new_camera_has_no_move() {
    let camera = camera_at(place(-5.0, -5.0, -12.0), place(0.0, 0.0, 0.0));
    assert_eq!(camera.location, place(-5.0, -5.0, -12.0));
    assert_eq!(camera.look_at, place(0.0, 0.0, 0.0));
    assert!(camera.camera_moves.is_empty());
    assert_eq!(camera.current_move(), None);
}

#[test]
fn moves_queue_in_the_order_asked() {
    let mut camera = camera_at(place(0.0, 0.0, 0.0), place(0.0, 0.0, 1.0));
    camera.add_camera_move(place(1.0, 0.0, 0.0), 3.0f64.to_bits(), Some(place(0.0, 0.0, 0.0)));
    camera.add_camera_move(place(2.0, 0.0, 0.0), 1.0f64.to_bits(), None);
    assert_eq!(camera.camera_moves.len(), 2);
    assert_eq!(
        camera.current_move(),
        Some(CameraMove { target: place(1.0, 0.0, 0.0), duration: 3.0f64.to_bits(), look_at: Some(place(0.0, 0.0, 0.0)) })
    );
    assert_eq!(camera.camera_moves[1].target, place(2.0, 0.0, 0.0));
    assert_eq!(camera.camera_moves[1].look_at, None);
    assert_eq!(camera.location, place(0.0, 0.0, 0.0));
}

#[test]
fn update_without_a_move_changes_nothing() {
    let mut camera = camera_at(place(1.0, 2.0, 3.0), place(0.0, 0.0, 0.0));
    assert!(!camera.update(place(9.0, 9.0, 9.0), at(0.0), turned()));
    assert_eq!(camera.location, place(1.0, 2.0, 3.0));
    assert!(camera.camera_moves.is_empty());
}

#[test]
fn update_far_from_the_target_advances() {
    let mut camera = camera_at(place(0.0, 0.0, 0.0), place(0.0, 0.0, 1.0));
    camera.add_camera_move(place(10.0, 0.0, 0.0), 1.0f64.to_bits(), None);
    assert!(!camera.update(place(5.0, 0.0, 0.0), at(5.0), turned()));
    assert_eq!(camera.location, place(5.0, 0.0, 0.0));
    assert_eq!(camera.camera_moves.len(), 1);
    // At the snap distance itself the camera is not yet put on the target.
    assert!(!camera.update(place(9.99, 0.0, 0.0), at(0.01), turned()));
    assert_eq!(camera.location, place(9.99, 0.0, 0.0));
    assert_eq!(camera.camera_moves.len(), 1);
    // Nor where the distance is no number.
    assert!(!camera.update(place(9.99, 0.0, 0.0), at(f64::NAN), turned()));
    assert_eq!(camera.camera_moves.len(), 1);
}

#[test]
fn update_near_the_target_snaps_and_removes_the_move() {
    let mut camera = camera_at(place(0.0, 0.0, 0.0), place(0.0, 0.0, 1.0));
    camera.add_camera_move(place(10.0, 0.0, 0.0), 1.0f64.to_bits(), None);
    camera.add_camera_move(place(10.0, 5.0, 0.0), 1.0f64.to_bits(), None);
    assert!(camera.update(place(9.995, 0.0, 0.0), at(0.005), turned()));
    assert_eq!(camera.location, place(10.0, 0.0, 0.0));
    assert_eq!(camera.camera_moves.len(), 1);
    assert_eq!(camera.current_move().unwrap().target, place(10.0, 5.0, 0.0));
    assert!(camera.update(place(10.0, 5.0, 0.0), at(0.0), turned()));
    assert_eq!(camera.location, place(10.0, 5.0, 0.0));
    assert!(camera.camera_moves.is_empty());
    assert_eq!(camera.look_at, place(0.0, 0.0, 1.0));
}

#[test]
fn a_move_made_in_one_step_arrives() {
    let mut camera = camera_at(place(-5.0, -5.0, -12.0), place(0.0, 0.0, 0.0));
    camera.add_camera_move(place(5.0, -5.0, -12.0), 3.0f64.to_bits(), Some(place(0.0, 0.0, 0.0)));
    assert!(step(&mut camera, 3.0));
    assert_eq!(camera.location, place(5.0, -5.0, -12.0));
    assert!(camera.camera_moves.is_empty());
}

#[test]
fn small_steps_close_in_on_the_target_and_then_snap() {
    let mut camera = camera_at(place(0.0, 0.0, 0.0), place(0.0, 0.0, 1.0));
    camera.add_camera_move(place(10.0, 0.0, 0.0), 1.0f64.to_bits(), None);
    // Each step of half the duration halves what is left: ten steps leave
    // 10 / 1024, which is below the snap distance.
    for _ in 0..9 {
        assert!(!step(&mut camera, 0.5));
        assert_eq!(camera.camera_moves.len(), 1);
    }
    assert_eq!(camera.location, place(10.0 - 10.0 / 512.0, 0.0, 0.0));
    assert!(step(&mut camera, 0.5));
    assert_eq!(camera.location, place(10.0, 0.0, 0.0));
    assert!(camera.camera_moves.is_empty());
}

#[test]
fn steps_that_sum_to_the_duration_may_fall_short() {
    let mut camera = camera_at(place(0.0, 0.0, 0.0), place(0.0, 0.0, 1.0));
    camera.add_camera_move(place(10.0, 0.0, 0.0), 1.0f64.to_bits(), None);
    assert!(!step(&mut camera, 0.5));
    assert!(!step(&mut camera, 0.5));
    assert_eq!(camera.location, place(7.5, 0.0, 0.0));
    assert_eq!(camera.camera_moves.len(), 1);
}

#[test]
fn the_scene_moves_its_camera() {
    let camera = camera_at(place(0.0, 0.0, 0.0), place(0.0, 0.0, 1.0));
    let mut scene = Scene::new(camera, Color { r: 1, g: 2, b: 3, a: 255 });
    scene.camera.add_camera_move(place(1.0, 0.0, 0.0), 1.0f64.to_bits(), None);
    assert!(!scene.update(place(0.5, 0.0, 0.0), at(0.5), turned()));
    assert_eq!(scene.camera.location, place(0.5, 0.0, 0.0));
    assert!(scene.update(place(0.999, 0.0, 0.0), at(0.001), turned()));
    assert_eq!(scene.camera.location, place(1.0, 0.0, 0.0));
    assert!(scene.camera.camera_moves.is_empty());
    assert_eq!(scene.background, Color { r: 1, g: 2, b: 3, a: 255 });
    assert!(!scene.update(place(7.0, 0.0, 0.0), at(0.0), turned()));
    assert_eq!(scene.camera.location, place(1.0, 0.0, 0.0));
}

#[test]
fn a_move_without_an_aim_keeps_the_screen() {
    let mut camera = camera_at(place(0.0, 0.0, -5.0), place(0.0, 0.0, 0.0));
    assert_eq!(camera.direction, place(0.0, 0.0, 1.0));
    assert_eq!(camera.camera_right, place(2.0, 0.0, 0.0));
    assert_eq!(camera.camera_up, place(0.0, 1.125, 0.0));
    assert_eq!(camera.width, 4.0f64.to_bits());
    assert_eq!(camera.height, 2.25f64.to_bits());
    camera.add_camera_move(place(1.0, 0.0, -5.0), 1.0f64.to_bits(), None);
    assert!(!camera.update(place(0.5, 0.0, -5.0), at(0.5), turned()));
    assert_eq!(camera.direction, ahead().direction);
    assert_eq!(camera.camera_right, ahead().camera_right);
    assert_eq!(camera.camera_up, ahead().camera_up);
    assert!(camera.update(place(1.0, 0.0, -5.0), at(0.0), turned()));
    assert_eq!(camera.direction, ahead().direction);
    assert_eq!(camera.camera_right, ahead().camera_right);
    // Without a move the screen stays too.
    assert!(!camera.update(place(3.0, 0.0, -5.0), at(0.0), turned()));
    assert_eq!(camera.direction, ahead().direction);
}

#[test]
fn a_move_with_an_aim_turns_the_whole_screen_at_every_step() {
    let mut camera = camera_at(place(0.0, 0.0, -5.0), place(0.0, 0.0, 0.0));
    camera.add_camera_move(place(1.0, 0.0, -5.0), 1.0f64.to_bits(), Some(place(0.0, 0.0, 0.0)));
    camera.add_camera_move(place(2.0, 0.0, -5.0), 1.0f64.to_bits(), None);
    assert!(!camera.update(place(0.5, 0.0, -5.0), at(0.5), turned()));
    assert_eq!(camera.direction, turned().direction);
    assert_eq!(camera.camera_right, turned().camera_right);
    assert_eq!(camera.camera_up, turned().camera_up);
    assert_eq!(camera.location, place(0.5, 0.0, -5.0));
    assert_eq!(camera.look_at, place(0.0, 0.0, 0.0));
    // Also at the step that arrives.
    assert!(camera.update(place(0.999, 0.0, -5.0), at(0.001), ahead()));
    assert_eq!(camera.direction, ahead().direction);
    assert_eq!(camera.camera_right, ahead().camera_right);
    assert_eq!(camera.location, place(1.0, 0.0, -5.0));
    // The next move has no aim point and leaves the screen as it is.
    assert!(!camera.update(place(1.5, 0.0, -5.0), at(0.5), turned()));
    assert_eq!(camera.direction, ahead().direction);
    assert_eq!(camera.width, 4.0f64.to_bits());
}
