use eyebeam::appearance::Appearance;
use eyebeam::color::Color;
use eyebeam::distance::Distance;
use eyebeam::finish::Finish;
use eyebeam::prism::{FaceCrossing, FaceOffsets, Prism, TOLERANCE};
use eyebeam::util::{fmax, fmin, less_than};
use eyebeam::vec3::{Axis, InvalidAxis, Vec3};

fn at(t: f64) -> Distance {
    Distance { key: t.to_bits() }
}

fn place(x: f64, y: f64, z: f64) -> Vec3 {
    Vec3::new(x.to_bits(), y.to_bits(), z.to_bits())
}

fn grey() -> Appearance {
    Appearance::new(Color { r: 128, g: 128, b: 128, a: 255 }, Finish::default())
}

fn crossing(t: f64, x: f64, y: f64, z: f64) -> FaceCrossing {
    FaceCrossing { parameter: at(t), point: place(x, y, z) }
}

fn on(lower: bool, upper: bool) -> FaceOffsets {
    FaceOffsets {
        from_lower: (if lower { -0.000009f64 } else { 0.5 }).to_bits(),
        from_upper: (if upper { 0.000009f64 } else { -0.5 }).to_bits(),
    }
}

fn towards_k() -> Vec3 {
    place(0.0, 0.0, 1.0)
}

const NUMBERS: [f64; 14] = [
    f64::NEG_INFINITY,
    -1e300,
    -2.0,
    -1.0,
    -1e-300,
    -0.0,
    0.0,
    5e-324,
    1e-6,
    1.0,
    1.0000000000000002,
    1e300,
    f64::INFINITY,
    f64::NAN,
];

#[test]
fn patterns_are_ordered_as_their_numbers() {
    for a in NUMBERS.iter() {
        for b in NUMBERS.iter() {
            assert_eq!(less_than(a.to_bits(), b.to_bits()), a < b);
        }
    }
    assert!(!less_than((-f64::NAN).to_bits(), 0.0f64.to_bits()));
    assert!(!less_than(0.0f64.to_bits(), (-f64::NAN).to_bits()));
    assert!(!less_than(u64::MAX, 0));
    assert!(!less_than(0, u64::MAX));
}

#[test]
fn fmin_and_fmax_pick_as_the_numbers_do() {
    for a in NUMBERS.iter() {
        for b in NUMBERS.iter() {
            let least = if a < b { a } else { b };
            let greatest = if a > b { a } else { b };
            assert_eq!(fmin(a.to_bits(), b.to_bits()), least.to_bits());
            assert_eq!(fmax(a.to_bits(), b.to_bits()), greatest.to_bits());
        }
    }
    assert_eq!(fmin(1.5f64.to_bits(), (-2.5f64).to_bits()), (-2.5f64).to_bits());
    assert_eq!(fmax(1.5f64.to_bits(), (-2.5f64).to_bits()), 1.5f64.to_bits());
}

#[test]
fn a_vector_has_a_number_along_each_axis() {
    let v = place(1.0, -2.0, 3.5);
    assert_eq!(v.along(&Axis::I), 1.0f64.to_bits());
    assert_eq!(v.along(&Axis::J), (-2.0f64).to_bits());
    assert_eq!(v.along(&Axis::K), 3.5f64.to_bits());
    assert_eq!(v.component(&place(1.0, 0.0, 0.0)), Ok(1.0f64.to_bits()));
    assert_eq!(v.component(&place(0.0, 1.0, 0.0)), Ok((-2.0f64).to_bits()));
    assert_eq!(v.component(&place(0.0, 0.0, 1.0)), Ok(3.5f64.to_bits()));
    assert_eq!(Axis::I.others(), (Axis::J, Axis::K));
    assert_eq!(Axis::J.others(), (Axis::I, Axis::K));
    assert_eq!(Axis::K.others(), (Axis::I, Axis::J));
}

#[test]
fn corners_are_put_in_order() {
    let prism = Prism::new(place(1.0, -2.0, 5.0), place(-1.0, 2.0, 3.0), grey());
    assert_eq!(prism.corner_ll, place(-1.0, -2.0, 3.0));
    assert_eq!(prism.corner_ur, place(1.0, 2.0, 5.0));
    let same = Prism::new(place(-1.0, -2.0, 3.0), place(1.0, 2.0, 5.0), grey());
    assert_eq!(same.corner_ll, prism.corner_ll);
    assert_eq!(same.corner_ur, prism.corner_ur);
    assert_eq!(prism.appearance.material, Color { r: 128, g: 128, b: 128, a: 255 });
}

#[test]
fn contains_is_strict_along_one_axis() {
    let prism = Prism::new(place(-1.0, -2.0, 3.0), place(1.0, 2.0, 5.0), grey());
    let inside = place(0.0, 1.9, 4.0);
    assert!(prism.contains(&inside, &Axis::I));
    assert!(prism.contains(&inside, &Axis::J));
    assert!(prism.contains(&inside, &Axis::K));
    let edge = place(1.0, -2.0, 5.0000001);
    assert!(!prism.contains(&edge, &Axis::I));
    assert!(!prism.contains(&edge, &Axis::J));
    assert!(!prism.contains(&edge, &Axis::K));
    assert!(!prism.contains(&place(f64::NAN, 0.0, 4.0), &Axis::I));
    assert!(prism.contains(&place(f64::NAN, 0.0, 4.0), &Axis::J));
}

#[test]
fn a_crossing_counts_where_it_lies_on_the_face() {
    let prism = Prism::new(place(-1.0, -1.0, -1.0), place(1.0, 1.0, 1.0), grey());
    // A ray along K through the middle of the box.
    let along_k = vec![crossing(4.0, 0.0, 0.0, -1.0), crossing(6.0, 0.0, 0.0, 1.0)];
    assert_eq!(prism.intersect_on_axis(&Axis::K, &towards_k(), &along_k), vec![at(4.0), at(6.0)]);
    // The same points do not lie within the extent along K.
    assert_eq!(prism.intersect_on_axis(&Axis::I, &place(1.0, 1.0, 1.0), &along_k), vec![]);
    assert_eq!(prism.intersect_on_axis(&Axis::J, &place(1.0, 1.0, 1.0), &along_k), vec![]);
    // A ray that passes the box.
    let beside = vec![crossing(4.0, 1.5, 0.0, -1.0), crossing(6.0, 1.5, 0.0, 1.0)];
    assert_eq!(prism.intersect_on_axis(&Axis::K, &towards_k(), &beside), vec![]);
    let clipped = vec![crossing(4.0, 0.5, 0.5, -1.0), crossing(6.0, 0.5, 1.0, 1.0)];
    assert_eq!(prism.intersect_on_axis(&Axis::K, &towards_k(), &clipped), vec![at(4.0)]);
    assert_eq!(prism.intersect_on_axis(&Axis::K, &towards_k(), &vec![]), vec![]);
}

#[test]
fn intersections_follow_the_axes_in_order() {
    let prism = Prism::new(place(-1.0, -1.0, -1.0), place(1.0, 1.0, 1.0), grey());
    let along_i = vec![crossing(7.0, -1.0, 0.5, 0.5), crossing(1.0, 1.0, 2.0, 0.5)];
    let along_j = vec![crossing(3.0, 0.5, -1.0, 0.5), crossing(2.0, 0.5, 1.0, -0.5)];
    let along_k = vec![crossing(9.0, 0.0, 0.0, -1.0), crossing(8.0, 0.0, -3.0, 1.0)];
    let slanted = place(0.5, -0.5, 0.7);
    assert_eq!(
        prism.intersections(&slanted, &along_i, &along_j, &along_k),
        vec![at(7.0), at(3.0), at(2.0), at(9.0)]
    );
    assert_eq!(prism.intersections(&slanted, &vec![], &vec![], &vec![]), vec![]);
    // Along J the ray runs along the faces square to J and crosses neither.
    assert_eq!(
        prism.intersections(&place(0.5, 1e-17, 0.7), &along_i, &along_j, &along_k),
        vec![at(7.0), at(9.0)]
    );
}

#[test]
fn the_normal_is_that_of_the_first_face_found() {
    let off = on(false, false);
    assert_eq!(Prism::normal_at(on(true, false), off, off), place(-1.0, -0.0, -0.0));
    assert_eq!(Prism::normal_at(on(false, true), off, off), place(1.0, 0.0, 0.0));
    assert_eq!(Prism::normal_at(off, on(true, false), off), place(-0.0, -1.0, -0.0));
    assert_eq!(Prism::normal_at(off, on(false, true), off), place(0.0, 1.0, 0.0));
    assert_eq!(Prism::normal_at(off, off, on(true, false)), place(-0.0, -0.0, -1.0));
    assert_eq!(Prism::normal_at(off, off, on(false, true)), place(0.0, 0.0, 1.0));
    assert_eq!(Prism::normal_at(on(true, true), on(true, true), on(true, true)), place(-1.0, -0.0, -0.0));
    assert_eq!(Prism::normal_at(off, on(false, true), on(true, false)), place(0.0, 1.0, 0.0));
}

#[test]
fn a_component_is_asked_along_an_axis_only() {
    let v = place(1.0, -2.0, 3.5);
    assert_eq!(v.component(&place(1.0, 1.0, 0.0)), Err(InvalidAxis));
    assert_eq!(v.component(&place(0.0, 0.0, 0.0)), Err(InvalidAxis));
    assert_eq!(v.component(&place(-1.0, 0.0, 0.0)), Err(InvalidAxis));
    assert_eq!(v.component(&place(2.0, 0.0, 0.0)), Err(InvalidAxis));
    assert_eq!(v.component(&place(f64::NAN, 0.0, 0.0)), Err(InvalidAxis));
    assert_eq!(v.component(&place(1.0, 0.0, f64::EPSILON)), Err(InvalidAxis));
    // Within the tolerance a vector still counts as an axis.
    assert_eq!(v.component(&place(0.9999999999999999, 1e-17, -1e-17)), Ok(1.0f64.to_bits()));
    assert_eq!(v.component(&place(-0.0, 1.0, 2.2e-16)), Ok((-2.0f64).to_bits()));
}

#[test]
fn axes_are_told_as_the_numbers_tell_them() {
    let values = [0.0, -0.0, 1e-17, -2.2e-16, f64::EPSILON, 0.9999999999999998, 0.9999999999999999, 1.0, 1.0000000000000002, -1.0, f64::NAN];
    let near = |a: f64, b: f64| (a - b).abs() < f64::EPSILON;
    for x in values.iter() {
        for y in values.iter() {
            for z in values.iter() {
                let expected = if near(*x, 1.0) && near(*y, 0.0) && near(*z, 0.0) {
                    Some(Axis::I)
                } else if near(*x, 0.0) && near(*y, 1.0) && near(*z, 0.0) {
                    Some(Axis::J)
                } else if near(*x, 0.0) && near(*y, 0.0) && near(*z, 1.0) {
                    Some(Axis::K)
                } else {
                    None
                };
                assert_eq!(place(*x, *y, *z).axis(), expected);
            }
        }
    }
}

#[test]
fn units_and_inversion() {
    assert_eq!(Axis::I.unit(), place(1.0, 0.0, 0.0));
    assert_eq!(Axis::J.unit(), place(0.0, 1.0, 0.0));
    assert_eq!(Axis::K.unit(), place(0.0, 0.0, 1.0));
    assert_eq!(Vec3::zero(), place(0.0, 0.0, 0.0));
    for axis in [Axis::I, Axis::J, Axis::K] {
        assert_eq!(axis.unit().axis(), Some(axis));
    }
    let values = [0.0, -0.0, 1.5, -2.25, 1e300, -1e-300, f64::INFINITY, f64::NEG_INFINITY];
    for a in values.iter() {
        assert_eq!(place(*a, 1.0, -1.0).invert(), place(*a * -1f64, -1.0, 1.0));
    }
    assert_eq!(place(1.0, -2.0, 3.0).invert().invert(), place(1.0, -2.0, 3.0));
}

#[test]
fn a_ray_along_a_pair_of_faces_crosses_neither() {
    let prism = Prism::new(place(-1.0, -1.0, -1.0), place(1.0, 1.0, 1.0), grey());
    let crossings = vec![crossing(4.0, 0.0, 0.0, -1.0), crossing(6.0, 0.0, 0.0, 1.0)];
    for d in [0.0f64, -0.0, 1e-17, -2.2e-16, f64::EPSILON, -f64::EPSILON, f64::NAN] {
        assert_eq!(prism.intersect_on_axis(&Axis::K, &place(1.0, 1.0, d), &crossings), vec![]);
    }
    for d in [2.3e-16f64, -2.3e-16, 1.0, -1.0, f64::INFINITY] {
        assert_eq!(prism.intersect_on_axis(&Axis::K, &place(0.0, 0.0, d), &crossings), vec![at(4.0), at(6.0)]);
    }
    let values = [0.0f64, 1e-17, 2.220446049250313e-16, 2.2204460492503136e-16, -3e-16, 0.5, f64::NAN, f64::NEG_INFINITY];
    for d in values.iter() {
        let expected = d.abs() > f64::EPSILON;
        let kept = prism.intersect_on_axis(&Axis::I, &place(*d, 0.0, 0.0), &vec![crossing(1.0, 1.0, 0.0, 0.0)]);
        assert_eq!(!kept.is_empty(), expected);
    }
}

#[test]
fn a_point_lies_on_a_face_within_the_tolerance() {
    assert_eq!(TOLERANCE, 0.00001f64.to_bits());
    let far = FaceOffsets { from_lower: 0.5f64.to_bits(), from_upper: (-0.5f64).to_bits() };
    let values = [0.0f64, -0.0, 9.999999999999999e-6, -9.999999999999999e-6, 0.00001, -0.00001, 1.0000000000000003e-5, 0.5, f64::NAN, f64::INFINITY];
    for d in values.iter() {
        let expected = d.abs() < 0.00001;
        let lower = FaceOffsets { from_lower: d.to_bits(), from_upper: 0.5f64.to_bits() };
        let upper = FaceOffsets { from_lower: 0.5f64.to_bits(), from_upper: d.to_bits() };
        assert_eq!(Prism::on_surface(lower, far, far), expected);
        assert_eq!(Prism::on_surface(far, far, upper), expected);
        if expected {
            assert_eq!(Prism::normal_at(lower, far, far), place(-1.0, -0.0, -0.0));
            assert_eq!(Prism::normal_at(far, upper, far), place(0.0, 1.0, 0.0));
        }
    }
    assert!(!Prism::on_surface(far, far, far));
}
