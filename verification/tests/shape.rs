use eyebeam::distance::{Distance, INFINITY, SNAP, THRESHOLD};
use eyebeam::shape::Shape;

fn at(t: f64) -> Distance {
    Distance { key: t.to_bits() }
}

fn all(ts: &[f64]) -> Vec<Distance> {
    ts.iter().map(|t| at(*t)).collect()
}

fn closest_of_numbers(ts: &[f64]) -> f64 {
    *ts.iter()
        .filter(|&&d| d > 0.000001)
        .reduce(|acc, cur| if cur < acc { cur } else { acc })
        .unwrap_or(&f64::INFINITY)
}

#[test]
fn keys_are_the_patterns_of_the_named_numbers() {
    assert_eq!(INFINITY, f64::INFINITY.to_bits());
    assert_eq!(THRESHOLD, 0.000001f64.to_bits());
    assert_eq!(SNAP, 0.01f64.to_bits());
}

#[test]
fn keys_of_lengths_are_ordered_as_the_lengths() {
    let lengths = [0.0, f64::MIN_POSITIVE, 1e-300, 1e-7, 1e-6, 0.5, 1.0, 1.0000000000000002, 2.0, 1e300, f64::MAX, f64::INFINITY];
    for a in lengths.iter() {
        for b in lengths.iter() {
            assert_eq!(at(*a).is_below(&at(*b)), a < b);
            assert_eq!(at(*a).is_at_most(&at(*b)), a <= b);
        }
    }
}

#[test]
fn what_is_no_length_is_not_ordered() {
    let lengths = [0.0, 1.0, f64::INFINITY];
    for a in lengths.iter() {
        assert!(!at(*a).is_below(&at(f64::NAN)));
        assert!(!at(*a).is_at_most(&at(f64::NAN)));
        assert!(!at(*a).is_below(&at(-1.0)));
        assert!(!at(f64::NAN).is_below(&at(*a)));
    }
    assert!(!at(-1.0).counts_as_hit());
    assert!(!at(-0.0).counts_as_hit());
    assert!(!at(f64::NAN).counts_as_hit());
    assert!(!at(-f64::INFINITY).counts_as_hit());
    assert!(!at(0.0).counts_as_hit());
    assert!(!at(0.000001).counts_as_hit());
    assert!(at(0.0000010000000000000002).counts_as_hit());
    assert!(at(f64::INFINITY).counts_as_hit());
    assert!(Distance::infinity().is_infinite());
    assert!(!at(f64::MAX).is_infinite());
}

#[test]
fn closest_is_the_least_hit() {
    assert_eq!(Shape::closest_distance_along_ray(&all(&[4.0, 6.0])), at(4.0));
    assert_eq!(Shape::closest_distance_along_ray(&all(&[6.0, 4.0])), at(4.0));
    assert_eq!(Shape::closest_distance_along_ray(&all(&[-1.0, 0.0, 1e-7, 2.5, 1.5, f64::NAN, f64::INFINITY])), at(1.5));
}

#[test]
fn closest_skips_what_lies_behind_or_too_near() {
    assert_eq!(Shape::closest_distance_along_ray(&all(&[-4.0, 6.0])), at(6.0));
    assert_eq!(Shape::closest_distance_along_ray(&all(&[0.000001, 3.0])), at(3.0));
    assert_eq!(Shape::closest_distance_along_ray(&all(&[0.0000011, 3.0])), at(0.0000011));
}

#[test]
fn closest_is_infinity_without_a_hit() {
    assert_eq!(Shape::closest_distance_along_ray(&all(&[])), at(f64::INFINITY));
    assert_eq!(Shape::closest_distance_along_ray(&all(&[-1.0, -2.0, 0.0, 1e-9, f64::NAN])), at(f64::INFINITY));
    assert_eq!(Shape::closest_distance_along_ray(&all(&[f64::INFINITY])), at(f64::INFINITY));
}

#[test]
fn closest_agrees_with_the_numbers() {
    let values = [-2.0, -0.0, 0.0, 1e-7, 0.000001, 0.000002, 0.5, 1.0, 7.25, f64::INFINITY, f64::NAN, -f64::INFINITY];
    for a in values.iter() {
        for b in values.iter() {
            for c in values.iter() {
                let ts = [*a, *b, *c];
                let expected = closest_of_numbers(&ts);
                assert_eq!(Shape::closest_distance_along_ray(&all(&ts)), at(expected));
            }
        }
    }
}

#[test]
fn shadow_falls_from_a_hit_before_the_light() {
    assert!(Shape::casts_shadow(&all(&[5.0, 7.0]), at(10.0)));
    assert!(Shape::casts_shadow(&all(&[10.0]), at(10.0)));
    assert!(Shape::casts_shadow(&all(&[-3.0, 2.0]), at(10.0)));
}

#[test]
fn no_shadow_from_beyond_the_light_or_from_the_surface_itself() {
    assert!(!Shape::casts_shadow(&all(&[15.0]), at(10.0)));
    assert!(!Shape::casts_shadow(&all(&[]), at(10.0)));
    assert!(!Shape::casts_shadow(&all(&[-5.0, 0.0, 1e-8]), at(10.0)));
    assert!(!Shape::casts_shadow(&all(&[5.0]), at(f64::NAN)));
}

#[test]
fn shadow_at_infinity() {
    assert!(Shape::casts_shadow(&all(&[]), at(f64::INFINITY)));
    assert!(Shape::casts_shadow(&all(&[5.0]), at(f64::INFINITY)));
}
