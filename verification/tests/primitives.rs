use eyebeam::appearance::Appearance;
use eyebeam::color::Color;
use eyebeam::distance::Distance;
use eyebeam::finish::Finish;
use eyebeam::mesh::ColoredMesh;
use eyebeam::plane::Plane;
use eyebeam::prism::Prism;
use eyebeam::shape::Shape;
use eyebeam::sphere::Sphere;
use eyebeam::util::{is_negligible, not_below, EPSILON, ONE};
use eyebeam::vec3::Vec3;

fn at(t: f64) -> Distance {
    Distance { key: t.to_bits() }
}

fn place(x: f64, y: f64, z: f64) -> Vec3 {
    Vec3::new(x.to_bits(), y.to_bits(), z.to_bits())
}

fn tinted(r: u8) -> Appearance {
    Appearance::new(Color { r, g: 0, b: 0, a: 255 }, Finish::default())
}

// Where a ray from `origin` along `direction`, of length one, crosses the
// sphere of radius `radius` about `center`.
fn sphere_crossings(center: [f64; 3], radius: f64, origin: [f64; 3], direction: [f64; 3]) -> Vec<Distance> {
    let os = [origin[0] - center[0], origin[1] - center[1], origin[2] - center[2]];
    let b = 2.0 * (os[0] * direction[0] + os[1] * direction[1] + os[2] * direction[2]);
    let c = os[0] * os[0] + os[1] * os[1] + os[2] * os[2] - radius * radius;
    let discriminant = b * b - 4.0 * c;
    let root = discriminant.sqrt();
    Sphere::intersections(discriminant.to_bits(), at(-b / 2.0), at((-b - root) / 2.0), at((-b + root) / 2.0))
}

#[test]
fn patterns_of_the_named_numbers() {
    assert_eq!(ONE, 1.0f64.to_bits());
    assert_eq!(EPSILON, f64::EPSILON.to_bits());
}

#[test]
fn at_least_and_negligible_read_as_the_numbers_do() {
    let values = [f64::NEG_INFINITY, -1.0, -1e-17, -0.0, 0.0, 1e-17, f64::EPSILON, 2.3e-16, 1.0, f64::INFINITY, f64::NAN];
    for a in values.iter() {
        assert_eq!(is_negligible(a.to_bits()), a.abs() < f64::EPSILON);
        for b in values.iter() {
            assert_eq!(not_below(a.to_bits(), b.to_bits()), a >= b);
        }
    }
}

#[test]
fn a_ray_through_the_centre_crosses_a_sphere_twice() {
    // From five away, a sphere of radius one is crossed at four and at six.
    assert_eq!(sphere_crossings([0.0, 0.0, 0.0], 1.0, [0.0, 0.0, -5.0], [0.0, 0.0, 1.0]), vec![at(4.0), at(6.0)]);
    assert_eq!(sphere_crossings([1.0, 2.0, 3.0], 2.0, [1.0, -8.0, 3.0], [0.0, 1.0, 0.0]), vec![at(8.0), at(12.0)]);
    // From inside, one crossing lies behind.
    assert_eq!(sphere_crossings([0.0, 0.0, 0.0], 1.0, [0.0, 0.0, 0.0], [1.0, 0.0, 0.0]), vec![at(-1.0), at(1.0)]);
}

#[test]
fn a_ray_that_passes_a_sphere_crosses_it_nowhere() {
    assert_eq!(sphere_crossings([0.0, 0.0, 0.0], 1.0, [0.0, 2.0, -5.0], [0.0, 0.0, 1.0]), vec![]);
    assert_eq!(Sphere::intersections((-0.5f64).to_bits(), at(1.0), at(2.0), at(3.0)), vec![]);
    assert_eq!(Sphere::intersections(f64::NEG_INFINITY.to_bits(), at(1.0), at(2.0), at(3.0)), vec![]);
}

#[test]
fn a_tangent_ray_crosses_a_sphere_once() {
    assert_eq!(sphere_crossings([0.0, 0.0, 0.0], 1.0, [0.0, 1.0, -5.0], [0.0, 0.0, 1.0]), vec![at(5.0)]);
    assert_eq!(Sphere::intersections(0.0f64.to_bits(), at(1.0), at(2.0), at(3.0)), vec![at(1.0)]);
    assert_eq!(Sphere::intersections((-0.0f64).to_bits(), at(1.0), at(2.0), at(3.0)), vec![at(1.0)]);
    assert_eq!(Sphere::intersections(1e-16f64.to_bits(), at(1.0), at(2.0), at(3.0)), vec![at(1.0)]);
    assert_eq!(Sphere::intersections(f64::EPSILON.to_bits(), at(1.0), at(2.0), at(3.0)), vec![at(2.0), at(3.0)]);
    assert_eq!(Sphere::intersections(f64::NAN.to_bits(), at(1.0), at(2.0), at(3.0)), vec![at(2.0), at(3.0)]);
}

#[test]
fn a_ray_along_a_plane_crosses_it_nowhere() {
    assert_eq!(Plane::intersections(0.0f64.to_bits(), at(f64::INFINITY)), vec![]);
    assert_eq!(Plane::intersections((-0.0f64).to_bits(), at(f64::NAN)), vec![]);
    assert_eq!(Plane::intersections(1e-16f64.to_bits(), at(1e16)), vec![]);
    assert_eq!(Plane::intersections((-2.2e-16f64).to_bits(), at(-1e16)), vec![]);
}

#[test]
fn a_ray_towards_a_plane_crosses_it_once() {
    // The plane through (0, 1, 0) with its normal along J, from the origin
    // along J: the crossing lies at (P - O).N / (D.N) = 1.
    let normal = [0.0f64, 1.0, 0.0];
    let point = [0.0f64, 1.0, 0.0];
    let origin = [0.0f64, 0.0, 0.0];
    let direction = [0.0f64, 1.0, 0.0];
    let cosine = direction[0] * normal[0] + direction[1] * normal[1] + direction[2] * normal[2];
    let towards = (point[0] - origin[0]) * normal[0] + (point[1] - origin[1]) * normal[1] + (point[2] - origin[2]) * normal[2];
    assert_eq!(Plane::intersections(cosine.to_bits(), at(towards / cosine)), vec![at(1.0)]);
    assert_eq!(Plane::intersections(f64::EPSILON.to_bits(), at(7.0)), vec![at(7.0)]);
    assert_eq!(Plane::intersections((-1.0f64).to_bits(), at(-7.0)), vec![at(-7.0)]);
    assert_eq!(Plane::intersections(f64::NAN.to_bits(), at(2.0)), vec![at(2.0)]);
}

#[test]
fn a_plane_has_one_normal() {
    let plane = Plane::new(place(0.0, 1.0, 0.0), place(0.0, -1.0, 0.0), tinted(3));
    assert_eq!(plane.normal_at(&place(7.0, 1.0, -9.0)), place(0.0, -1.0, 0.0));
    assert_eq!(plane.point, place(0.0, 1.0, 0.0));
    assert_eq!(plane.appearance().material.r, 3);
}

#[test]
fn every_kind_of_shape_has_its_appearance() {
    let sphere = Sphere::new(place(0.0, 0.0, 0.0), 1.0f64.to_bits(), tinted(1));
    assert_eq!(sphere.center, place(0.0, 0.0, 0.0));
    assert_eq!(sphere.radius, 1.0f64.to_bits());
    let shapes = vec![
        Shape::Sphere(sphere),
        Shape::Plane(Plane::new(place(0.0, 1.0, 0.0), place(0.0, 1.0, 0.0), tinted(2))),
        Shape::Prism(Prism::new(place(0.0, 0.0, 0.0), place(1.0, 1.0, 1.0), tinted(3))),
        Shape::Mesh(ColoredMesh::new(vec![0, 1, 2], 9, place(0.0, 0.0, 0.0), tinted(4)).unwrap()),
    ];
    for (i, shape) in shapes.iter().enumerate() {
        assert_eq!(shape.appearance().material.r, i as u8 + 1);
        assert_eq!(shape.color(), Color { r: 0, g: 0, b: 0, a: 255 });
    }
}
