use path_tracer::math::ordinal::{from_bits as bits_to_ordinal, to_bits as ordinal_to_bits, ONE};
use path_tracer::math::vec3::{Color, Point3, Vec3, NEAR_ZERO};

fn scalar(value: f64) -> i64 {
    bits_to_ordinal(value.to_bits()).unwrap()
}

fn vector(x: f64, y: f64, z: f64) -> Vec3 {
    Vec3::new(scalar(x), scalar(y), scalar(z))
}

fn doubles(v: Vec3) -> (f64, f64, f64) {
    (
        f64::from_bits(ordinal_to_bits(v.x)),
        f64::from_bits(ordinal_to_bits(v.y)),
        f64::from_bits(ordinal_to_bits(v.z)),
    )
}

#[test]
fn near_zero_bound_is_a_hundred_millionth() {
    assert_eq!(NEAR_ZERO, scalar(1e-8));
}

#[test]
fn new_keeps_the_components() {
    let v = Vec3::new(1, -2, 3);
    assert_eq!((v.x, v.y, v.z), (1, -2, 3));
    let c: Color = Vec3::new(4, 5, 6);
    let p: Point3 = c;
    assert_eq!(p, Vec3 { x: 4, y: 5, z: 6 });
}

#[test]
fn from_float_repeats_the_component() {
    assert_eq!(Vec3::from_float(ONE), Vec3 { x: ONE, y: ONE, z: ONE });
}

#[test]
fn new_away_from_camera_turns_x_about() {
    let v = Vec3::new_away_from_camera(scalar(0.25), scalar(0.5), scalar(-0.75));
    assert_eq!(doubles(v), (-0.25, 0.5, -0.75));
}

#[test]
fn default_vector_is_zero() {
    assert_eq!(Vec3::default(), Vec3 { x: 0, y: 0, z: 0 });
}

#[test]
fn index_picks_x_y_and_then_z() {
    let v = Vec3::new(7, 8, 9);
    assert_eq!(v.index(0), 7);
    assert_eq!(v.index(1), 8);
    assert_eq!(v.index(2), 9);
    assert_eq!(v.index(3), 9);
    assert_eq!(v.index(usize::MAX), 9);
}

#[test]
fn negation_negates_each_component() {
    let v = vector(1.0, -2.5, 0.0);
    assert_eq!(doubles(-v), (-1.0, 2.5, 0.0));
    assert_eq!(-(-v), v);
}

#[test]
fn near_zero_needs_every_component_below_the_bound() {
    assert!(vector(0.0, 0.0, 0.0).near_zero());
    assert!(vector(9.9e-9, -9.9e-9, 1e-300).near_zero());
    assert!(!vector(1e-8, 0.0, 0.0).near_zero());
    assert!(!vector(0.0, -1e-8, 0.0).near_zero());
    assert!(!vector(0.0, 0.0, 1e-8).near_zero());
    assert!(!vector(0.0, 0.0, 1.0).near_zero());
    assert!(!vector(-1.0, 0.0, 0.0).near_zero());
    assert!(vector(9.999999999999999e-9, 0.0, 0.0).near_zero());
}

#[test]
fn near_zero_answers_as_the_test_on_doubles() {
    let values: [f64; 9] = [0.0, 1e-9, -1e-9, 1e-8, -1e-8, 2e-8, 0.5, -0.5, 9.999999999999999e-9];
    for x in values {
        for y in values {
            for z in values {
                let expected = x.abs() < 1e-8 && y.abs() < 1e-8 && z.abs() < 1e-8;
                assert_eq!(vector(x, y, z).near_zero(), expected);
            }
        }
    }
}

#[test]
fn a_point_is_kept_only_inside_the_unit_ball() {
    let p = vector(0.5, 0.5, 0.5);
    assert_eq!(Vec3::random_point_in_unit_sphere(p, scalar(0.75)), Some(p));
    assert_eq!(Vec3::random_point_in_unit_sphere(p, scalar(0.0)), Some(p));
    assert_eq!(Vec3::random_point_in_unit_sphere(p, scalar(0.9999999999999999)), Some(p));
    assert_eq!(Vec3::random_point_in_unit_sphere(p, scalar(1.0)), None);
    assert_eq!(Vec3::random_point_in_unit_sphere(p, scalar(3.0)), None);
}

#[test]
fn a_point_is_mirrored_into_the_hemisphere_of_the_normal() {
    let p = vector(0.1, -0.2, 0.3);
    assert_eq!(Vec3::random_point_in_hemisphere(p, scalar(0.2)), p);
    assert_eq!(Vec3::random_point_in_hemisphere(p, scalar(-0.2)), -p);
    assert_eq!(Vec3::random_point_in_hemisphere(p, scalar(0.0)), -p);
    assert_eq!(doubles(Vec3::random_point_in_hemisphere(p, scalar(-1.0))), (-0.1, 0.2, -0.3));
}
