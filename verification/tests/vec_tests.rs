use rand::rngs::StdRng;
use rand::SeedableRng;
use raytracer::scalar::Scalar;
use raytracer::vec::{
    facing, random_in_unit_disk, random_in_unit_sphere, random_on_hemisphere, random_unit_vector,
    reflect, refract, Vec3,
};

fn s(x: f32) -> Scalar {
    Scalar::from_bits(x.to_bits())
}

fn f(x: Scalar) -> f32 {
    f32::from_bits(x.to_bits())
}

fn v(x: f32, y: f32, z: f32) -> Vec3 {
    Vec3::new(s(x), s(y), s(z))
}

fn parts(a: Vec3) -> [f32; 3] {
    [f(a.x), f(a.y), f(a.z)]
}

#[test]
fn vector_arithmetic_is_component_wise() {
    let a = v(1.5, -2.0, 0.25);
    let b = v(0.1, 4.0, -8.0);
    assert_eq!(parts(a + b), [1.5 + 0.1, -2.0 + 4.0, 0.25 + -8.0]);
    assert_eq!(parts(a - b), [1.5 - 0.1, -2.0 - 4.0, 0.25 - -8.0]);
    assert_eq!(parts(a * b), [1.5 * 0.1, -2.0 * 4.0, 0.25 * -8.0]);
    assert_eq!(parts(-a), [-1.5, 2.0, -0.25]);
    assert_eq!(parts(a * s(3.0)), [4.5, -6.0, 0.75]);
    assert_eq!(parts(s(3.0) * a), [4.5, -6.0, 0.75]);
    let third = 1.0f32 / 3.0;
    assert_eq!(parts(b / s(3.0)), [0.1 * third, 4.0 * third, -8.0 * third]);
}

#[test]
fn the_zero_vector_is_the_default() {
    assert_eq!(Vec3::default(), v(0.0, 0.0, 0.0));
    assert_eq!(Vec3::zero(), v(0.0, 0.0, 0.0));
}

#[test]
fn lengths_and_products_follow_their_formulas() {
    let a = v(1.5, -2.0, 0.25);
    let b = v(0.1, 4.0, -8.0);
    assert_eq!(f(a.length_squared()), 1.5f32 * 1.5 + -2.0f32 * -2.0 + 0.25f32 * 0.25);
    assert_eq!(f(a.length()), (1.5f32 * 1.5 + -2.0f32 * -2.0 + 0.25f32 * 0.25).sqrt());
    assert_eq!(f(a.dot(&b)), 1.5f32 * 0.1 + -2.0f32 * 4.0 + 0.25f32 * -8.0);
    assert_eq!(
        parts(a.cross(&b)),
        [
            -2.0f32 * -8.0 - 0.25f32 * 4.0,
            0.25f32 * 0.1 - 1.5f32 * -8.0,
            1.5f32 * 4.0 - -2.0f32 * 0.1
        ]
    );
    assert_eq!(f(v(3.0, 4.0, 0.0).length()), 5.0);
    assert_eq!(parts(v(1.0, 0.0, 0.0).cross(&v(0.0, 1.0, 0.0))), [0.0, 0.0, 1.0]);
}

#[test]
fn a_unit_vector_has_length_one() {
    assert_eq!(parts(v(0.0, 3.0, 0.0).unit_vector()), [0.0, 1.0, 0.0]);
    let u = v(1.0, 2.0, -2.0).unit_vector();
    let inverse = 1.0f32 / 3.0;
    assert_eq!(parts(u), [1.0 * inverse, 2.0 * inverse, -2.0 * inverse]);
    assert!((f(u.length()) - 1.0).abs() < 1e-6);
}

#[test]
fn near_zero_goes_by_magnitude() {
    assert!(v(0.0, 0.0, 0.0).near_zero());
    assert!(v(1e-8, -1e-8, 1e-9).near_zero());
    assert!(!v(1e-3, 0.0, 0.0).near_zero());
    assert!(!v(0.0, -1e-3, 0.0).near_zero());
    assert!(!v(-5.0, -5.0, -5.0).near_zero());
    assert!(!v(0.0, 0.0, f32::EPSILON).near_zero());
    assert!(v(0.0, 0.0, f32::EPSILON / 2.0).near_zero());
    assert!(!v(f32::NAN, 0.0, 0.0).near_zero());
}

#[test]
fn reflection_mirrors_about_the_normal() {
    let n = v(0.0, 1.0, 0.0);
    assert_eq!(parts(reflect(&v(1.0, -1.0, 0.0), &n)), [1.0, 1.0, 0.0]);
    assert_eq!(parts(reflect(&v(0.0, -1.0, 0.0), &n)), [0.0, 1.0, 0.0]);
    let a = v(0.3, -0.8, 0.5);
    let m = v(0.6, 0.0, 0.8);
    let d = 0.3f32 * 0.6 + -0.8f32 * 0.0 + 0.5f32 * 0.8;
    let k = 2.0f32 * d;
    assert_eq!(parts(reflect(&a, &m)), [0.3 - 0.6 * k, -0.8 - 0.0 * k, 0.5 - 0.8 * k]);
}

#[test]
fn refraction_follows_the_formula() {
    // Straight through at normal incidence, whatever the ratio.
    let n = v(0.0, 1.0, 0.0);
    let straight = refract(&v(0.0, -1.0, 0.0), &n, s(1.0 / 1.5));
    assert_eq!(parts(straight), [0.0, -1.0, 0.0]);
    // With equal indices the direction is kept.
    let kept = parts(refract(&v(0.6, -0.8, 0.0), &n, s(1.0)));
    assert!((kept[0] - 0.6).abs() < 1e-6 && (kept[1] + 0.8).abs() < 1e-6 && kept[2] == 0.0);
    // The general case, step by step.
    let uv = [0.6f32, -0.8, 0.0];
    let ratio = 1.0f32 / 1.5;
    let dot = uv[0] * 0.0 + uv[1] * 1.0 + uv[2] * 0.0;
    let cos_theta = -(dot.min(1.0));
    let perp = [
        (uv[0] + 0.0 * cos_theta) * ratio,
        (uv[1] + 1.0 * cos_theta) * ratio,
        (uv[2] + 0.0 * cos_theta) * ratio,
    ];
    let lsq = perp[0] * perp[0] + perp[1] * perp[1] + perp[2] * perp[2];
    let scale = -((1.0 - lsq).abs().sqrt());
    let expected = [perp[0] + 0.0 * scale, perp[1] + 1.0 * scale, perp[2] + 0.0 * scale];
    assert_eq!(parts(refract(&v(0.6, -0.8, 0.0), &n, s(ratio))), expected);
}

#[test]
fn facing_turns_a_vector_to_the_side_of_the_normal() {
    let n = v(0.0, 0.0, 1.0);
    assert_eq!(facing(&v(1.0, 2.0, 3.0), &n), v(1.0, 2.0, 3.0));
    assert_eq!(facing(&v(1.0, 2.0, -3.0), &n), v(-1.0, -2.0, 3.0));
    assert_eq!(facing(&v(1.0, 2.0, 0.0), &n), v(-1.0, -2.0, -0.0));
}

#[test]
fn random_vectors_have_components_in_range() {
    let mut rng = StdRng::seed_from_u64(3);
    for _ in 0..200 {
        for c in parts(Vec3::random(None, None, &mut rng)) {
            assert!((0.0..1.0).contains(&c));
        }
        for c in parts(Vec3::random(Some(s(0.5)), Some(s(1.0)), &mut rng)) {
            assert!((0.5..1.0).contains(&c));
        }
    }
}

#[test]
fn random_points_lie_in_the_unit_sphere() {
    let mut rng = StdRng::seed_from_u64(4);
    let mut seen_negative = false;
    for _ in 0..300 {
        let p = random_in_unit_sphere(&mut rng);
        assert!(f(p.length_squared()) < 1.0);
        seen_negative |= f(p.x) < 0.0;
    }
    assert!(seen_negative);
}

#[test]
fn random_directions_have_unit_length() {
    let mut rng = StdRng::seed_from_u64(5);
    for _ in 0..300 {
        let u = random_unit_vector(&mut rng);
        assert!((f(u.length()) - 1.0).abs() < 1e-5);
    }
}

#[test]
fn random_directions_on_a_hemisphere_point_along_the_normal() {
    let mut rng = StdRng::seed_from_u64(6);
    let n = v(0.0, 0.6, 0.8);
    for _ in 0..300 {
        let u = random_on_hemisphere(&n, &mut rng);
        assert!(f(u.dot(&n)) >= 0.0);
        assert!((f(u.length()) - 1.0).abs() < 1e-5);
    }
}

#[test]
fn random_points_lie_in_the_unit_disk() {
    let mut rng = StdRng::seed_from_u64(7);
    for _ in 0..300 {
        let p = random_in_unit_disk(&mut rng);
        assert_eq!(f(p.z), 0.0);
        assert!(f(p.length_squared()) < 1.0);
    }
}
