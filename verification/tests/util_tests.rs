use rand::rngs::StdRng;
use rand::SeedableRng;
use raytracer::scalar::Scalar;
use raytracer::util::{degrees_to_radians, random_double, uniform, unit_sample};

fn s(x: f32) -> Scalar {
    Scalar::from_bits(x.to_bits())
}

fn f(x: Scalar) -> f32 {
    f32::from_bits(x.to_bits())
}

#[test]
fn degrees_become_radians() {
    assert_eq!(f(degrees_to_radians(s(180.0))), 180.0f32 * std::f32::consts::PI / 180.0);
    assert_eq!(f(degrees_to_radians(s(90.0))), 90.0f32 * std::f32::consts::PI / 180.0);
    assert_eq!(f(degrees_to_radians(s(0.0))), 0.0);
    assert_eq!(f(degrees_to_radians(s(-20.0))), -20.0f32 * std::f32::consts::PI / 180.0);
    assert_eq!(raytracer::util::PI_BITS, std::f32::consts::PI.to_bits());
}

#[test]
fn unit_samples_are_the_upper_bits_scaled() {
    assert_eq!(f(unit_sample(0)), 0.0);
    assert_eq!(f(unit_sample(255)), 0.0);
    assert_eq!(f(unit_sample(256)), 1.0 / 16_777_216.0);
    assert_eq!(f(unit_sample(0x8000_0000)), 0.5);
    assert_eq!(f(unit_sample(0xffff_ffff)), 16_777_215.0 / 16_777_216.0);
    let mut state: u32 = 5;
    for _ in 0..1000 {
        state = state.wrapping_mul(1_664_525).wrapping_add(1_013_904_223);
        let u = f(unit_sample(state));
        assert!((0.0..1.0).contains(&u));
        assert_eq!(u, (state >> 8) as f32 * (1.0 / 16_777_216.0));
    }
}

#[test]
fn uniform_samples_follow_the_formula() {
    let mut state: u32 = 17;
    for _ in 0..200 {
        state = state.wrapping_mul(1_664_525).wrapping_add(1_013_904_223);
        let u = (state >> 8) as f32 * (1.0 / 16_777_216.0);
        assert_eq!(f(uniform(s(-1.0), s(1.0), state)), -1.0 + (1.0 - -1.0) * u);
        assert_eq!(f(uniform(s(0.5), s(1.0), state)), 0.5 + (1.0 - 0.5) * u);
    }
}

#[test]
fn random_numbers_stay_in_their_range() {
    let mut rng = StdRng::seed_from_u64(1);
    for _ in 0..500 {
        let x = f(random_double(None, None, &mut rng));
        assert!((0.0..1.0).contains(&x));
        let y = f(random_double(Some(s(-1.0)), Some(s(1.0)), &mut rng));
        assert!((-1.0..1.0).contains(&y));
        let z = f(random_double(Some(s(0.5)), None, &mut rng));
        assert!((0.5..1.0).contains(&z));
        let w = f(random_double(None, Some(s(0.5)), &mut rng));
        assert!((0.0..0.5).contains(&w));
    }
}

#[test]
fn random_numbers_repeat_with_the_seed_and_vary_within_a_run() {
    let mut a = StdRng::seed_from_u64(42);
    let mut b = StdRng::seed_from_u64(42);
    let first: Vec<u32> = (0..20).map(|_| random_double(None, None, &mut a).to_bits()).collect();
    let second: Vec<u32> = (0..20).map(|_| random_double(None, None, &mut b).to_bits()).collect();
    assert_eq!(first, second);
    assert!(first.iter().any(|&x| x != first[0]));
}
