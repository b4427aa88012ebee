use raytracer::scalar::Scalar;
use std::cmp::Ordering;

/// A fixed sequence of bit patterns that covers zeros, subnormals, powers of
/// two, infinities and NaNs beside pseudo-random patterns.
fn patterns() -> Vec<u32> {
    let mut v: Vec<u32> = vec![
        0x0000_0000, 0x8000_0000, 0x0000_0001, 0x8000_0001, 0x007f_ffff, 0x0080_0000,
        0x3f80_0000, 0xbf80_0000, 0x3f00_0000, 0x4000_0000, 0x3400_0000, 0x3f7f_fffe,
        0x3f7f_ffff, 0x3f80_0001, 0x4380_0000, 0x437f_0000, 0x4b00_0000, 0x4b80_0000,
        0x4f00_0000, 0xcf00_0000, 0x4eff_ffff, 0x7f7f_ffff, 0xff7f_ffff, 0x7f80_0000,
        0xff80_0000, 0x7fc0_0000, 0xffc0_0000, 0x7f80_0001, 0x3a83_126f, 0x4049_0fdb,
    ];
    let mut state: u32 = 0x1234_5678;
    for _ in 0..400 {
        state = state.wrapping_mul(1_664_525).wrapping_add(1_013_904_223);
        v.push(state);
        // a pattern close to one: exponent near the bias
        v.push(0x3f00_0000 | (state >> 9));
        v.push(0xbe80_0000 ^ (state >> 7));
    }
    v
}

fn same(a: Scalar, b: f32) -> bool {
    if b.is_nan() {
        a.is_nan()
    } else {
        a.to_bits() == b.to_bits()
    }
}

#[test]
fn sum_of_one_and_one_is_two() {
    let one = Scalar::from_bits(1.0f32.to_bits());
    assert_eq!((one + one).to_bits(), 2.0f32.to_bits());
}

#[test]
fn arithmetic_agrees_with_the_hardware() {
    let p = patterns();
    let mut bad = 0;
    for (k, &a) in p.iter().enumerate() {
        for step in [3usize, 10, 50, 333, 512, 777] {
        let b = p[(k * 7 + step) % p.len()];
        let (x, y) = (f32::from_bits(a), f32::from_bits(b));
        let (sx, sy) = (Scalar::from_bits(a), Scalar::from_bits(b));
        if !same(sx + sy, x + y) { bad += 1; println!("{:#x} + {:#x}: {:#x} vs {:#x}", a, b, (sx + sy).to_bits(), (x + y).to_bits()); }
        if !same(sx - sy, x - y) { bad += 1; println!("{:#x} - {:#x}: {:#x} vs {:#x}", a, b, (sx - sy).to_bits(), (x - y).to_bits()); }
        if !same(sx * sy, x * y) { bad += 1; println!("{:#x} * {:#x}: {:#x} vs {:#x}", a, b, (sx * sy).to_bits(), (x * y).to_bits()); }
        if !same(sx / sy, x / y) { bad += 1; println!("{:#x} / {:#x}: {:#x} vs {:#x}", a, b, (sx / sy).to_bits(), (x / y).to_bits()); }
        }
    }
    assert_eq!(bad, 0);
}

#[test]
fn square_root_agrees_with_the_hardware() {
    for &a in patterns().iter() {
        assert!(same(Scalar::from_bits(a).sqrt(), f32::from_bits(a).sqrt()), "{:#x}", a);
    }
}

#[test]
fn negation_and_magnitude_agree_with_the_hardware() {
    for &a in patterns().iter() {
        let x = f32::from_bits(a);
        assert_eq!((-Scalar::from_bits(a)).to_bits(), (-x).to_bits());
        assert_eq!(Scalar::from_bits(a).abs().to_bits(), x.abs().to_bits());
        assert_eq!(Scalar::from_bits(a).is_nan(), x.is_nan());
        assert_eq!(Scalar::from_bits(a).is_infinite(), x.is_infinite());
        assert_eq!(Scalar::from_bits(a).is_finite(), x.is_finite());
        assert_eq!(Scalar::from_bits(a).is_sign_negative(), x.is_sign_negative());
    }
}

#[test]
fn comparisons_agree_with_the_hardware() {
    let p = patterns();
    for (k, &a) in p.iter().enumerate() {
        for step in [0usize, 1, 5, 11] {
            let b = p[(k + step) % p.len()];
            let (x, y) = (f32::from_bits(a), f32::from_bits(b));
            let (sx, sy) = (Scalar::from_bits(a), Scalar::from_bits(b));
            assert_eq!(sx.lt(sy), x < y);
            assert_eq!(sx.le(sy), x <= y);
            assert_eq!(sx.gt(sy), x > y);
            assert_eq!(sx.ge(sy), x >= y);
            assert_eq!(sx.same_value(sy), x == y);
            assert_eq!(sx.total_cmp(sy), x.total_cmp(&y));
            assert_eq!(sx.total_lt(sy), x.total_cmp(&y) == Ordering::Less);
        }
    }
}

#[test]
fn minimum_and_maximum_agree_with_the_hardware() {
    let p = patterns();
    for (k, &a) in p.iter().enumerate() {
        let b = p[(k * 3 + 1) % p.len()];
        let (x, y) = (f32::from_bits(a), f32::from_bits(b));
        let (sx, sy) = (Scalar::from_bits(a), Scalar::from_bits(b));
        let (lo, hi) = (f32::from_bits(sx.min(sy).to_bits()), f32::from_bits(sx.max(sy).to_bits()));
        if x.min(y).is_nan() {
            assert!(lo.is_nan() && hi.is_nan());
        } else {
            assert!(lo == x.min(y), "min {:#x} {:#x}", a, b);
            assert!(hi == x.max(y), "max {:#x} {:#x}", a, b);
        }
    }
}

#[test]
fn a_nan_gives_way_in_minimum_and_maximum() {
    let nan = Scalar::from_bits(f32::NAN.to_bits());
    let two = Scalar::from_bits(2.0f32.to_bits());
    assert_eq!(nan.min(two), two);
    assert_eq!(two.min(nan), two);
    assert_eq!(nan.max(two), two);
    assert_eq!(two.max(nan), two);
}

#[test]
fn integers_convert_as_the_cast_does() {
    let mut values: Vec<i32> = vec![
        0, 1, -1, 2, 3, 7, 100, 255, 256, 400, 16_777_215, 16_777_216, 16_777_217, 16_777_218,
        16_777_219, 33_554_431, 33_554_433, 33_554_434, 33_554_435, 2_147_483_520, 2_147_483_584,
        2_147_483_583, 2_147_483_585, i32::MAX, i32::MIN, i32::MIN + 1, -16_777_217, -33_554_435,
    ];
    let mut state: u32 = 99;
    for _ in 0..2000 {
        state = state.wrapping_mul(1_664_525).wrapping_add(1_013_904_223);
        values.push(state as i32);
        values.push((state >> 7) as i32);
    }
    for n in values {
        assert_eq!(Scalar::from_i32(n).to_bits(), (n as f32).to_bits(), "{}", n);
    }
}

#[test]
fn truncation_agrees_with_the_cast() {
    for &a in patterns().iter() {
        let x = f32::from_bits(a);
        assert_eq!(Scalar::from_bits(a).to_i32(), x as i32, "{:#x}", a);
        assert_eq!(Scalar::from_bits(a).to_u8(), x as u8, "{:#x}", a);
        assert_eq!(Scalar::from_bits(a).to_u8_scaled(8), (256.0 * x) as u8, "{:#x}", a);
        assert_eq!(Scalar::from_bits(a).to_i32_scaled(3), (8.0 * x) as i32, "{:#x}", a);
    }
    for n in [0.0f32, 0.5, 0.999, 1.0, 1.5, -1.5, 255.9, 256.0, -0.9, 2147483600.0, -2147483900.0] {
        assert_eq!(Scalar::from_bits(n.to_bits()).to_i32(), n as i32);
    }
}

#[test]
fn the_named_constants_are_the_numbers_they_stand_for() {
    assert_eq!(Scalar::zero().to_bits(), 0.0f32.to_bits());
    assert_eq!(Scalar::one().to_bits(), 1.0f32.to_bits());
    assert_eq!(Scalar::infinity().to_bits(), f32::INFINITY.to_bits());
    assert_eq!(Scalar::neg_infinity().to_bits(), f32::NEG_INFINITY.to_bits());
    assert_eq!(Scalar::epsilon().to_bits(), f32::EPSILON.to_bits());
    assert_eq!(raytracer::scalar::TWO_BITS, 2.0f32.to_bits());
    assert_eq!(raytracer::scalar::HALF_BITS, 0.5f32.to_bits());
    assert_eq!(Scalar::default().to_bits(), 0.0f32.to_bits());
}

#[test]
fn tangent_is_close_to_the_hardware() {
    for x in [0.0f32, 0.1, 0.5, 0.785398, 1.0, -0.3, 0.00523599, 0.174533] {
        let t = f32::from_bits(Scalar::from_bits(x.to_bits()).tan().to_bits());
        assert!((t - x.tan()).abs() <= 1e-6 * (1.0 + x.tan().abs()), "{}", x);
    }
}
