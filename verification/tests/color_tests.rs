use raytracer::color::{
    color_to_u8, decimal_of_i32, decimal_of_u8, linear_to_gamma, pixel_line, write_color,
    MAX_INTENSITY_BITS,
};
use raytracer::interval::Interval;
use raytracer::logger::{log, Logger};
use raytracer::scalar::Scalar;
use raytracer::vec::Vec3;

fn s(x: f32) -> Scalar {
    Scalar::from_bits(x.to_bits())
}

fn f(x: Scalar) -> f32 {
    f32::from_bits(x.to_bits())
}

fn intensity() -> Interval {
    Interval::new(s(0.0), s(1.0 - f32::EPSILON))
}

/// The channel value as plain floating-point arithmetic gives it.
fn expected_channel(x: f32) -> u8 {
    let clamped = if x < 0.0 {
        0.0
    } else if x > 1.0 - f32::EPSILON {
        1.0 - f32::EPSILON
    } else {
        x
    };
    (((u8::MAX as f32 + 1.0) - f32::EPSILON) * clamped) as u8
}

#[test]
fn the_largest_intensity_is_just_below_one() {
    assert_eq!(MAX_INTENSITY_BITS, (1.0f32 - f32::EPSILON).to_bits());
}

#[test]
fn intensities_become_channel_values() {
    let i = intensity();
    assert_eq!(color_to_u8(s(0.0), &i), 0);
    assert_eq!(color_to_u8(s(0.5), &i), 128);
    assert_eq!(color_to_u8(s(0.25), &i), 64);
    assert_eq!(color_to_u8(s(1.0), &i), 255);
    assert_eq!(color_to_u8(s(0.999), &i), 255);
    assert_eq!(color_to_u8(s(0.003), &i), 0);
    assert_eq!(color_to_u8(s(0.004), &i), 1);
    assert_eq!(color_to_u8(s(-3.0), &i), 0);
    assert_eq!(color_to_u8(s(17.0), &i), 255);
    assert_eq!(color_to_u8(s(f32::INFINITY), &i), 255);
    assert_eq!(color_to_u8(s(f32::NEG_INFINITY), &i), 0);
    assert_eq!(color_to_u8(s(f32::NAN), &i), 0);
    assert_eq!(color_to_u8(s(1e-40), &i), 0);
}

#[test]
fn channel_values_agree_with_plain_arithmetic() {
    let mut state: u32 = 21;
    for _ in 0..5000 {
        state = state.wrapping_mul(1_664_525).wrapping_add(1_013_904_223);
        let x = (state >> 8) as f32 / 16_777_216.0 * 1.5 - 0.25;
        assert_eq!(color_to_u8(s(x), &intensity()), expected_channel(x), "{}", x);
        let any = f32::from_bits(state);
        assert_eq!(color_to_u8(s(any), &intensity()), expected_channel(any), "{:#x}", state);
    }
    for k in 0..=2560 {
        let x = k as f32 / 2560.0;
        assert_eq!(color_to_u8(s(x), &intensity()), expected_channel(x), "{}", x);
    }
}

#[test]
fn a_larger_intensity_never_has_a_smaller_channel_value() {
    let mut last = 0u8;
    for k in -100..=1300 {
        let x = k as f32 / 1000.0;
        let q = color_to_u8(s(x), &intensity());
        assert!(q >= last, "{}", x);
        last = q;
    }
    assert_eq!(last, 255);
    // Neighbouring numbers around each step of the channel value.
    for step in 1..=255u32 {
        let edge = step as f32 / 256.0;
        let below = f32::from_bits(edge.to_bits() - 1);
        assert_eq!(color_to_u8(s(below), &intensity()) as u32, step - 1);
        assert_eq!(color_to_u8(s(edge), &intensity()) as u32, step);
    }
    // Another interval.
    let narrow = Interval::new(s(0.25), s(0.5));
    let mut last = 0u8;
    for k in 0..=1000 {
        let q = color_to_u8(s(k as f32 / 1000.0), &narrow);
        assert!(q >= last);
        last = q;
    }
    assert_eq!(color_to_u8(s(0.0), &narrow), 64);
    assert_eq!(color_to_u8(s(1.0), &narrow), 128);
}

#[test]
fn a_brighter_pixel_never_has_a_smaller_channel_value() {
    let mut last = vec![0u8];
    for k in 0..=400 {
        let mut stream = Vec::new();
        let x = k as f32 / 100.0;
        write_color(&mut stream, Vec3::new(s(x), s(0.0), s(0.0)), 4);
        let text = String::from_utf8(stream).unwrap();
        let red: u8 = text.split(' ').next().unwrap().parse().unwrap();
        assert!(red >= last[0], "{}", x);
        last[0] = red;
    }
    assert_eq!(last[0], 255);
}

#[test]
fn gamma_correction_is_the_square_root() {
    assert_eq!(f(linear_to_gamma(s(0.25))), 0.5);
    assert_eq!(f(linear_to_gamma(s(1.0))), 1.0);
    assert_eq!(f(linear_to_gamma(s(0.0))), 0.0);
    assert_eq!(f(linear_to_gamma(s(0.5))), 0.5f32.sqrt());
    assert!(f(linear_to_gamma(s(-1.0))).is_nan());
}

#[test]
fn numbers_are_written_in_decimal() {
    for n in 0..=255u8 {
        assert_eq!(String::from_utf8(decimal_of_u8(n)).unwrap(), format!("{}", n));
    }
    for n in [0, 1, -1, 9, 10, 11, 99, 100, 255, 400, 225, -400, 1_000_000, i32::MAX, i32::MIN] {
        assert_eq!(String::from_utf8(decimal_of_i32(n)).unwrap(), format!("{}", n));
    }
    let mut state: u32 = 3;
    for _ in 0..500 {
        state = state.wrapping_mul(1_664_525).wrapping_add(1_013_904_223);
        let n = state as i32;
        assert_eq!(String::from_utf8(decimal_of_i32(n)).unwrap(), format!("{}", n));
    }
}

#[test]
fn a_pixel_is_one_line_of_three_numbers() {
    assert_eq!(String::from_utf8(pixel_line(0, 0, 0)).unwrap(), "0 0 0\n");
    assert_eq!(String::from_utf8(pixel_line(255, 128, 7)).unwrap(), "255 128 7\n");
    assert_eq!(String::from_utf8(pixel_line(10, 100, 99)).unwrap(), "10 100 99\n");
}

#[test]
fn a_color_is_averaged_corrected_and_written() {
    let mut stream = Vec::new();
    // The sum of four samples: the means are 0.25, 1.0 and 0.0625.
    write_color(&mut stream, Vec3::new(s(1.0), s(4.0), s(0.25)), 4);
    assert_eq!(String::from_utf8(stream.clone()).unwrap(), "128 255 64\n");
    write_color(&mut stream, Vec3::new(s(0.0), s(0.5), s(1.0)), 1);
    let second = format!("0 {} 255\n", expected_channel(0.5f32.sqrt()));
    assert_eq!(String::from_utf8(stream.clone()).unwrap(), format!("128 255 64\n{}", second));
    // One hundred samples.
    let mut stream = Vec::new();
    write_color(&mut stream, Vec3::new(s(50.0), s(25.0), s(100.0)), 100);
    let scale = 1.0f32 / 100.0;
    let expected = format!(
        "{} {} {}\n",
        expected_channel((50.0 * scale).sqrt()),
        expected_channel((25.0 * scale).sqrt()),
        expected_channel((100.0 * scale).sqrt())
    );
    assert_eq!(String::from_utf8(stream).unwrap(), expected);
}

#[test]
fn a_color_without_samples_is_written_all_the_same() {
    let mut stream = Vec::new();
    write_color(&mut stream, Vec3::new(s(1.0), s(0.0), s(-1.0)), 0);
    assert_eq!(String::from_utf8(stream).unwrap(), "255 0 0\n");
}

#[test]
fn messages_are_appended_to_a_stream() {
    let mut logger = Logger::new();
    assert!(logger.stdout.is_empty() && logger.stderr.is_empty());
    log(&mut logger.stdout, b"P3\n".to_vec());
    log(&mut logger.stdout, b"1 1\n".to_vec());
    log(&mut logger.stderr, b"done".to_vec());
    log(&mut logger.stderr, Vec::new());
    assert_eq!(logger.stdout, b"P3\n1 1\n".to_vec());
    assert_eq!(logger.stderr, b"done".to_vec());
}
