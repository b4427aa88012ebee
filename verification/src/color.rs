//! Colors and their encoding as pixels.

use vstd::prelude::*;
use vstd::arithmetic::power2::{lemma2_to64, lemma_pow2_pos, lemma_pow2_strictly_increases, pow2};
use crate::interval::Interval;
use crate::logger::log;
use crate::scalar::{Scalar, HIDDEN_BIT, ONE_BITS, UNIT_EXPONENT, ZERO_BITS};
use crate::vec::Vec3;

verus! {

/// A vector read as the three channels red, green and blue.
pub type Color = Vec3;

/// Bit pattern of the largest intensity, `1 - 2^-23`.
pub const MAX_INTENSITY_BITS: u32 = 0x3f7f_fffe;

/// The number of doublings that take an intensity to a channel value: the
/// channel is the intensity times 256.
pub const CHANNEL_DOUBLINGS: u32 = 8;

/// The ASCII code of the digit 0.
pub const DIGIT_ZERO: u8 = 48;

/// The ASCII code of the space.
pub const SPACE: u8 = 32;

/// The ASCII code of the line feed.
pub const LINE_FEED: u8 = 10;

/// The ASCII code of the minus sign.
pub const MINUS: u8 = 45;

/// The decimal digits of a number, in ASCII, without leading zeros.
pub open spec fn decimal_spec(n: nat) -> Seq<u8>
    decreases n,
{
    if n < 10 {
        seq![(DIGIT_ZERO + n) as u8]
    } else {
        decimal_spec(n / 10).push((DIGIT_ZERO + n % 10) as u8)
    }
}

/// An integer in decimal, in ASCII, with a minus sign where it is negative.
pub open spec fn integer_spec(n: int) -> Seq<u8> {
    if n < 0 {
        seq![MINUS] + decimal_spec((-n) as nat)
    } else {
        decimal_spec(n as nat)
    }
}

/// The range of intensities that a channel can show: from 0 to just below 1.
pub open spec fn intensity_spec() -> Interval {
    Interval { min: Scalar { bits: ZERO_BITS }, max: Scalar { bits: MAX_INTENSITY_BITS } }
}

/// The channel value of an intensity: the intensity is clamped to the
/// interval, multiplied by 256 and truncated to `0 ..= 255`.
pub open spec fn color_to_u8_spec(float: Scalar, interval: Interval) -> int {
    interval.clamp_spec(float).to_u8_scaled_spec(CHANNEL_DOUBLINGS as int)
}

/// The gamma-corrected intensity: the square root of the linear one.
pub open spec fn linear_to_gamma_spec(linear_component: Scalar) -> Scalar {
    linear_component.sqrt_spec()
}

/// The channel value of a sum of `samples_per_pixel` linear intensities: the
/// mean, gamma-corrected and quantized.
pub open spec fn channel_spec(sum: Scalar, samples_per_pixel: int) -> int {
    let scale = Scalar { bits: ONE_BITS }.div_spec(Scalar::from_int_spec(samples_per_pixel));
    color_to_u8_spec(linear_to_gamma_spec(sum.mul_spec(scale)), intensity_spec())
}

/// The line of a pixel in the image: the three channel values in decimal,
/// separated by spaces and ended by a line feed.
pub open spec fn pixel_line_spec(red: int, green: int, blue: int) -> Seq<u8> {
    decimal_spec(red as nat) + seq![SPACE] + decimal_spec(green as nat) + seq![SPACE]
        + decimal_spec(blue as nat) + seq![LINE_FEED]
}

/// The decimal digits of a channel value.
pub fn decimal_of_u8(value: u8) -> (r: Vec<u8>)
    ensures
        r@ == decimal_spec(value as nat),
{
    let mut r: Vec<u8> = Vec::new();
    if value >= 100 {
        r.push(DIGIT_ZERO + value / 100);
    }
    if value >= 10 {
        r.push(DIGIT_ZERO + (value / 10) % 10);
    }
    r.push(DIGIT_ZERO + value % 10);
    proof {
        reveal_with_fuel(decimal_spec, 3);
        assert(r@ =~= decimal_spec(value as nat));
    }
    r
}

/// The digits that stand before the last ones written: those of `rest`,
/// or none once `rest` is used up.
pub open spec fn leading_digits(rest: nat) -> Seq<u8> {
    if rest > 0 {
        decimal_spec(rest)
    } else {
        Seq::empty()
    }
}

/// An integer in decimal.
pub fn decimal_of_i32(value: i32) -> (r: Vec<u8>)
    ensures
        r@ == integer_spec(value as int),
{
    let mut r: Vec<u8> = Vec::new();
    let magnitude: u32 = if value < 0 {
        r.push(MINUS);
        (-(value as i64)) as u32
    } else {
        value as u32
    };
    let start: usize = r.len();
    let ghost sign: Seq<u8> = r@;
    let mut rest: u32 = magnitude;
    r.push(DIGIT_ZERO + (rest % 10) as u8);
    rest = rest / 10;
    assert(sign + decimal_spec(magnitude as nat) =~= sign + leading_digits(rest as nat)
        + r@.skip(start as int));
    while rest > 0
        invariant
            start == sign.len(),
            start < r.len(),
            r@.take(start as int) == sign,
            sign + decimal_spec(magnitude as nat) == sign + leading_digits(rest as nat) + r@.skip(
                start as int,
            ),
        decreases rest,
    {
        let ghost before = r@;
        let digit: u8 = DIGIT_ZERO + (rest % 10) as u8;
        r.insert(start, digit);
        proof {
            assert(r@.take(start as int) =~= sign);
            assert(r@.skip(start as int) =~= seq![digit] + before.skip(start as int));
            assert(leading_digits(rest as nat) =~= leading_digits((rest / 10) as nat) + seq![
                digit,
            ]);
            assert(sign + leading_digits(rest as nat) + before.skip(start as int) =~= sign
                + leading_digits((rest / 10) as nat) + r@.skip(start as int));
        }
        rest = rest / 10;
    }
    proof {
        assert(r@ =~= r@.take(start as int) + r@.skip(start as int));
        assert(sign + decimal_spec(magnitude as nat) =~= r@);
    }
    r
}

/// The channel value of an intensity.
pub fn color_to_u8(float: Scalar, interval: &Interval) -> (r: u8)
    ensures
        r == color_to_u8_spec(float, *interval),
{
    interval.clamp(float).to_u8_scaled(CHANNEL_DOUBLINGS)
}

pub fn linear_to_gamma(linear_component: Scalar) -> (r: Scalar)
    ensures
        r == linear_to_gamma_spec(linear_component),
{
    linear_component.sqrt()
}

/// The line of a pixel.
pub fn pixel_line(red: u8, green: u8, blue: u8) -> (r: Vec<u8>)
    ensures
        r@ == pixel_line_spec(red as int, green as int, blue as int),
{
    let mut r = decimal_of_u8(red);
    r.push(SPACE);
    let mut digits = decimal_of_u8(green);
    r.append(&mut digits);
    r.push(SPACE);
    let mut digits = decimal_of_u8(blue);
    r.append(&mut digits);
    r.push(LINE_FEED);
    assert(r@ =~= pixel_line_spec(red as int, green as int, blue as int));
    r
}

/// Writes the pixel whose color is the sum `pixel_color` of
/// `samples_per_pixel` samples: each channel is averaged, gamma-corrected,
/// clamped to the intensities and quantized, and the three values make one
/// line of the stream.
pub fn write_color(stream: &mut Vec<u8>, pixel_color: Color, samples_per_pixel: i32)
    ensures
        final(stream)@ == old(stream)@ + pixel_line_spec(
            channel_spec(pixel_color.x, samples_per_pixel as int),
            channel_spec(pixel_color.y, samples_per_pixel as int),
            channel_spec(pixel_color.z, samples_per_pixel as int),
        ),
{
    let mut red = pixel_color.x;
    let mut green = pixel_color.y;
    let mut blue = pixel_color.z;

    let scale = Scalar::one() / Scalar::from_i32(samples_per_pixel);
    red = red * scale;
    green = green * scale;
    blue = blue * scale;

    red = linear_to_gamma(red);
    green = linear_to_gamma(green);
    blue = linear_to_gamma(blue);

    let intensity = Interval {
        min: Scalar::zero(),
        max: Scalar::from_bits(MAX_INTENSITY_BITS),
    };

    log(
        stream,
        pixel_line(
            color_to_u8(red, &intensity),
            color_to_u8(green, &intensity),
            color_to_u8(blue, &intensity),
        ),
    );
}

/// The channel value of a number that is not negative, from its exponent
/// `e`, raised by the doublings, and its fraction `f`.
pub open spec fn magnitude_to_u8(e: int, f: int) -> int {
    let significand = f + HIDDEN_BIT;
    let whole = if e < 127 {
        0
    } else if e >= 158 {
        i32::MAX as int
    } else if e >= UNIT_EXPONENT {
        significand * pow2((e - UNIT_EXPONENT) as nat)
    } else {
        significand / (pow2((UNIT_EXPONENT - e) as nat) as int)
    };
    if whole < 0 {
        0
    } else if whole > 255 {
        255
    } else {
        whole
    }
}

/// The channel value of a number with a high exponent is the largest one.
proof fn lemma_magnitude_to_u8_saturates(e: int, f: int)
    requires
        e >= 135,
        0 <= f < HIDDEN_BIT,
    ensures
        magnitude_to_u8(e, f) == 255,
{
    lemma2_to64();
    let significand = f + HIDDEN_BIT;
    if e >= 158 {
    } else if e >= UNIT_EXPONENT {
        let p = pow2((e - UNIT_EXPONENT) as nat);
        lemma_pow2_pos((e - UNIT_EXPONENT) as nat);
        assert(significand * p >= significand) by (nonlinear_arith)
            requires
                p >= 1,
                significand >= 0,
        ;
    } else {
        let k = (UNIT_EXPONENT - e) as nat;
        let p = pow2(k) as int;
        lemma_pow2_pos(k);
        if k < 15 {
            lemma_pow2_strictly_increases(k, 15);
        }
        assert(significand / p >= 256) by (nonlinear_arith)
            requires
                0 < p <= 0x8000,
                significand >= 0x80_0000,
        ;
    }
}

/// The powers of two by which a significand is divided to give a channel
/// value between the extremes.
proof fn lemma_channel_divisors(k: nat)
    requires
        16 <= k <= 23,
    ensures
        k == 16 ==> pow2(k) == 0x1_0000,
        k == 17 ==> pow2(k) == 0x2_0000,
        k == 18 ==> pow2(k) == 0x4_0000,
        k == 19 ==> pow2(k) == 0x8_0000,
        k == 20 ==> pow2(k) == 0x10_0000,
        k == 21 ==> pow2(k) == 0x20_0000,
        k == 22 ==> pow2(k) == 0x40_0000,
        k == 23 ==> pow2(k) == 0x80_0000,
{
    lemma2_to64();
}

/// A number with the larger exponent, or the same exponent and the larger
/// fraction, has the larger channel value.
proof fn lemma_magnitude_to_u8_monotonic(e1: int, f1: int, e2: int, f2: int)
    requires
        0 <= f1 < HIDDEN_BIT,
        0 <= f2 < HIDDEN_BIT,
        e1 < e2 || (e1 == e2 && f1 <= f2),
    ensures
        magnitude_to_u8(e1, f1) <= magnitude_to_u8(e2, f2),
{
    if e1 < 127 {
    } else if e2 >= 135 {
        lemma_magnitude_to_u8_saturates(e2, f2);
    } else {
        let k1 = (UNIT_EXPONENT - e1) as nat;
        let k2 = (UNIT_EXPONENT - e2) as nat;
        lemma_channel_divisors(k1);
        lemma_channel_divisors(k2);
        let significand1 = f1 + HIDDEN_BIT;
        let significand2 = f2 + HIDDEN_BIT;
        let divisor1 = pow2(k1) as int;
        let divisor2 = pow2(k2) as int;
        if e1 == e2 {
            assert(significand1 / divisor1 <= significand2 / divisor1) by (nonlinear_arith)
                requires
                    0 <= significand1 <= significand2,
                    divisor1 > 0,
            ;
        } else {
            assert(divisor1 >= 2 * divisor2);
            assert(significand1 / divisor1 <= significand2 / divisor2) by (nonlinear_arith)
                requires
                    0x80_0000 <= significand1 < 0x100_0000,
                    0x80_0000 <= significand2 < 0x100_0000,
                    divisor1 >= 2 * divisor2,
                    divisor2 > 0,
            ;
        }
    }
}

/// Of two numbers, the larger has the larger channel value after the same
/// number of doublings.
pub proof fn lemma_to_u8_scaled_monotonic(a: Scalar, b: Scalar, doublings: int)
    requires
        a.le_spec(b),
        doublings <= 64,
    ensures
        a.to_u8_scaled_spec(doublings) <= b.to_u8_scaled_spec(doublings),
{
    let ea = a.exponent_field() + doublings;
    let eb = b.exponent_field() + doublings;
    let fa = a.fraction_field();
    let fb = b.fraction_field();
    let h = HIDDEN_BIT as int;
    assert(a.magnitude() == h * (a.magnitude() / h) + a.magnitude() % h) by (nonlinear_arith)
        requires
            h > 0,
    ;
    assert(b.magnitude() == h * (b.magnitude() / h) + b.magnitude() % h) by (nonlinear_arith)
        requires
            h > 0,
    ;
    if a.is_sign_negative_spec() {
        // A number that is not positive has the channel value 0.
        assert(a.to_u8_scaled_spec(doublings) == 0) by {
            if !(ea < 127) && !(ea >= 158) {
                if ea >= UNIT_EXPONENT {
                    lemma_pow2_pos((ea - UNIT_EXPONENT) as nat);
                    let p = pow2((ea - UNIT_EXPONENT) as nat);
                    assert((fa + h) * p >= 0) by (nonlinear_arith)
                        requires
                            fa + h >= 0,
                            p >= 0,
                    ;
                } else {
                    lemma_pow2_pos((UNIT_EXPONENT - ea) as nat);
                    let p = pow2((UNIT_EXPONENT - ea) as nat) as int;
                    assert((fa + h) / p >= 0) by (nonlinear_arith)
                        requires
                            fa + h >= 0,
                            p > 0,
                    ;
                }
            }
        }
        assert(b.to_u8_scaled_spec(doublings) >= 0);
    } else if b.is_sign_negative_spec() {
        // Then both are zeros.
        assert(a.magnitude() == 0);
        assert(fa == 0 && a.exponent_field() == 0);
        assert(b.magnitude() == 0);
        assert(fb == 0 && b.exponent_field() == 0);
        assert(a.to_u8_scaled_spec(doublings) == 0);
    } else {
        assert(a.magnitude() <= b.magnitude());
        assert(a.exponent_field() <= b.exponent_field()) by (nonlinear_arith)
            requires
                a.magnitude() <= b.magnitude(),
                a.exponent_field() == a.magnitude() / h,
                b.exponent_field() == b.magnitude() / h,
                h > 0,
        ;
        assert(a.to_u8_scaled_spec(doublings) == magnitude_to_u8(ea, fa));
        assert(b.to_u8_scaled_spec(doublings) == magnitude_to_u8(eb, fb));
        lemma_magnitude_to_u8_monotonic(ea, fa, eb, fb);
    }
}

/// Quantization is monotonic: of two intensities, the larger has the larger
/// channel value, whatever interval they are clamped to, provided its lower
/// end is not above its upper end.
pub proof fn lemma_color_to_u8_monotonic(a: Scalar, b: Scalar, interval: Interval)
    requires
        a.le_spec(b),
        interval.min.le_spec(interval.max),
    ensures
        color_to_u8_spec(a, interval) <= color_to_u8_spec(b, interval),
{
    assert(interval.clamp_spec(a).le_spec(interval.clamp_spec(b)));
    lemma_to_u8_scaled_monotonic(
        interval.clamp_spec(a),
        interval.clamp_spec(b),
        CHANNEL_DOUBLINGS as int,
    );
}

} // verus!
