//! Angles and random numbers.

use vstd::prelude::*;
use vstd::std_specs::ops::{AddSpec, DivSpec, MulSpec, SubSpec};
use rand::rngs::StdRng;
use rand::{Rng, RngCore};
use crate::scalar::{Scalar, ONE_BITS, ZERO_BITS};

verus! {

/// Bit pattern of the binary32 number nearest to pi.
pub const PI_BITS: u32 = 0x4049_0fdb;

/// Bit pattern of `180.0`.
pub const HALF_TURN_BITS: u32 = 0x4334_0000;

/// Bit pattern of `2^-24`, the distance between neighbouring samples of the
/// unit interval.
pub const SAMPLE_STEP_BITS: u32 = 0x3380_0000;

/// The seedable generator of the `rand` crate. Its state is opaque here.
#[verifier::external_type_specification]
#[verifier::external_body]
pub struct ExStdRng(StdRng);

/// `RngCore::next_u32` on the generator: its next 32 bits. Nothing is
/// promised of them.
#[verifier::external_body]
fn next_bits(rng: &mut StdRng) -> (r: u32) {
    rng.next_u32()
}

/// `Rng::gen_range` on the inclusive range `min ..= max`: some integer of the
/// range. The call panics on an empty range, which the precondition leaves
/// out.
#[verifier::external_body]
pub(crate) fn random_integer(min: i32, max: i32, rng: &mut StdRng) -> (r: i32)
    requires
        min <= max,
    ensures
        min <= r <= max,
{
    rng.gen_range(min..=max)
}

/// The angle in radians: `degrees * pi / 180`.
pub open spec fn degrees_to_radians_spec(degrees: Scalar) -> Scalar {
    degrees.mul_spec(Scalar { bits: PI_BITS }).div_spec(Scalar { bits: HALF_TURN_BITS })
}

pub fn degrees_to_radians(degrees: Scalar) -> (r: Scalar)
    ensures
        r == degrees_to_radians_spec(degrees),
{
    degrees * Scalar::from_bits(PI_BITS) / Scalar::from_bits(HALF_TURN_BITS)
}

/// The sample of the unit interval that 32 random bits select: their upper
/// 24 bits as an integer, times `2^-24`.
pub open spec fn unit_sample_spec(bits: u32) -> Scalar {
    Scalar::from_int_spec(bits as int / 256).mul_spec(Scalar { bits: SAMPLE_STEP_BITS })
}

/// The sample of `[low, high)` that 32 random bits select:
/// `low + (high - low) * u` for the unit sample `u`.
pub open spec fn uniform_spec(low: Scalar, high: Scalar, bits: u32) -> Scalar {
    low.add_spec(high.sub_spec(low).mul_spec(unit_sample_spec(bits)))
}

/// The lower bound of a range that may leave it out: 0 by default.
pub open spec fn low_or_default(min: Option<Scalar>) -> Scalar {
    match min {
        Some(low) => low,
        None => Scalar { bits: ZERO_BITS },
    }
}

/// The upper bound of a range that may leave it out: 1 by default.
pub open spec fn high_or_default(max: Option<Scalar>) -> Scalar {
    match max {
        Some(high) => high,
        None => Scalar { bits: ONE_BITS },
    }
}

/// Maps 32 random bits to a number of the unit interval.
pub fn unit_sample(bits: u32) -> (r: Scalar)
    ensures
        r == unit_sample_spec(bits),
{
    let upper: i32 = (bits / 256) as i32;
    Scalar::from_i32(upper) * Scalar::from_bits(SAMPLE_STEP_BITS)
}

/// Maps 32 random bits to a number of `[low, high)`.
pub fn uniform(low: Scalar, high: Scalar, bits: u32) -> (r: Scalar)
    ensures
        r == uniform_spec(low, high, bits),
{
    low + (high - low) * unit_sample(bits)
}

/// A random number of `[min, max)`, where a bound left out is 0 below and 1
/// above: the sample that the generator's next 32 bits select.
pub fn random_double(min: Option<Scalar>, max: Option<Scalar>, rng: &mut StdRng) -> (r: Scalar)
    ensures
        exists|bits: u32| r == uniform_spec(low_or_default(min), high_or_default(max), bits),
{
    let low = match min {
        Some(low) => low,
        None => Scalar::zero(),
    };
    let high = match max {
        Some(high) => high,
        None => Scalar::one(),
    };
    let bits = next_bits(rng);
    let r = uniform(low, high, bits);
    assert(r == uniform_spec(low_or_default(min), high_or_default(max), bits));
    r
}

} // verus!
