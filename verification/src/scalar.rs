//! Binary32 numbers held as bit patterns.
//!
//! Sign, classification, ordering and the conversions from and to integers
//! are computed on the bits and proved against their definitions. Sums,
//! products and quotients are rounded by the `rustc_apfloat` crate, square
//! roots, sines and cosines by the `const_soft_float` crate; the result of
//! each of these operations is known to the contracts only by name.

use vstd::prelude::*;
use vstd::arithmetic::div_mod::lemma_div_denominator;
use vstd::arithmetic::power2::{lemma2_to64, lemma_pow2_strictly_increases, lemma_pow2_unfold, pow2};
use const_soft_float::soft_f32::SoftF32;
use rustc_apfloat::ieee::Single;
use rustc_apfloat::Float;
use core::cmp::Ordering;
use core::ops::Neg;

verus! {

/// Bit pattern of `+0.0`.
pub const ZERO_BITS: u32 = 0x0000_0000;

/// Bit pattern of `1.0`.
pub const ONE_BITS: u32 = 0x3f80_0000;

/// Bit pattern of `2.0`.
pub const TWO_BITS: u32 = 0x4000_0000;

/// Bit pattern of `0.5`.
pub const HALF_BITS: u32 = 0x3f00_0000;

/// Bit pattern of positive infinity.
pub const INFINITY_BITS: u32 = 0x7f80_0000;

/// Bit pattern of negative infinity.
pub const NEG_INFINITY_BITS: u32 = 0xff80_0000;

/// Bit pattern of the machine epsilon, `2^-23`.
pub const EPSILON_BITS: u32 = 0x3400_0000;

/// The sign bit of a binary32 bit pattern.
pub const SIGN_BIT: u32 = 0x8000_0000;

/// Bit pattern of the sum of the binary32 numbers with the bit patterns `a`
/// and `b`, rounded to nearest with ties to even, as `rustc_apfloat` computes
/// it.
pub uninterp spec fn ieee_add(a: u32, b: u32) -> u32;

/// Bit pattern of the product of the binary32 numbers with the bit patterns
/// `a` and `b`, rounded to nearest with ties to even, as `rustc_apfloat`
/// computes it.
pub uninterp spec fn ieee_mul(a: u32, b: u32) -> u32;

/// Bit pattern of the quotient of the binary32 number with the bit pattern
/// `a` by the one with the bit pattern `b`, rounded to nearest with ties to
/// even, as `rustc_apfloat` computes it.
pub uninterp spec fn ieee_div(a: u32, b: u32) -> u32;

/// Bit pattern of the square root of the binary32 number with the bit
/// pattern `a`, as `const_soft_float` computes it.
pub uninterp spec fn ieee_sqrt(a: u32) -> u32;

/// Bit pattern of the sine of the binary32 number with the bit pattern `a`,
/// an angle in radians, as `const_soft_float` computes it.
pub uninterp spec fn sine_bits(a: u32) -> u32;

/// Bit pattern of the cosine of the binary32 number with the bit pattern
/// `a`, an angle in radians, as `const_soft_float` computes it.
pub uninterp spec fn cosine_bits(a: u32) -> u32;

/// The `+` of `rustc_apfloat` on the two `Single` numbers that
/// `Single::from_bits` makes of the bit patterns, which rounds to nearest
/// with ties to even. The crate computes on integers only and keeps no
/// state, so the result is a function of `a` and `b`; every bit pattern is
/// a number it accepts.
#[verifier::external_body]
fn soft_add(a: u32, b: u32) -> (r: u32)
    ensures
        r == ieee_add(a, b),
{
    (Single::from_bits(a as u128) + Single::from_bits(b as u128)).value.to_bits() as u32
}

/// The `*` of `rustc_apfloat` on the two `Single` numbers that
/// `Single::from_bits` makes of the bit patterns; a function of `a` and `b`.
#[verifier::external_body]
fn soft_mul(a: u32, b: u32) -> (r: u32)
    ensures
        r == ieee_mul(a, b),
{
    (Single::from_bits(a as u128) * Single::from_bits(b as u128)).value.to_bits() as u32
}

/// The `/` of `rustc_apfloat` on the two `Single` numbers that
/// `Single::from_bits` makes of the bit patterns; a function of `a` and `b`.
/// Division by zero yields an infinity or a NaN and does not panic.
#[verifier::external_body]
fn soft_div(a: u32, b: u32) -> (r: u32)
    ensures
        r == ieee_div(a, b),
{
    (Single::from_bits(a as u128) / Single::from_bits(b as u128)).value.to_bits() as u32
}

/// `SoftF32::sqrt` of the number that `SoftF32::from_bits` makes of the bit
/// pattern. The crate computes the root digit by digit on integers, so the
/// result is a function of `a`. A negative argument yields a NaN and does
/// not panic.
#[verifier::external_body]
fn soft_sqrt(a: u32) -> (r: u32)
    ensures
        r == ieee_sqrt(a),
{
    SoftF32::from_bits(a).sqrt().to_bits()
}

/// `SoftF32::sin` of the number that `SoftF32::from_bits` makes of the bit
/// pattern; a function of `a`.
#[verifier::external_body]
fn soft_sin(a: u32) -> (r: u32)
    ensures
        r == sine_bits(a),
{
    SoftF32::from_bits(a).sin().to_bits()
}

/// `SoftF32::cos` of the number that `SoftF32::from_bits` makes of the bit
/// pattern; a function of `a`.
#[verifier::external_body]
fn soft_cos(a: u32) -> (r: u32)
    ensures
        r == cosine_bits(a),
{
    SoftF32::from_bits(a).cos().to_bits()
}

/// An IEEE 754 binary32 number, held as its bit pattern.
///
/// The derived `==` compares bit patterns; [`Scalar::same_value`] is the
/// numeric equality, under which a NaN differs from itself and the two zeros
/// are equal.
#[derive(Clone, Copy, Debug, PartialEq, Eq, Structural)]
pub struct Scalar {
    pub bits: u32,
}

impl Scalar {
    /// Whether the sign bit is set.
    pub open spec fn is_sign_negative_spec(self) -> bool {
        self.bits >= SIGN_BIT
    }

    /// The bit pattern without its sign bit, as a number.
    pub open spec fn magnitude(self) -> int {
        if self.bits >= SIGN_BIT {
            self.bits - SIGN_BIT
        } else {
            self.bits as int
        }
    }

    /// Whether the pattern encodes a NaN.
    pub open spec fn is_nan_spec(self) -> bool {
        self.magnitude() > INFINITY_BITS
    }

    /// Whether the pattern encodes an infinity.
    pub open spec fn is_infinite_spec(self) -> bool {
        self.magnitude() == INFINITY_BITS
    }

    /// Whether the pattern encodes a zero, a subnormal or a normal number.
    pub open spec fn is_finite_spec(self) -> bool {
        self.magnitude() < INFINITY_BITS
    }

    /// An integer that orders the numbers as their values do: of two
    /// patterns that are not NaN, the one with the smaller rank encodes the
    /// smaller number, and equal ranks encode equal numbers. Both zeros have
    /// rank 0.
    pub open spec fn rank(self) -> int {
        if self.bits >= SIGN_BIT {
            -self.magnitude()
        } else {
            self.magnitude()
        }
    }

    /// Position in the total order of IEEE 754: negative NaNs, negative
    /// infinity, the negative numbers, `-0`, `+0`, the positive numbers,
    /// positive infinity, positive NaNs.
    pub open spec fn total_rank(self) -> int {
        if self.bits >= SIGN_BIT {
            -self.magnitude() - 1
        } else {
            self.magnitude()
        }
    }

    /// Numeric `<`: false when either side is a NaN.
    pub open spec fn lt_spec(self, rhs: Scalar) -> bool {
        !self.is_nan_spec() && !rhs.is_nan_spec() && self.rank() < rhs.rank()
    }

    /// Numeric `<=`: false when either side is a NaN.
    pub open spec fn le_spec(self, rhs: Scalar) -> bool {
        !self.is_nan_spec() && !rhs.is_nan_spec() && self.rank() <= rhs.rank()
    }

    /// Numeric `>`: false when either side is a NaN.
    pub open spec fn gt_spec(self, rhs: Scalar) -> bool {
        rhs.lt_spec(self)
    }

    /// Numeric `>=`: false when either side is a NaN.
    pub open spec fn ge_spec(self, rhs: Scalar) -> bool {
        rhs.le_spec(self)
    }

    /// Numeric `==`: false when either side is a NaN; `-0` equals `+0`.
    pub open spec fn same_value_spec(self, rhs: Scalar) -> bool {
        !self.is_nan_spec() && !rhs.is_nan_spec() && self.rank() == rhs.rank()
    }

    /// The number with the sign bit flipped.
    pub open spec fn neg_spec(self) -> Scalar {
        if self.bits >= SIGN_BIT {
            Scalar { bits: (self.bits - SIGN_BIT) as u32 }
        } else {
            Scalar { bits: (self.bits + SIGN_BIT) as u32 }
        }
    }

    /// The rounded sum.
    pub open spec fn add_spec(self, rhs: Scalar) -> Scalar {
        Scalar { bits: ieee_add(self.bits, rhs.bits) }
    }

    /// The rounded difference: the sum with the negated right-hand side.
    pub open spec fn sub_spec(self, rhs: Scalar) -> Scalar {
        self.add_spec(rhs.neg_spec())
    }

    /// The rounded product.
    pub open spec fn mul_spec(self, rhs: Scalar) -> Scalar {
        Scalar { bits: ieee_mul(self.bits, rhs.bits) }
    }

    /// The rounded quotient.
    pub open spec fn div_spec(self, rhs: Scalar) -> Scalar {
        Scalar { bits: ieee_div(self.bits, rhs.bits) }
    }

    /// The number with the sign bit cleared.
    pub open spec fn abs_spec(self) -> Scalar {
        Scalar { bits: self.magnitude() as u32 }
    }

    /// The smaller of two numbers; a NaN gives way to the other argument,
    /// and of two equal numbers the first is taken.
    pub open spec fn min_spec(self, rhs: Scalar) -> Scalar {
        if self.is_nan_spec() {
            rhs
        } else if rhs.lt_spec(self) {
            rhs
        } else {
            self
        }
    }

    /// The larger of two numbers; a NaN gives way to the other argument,
    /// and of two equal numbers the first is taken.
    pub open spec fn max_spec(self, rhs: Scalar) -> Scalar {
        if self.is_nan_spec() {
            rhs
        } else if self.lt_spec(rhs) {
            rhs
        } else {
            self
        }
    }

    /// The rounded square root.
    pub open spec fn sqrt_spec(self) -> Scalar {
        Scalar { bits: ieee_sqrt(self.bits) }
    }

    /// The tangent, as the quotient of sine and cosine.
    pub open spec fn tan_spec(self) -> Scalar {
        Scalar { bits: ieee_div(sine_bits(self.bits), cosine_bits(self.bits)) }
    }

    pub fn from_bits(bits: u32) -> (r: Scalar)
        ensures
            r.bits == bits,
    {
        Scalar { bits }
    }

    pub fn to_bits(self) -> (r: u32)
        ensures
            r == self.bits,
    {
        self.bits
    }

    pub fn zero() -> (r: Scalar)
        ensures
            r.bits == ZERO_BITS,
    {
        Scalar { bits: ZERO_BITS }
    }

    pub fn one() -> (r: Scalar)
        ensures
            r.bits == ONE_BITS,
    {
        Scalar { bits: ONE_BITS }
    }

    pub fn infinity() -> (r: Scalar)
        ensures
            r.bits == INFINITY_BITS,
    {
        Scalar { bits: INFINITY_BITS }
    }

    pub fn neg_infinity() -> (r: Scalar)
        ensures
            r.bits == NEG_INFINITY_BITS,
    {
        Scalar { bits: NEG_INFINITY_BITS }
    }

    pub fn epsilon() -> (r: Scalar)
        ensures
            r.bits == EPSILON_BITS,
    {
        Scalar { bits: EPSILON_BITS }
    }

    pub fn is_sign_negative(self) -> (r: bool)
        ensures
            r == self.is_sign_negative_spec(),
    {
        self.bits >= SIGN_BIT
    }

    fn magnitude_bits(self) -> (r: u32)
        ensures
            r == self.magnitude(),
    {
        if self.bits >= SIGN_BIT {
            self.bits - SIGN_BIT
        } else {
            self.bits
        }
    }

    pub fn is_nan(self) -> (r: bool)
        ensures
            r == self.is_nan_spec(),
    {
        self.magnitude_bits() > INFINITY_BITS
    }

    pub fn is_infinite(self) -> (r: bool)
        ensures
            r == self.is_infinite_spec(),
    {
        self.magnitude_bits() == INFINITY_BITS
    }

    pub fn is_finite(self) -> (r: bool)
        ensures
            r == self.is_finite_spec(),
    {
        self.magnitude_bits() < INFINITY_BITS
    }

    fn rank_value(self) -> (r: i64)
        ensures
            r == self.rank(),
    {
        let m: i64 = self.magnitude_bits() as i64;
        if self.bits >= SIGN_BIT {
            -m
        } else {
            m
        }
    }

    fn total_rank_value(self) -> (r: i64)
        ensures
            r == self.total_rank(),
    {
        let m: i64 = self.magnitude_bits() as i64;
        if self.bits >= SIGN_BIT {
            -m - 1
        } else {
            m
        }
    }

    pub fn lt(self, rhs: Scalar) -> (r: bool)
        ensures
            r == self.lt_spec(rhs),
    {
        !self.is_nan() && !rhs.is_nan() && self.rank_value() < rhs.rank_value()
    }

    pub fn le(self, rhs: Scalar) -> (r: bool)
        ensures
            r == self.le_spec(rhs),
    {
        !self.is_nan() && !rhs.is_nan() && self.rank_value() <= rhs.rank_value()
    }

    pub fn gt(self, rhs: Scalar) -> (r: bool)
        ensures
            r == self.gt_spec(rhs),
    {
        rhs.lt(self)
    }

    pub fn ge(self, rhs: Scalar) -> (r: bool)
        ensures
            r == self.ge_spec(rhs),
    {
        rhs.le(self)
    }

    pub fn same_value(self, rhs: Scalar) -> (r: bool)
        ensures
            r == self.same_value_spec(rhs),
    {
        !self.is_nan() && !rhs.is_nan() && self.rank_value() == rhs.rank_value()
    }

    /// Whether the number comes before `rhs` in the total order of IEEE 754.
    pub fn total_lt(self, rhs: Scalar) -> (r: bool)
        ensures
            r == (self.total_rank() < rhs.total_rank()),
    {
        self.total_rank_value() < rhs.total_rank_value()
    }

    /// The total order of IEEE 754 on the two bit patterns.
    pub fn total_cmp(self, rhs: Scalar) -> (r: Ordering)
        ensures
            r is Less <==> self.total_rank() < rhs.total_rank(),
            r is Equal <==> self.total_rank() == rhs.total_rank(),
            r is Greater <==> self.total_rank() > rhs.total_rank(),
    {
        let a: i64 = self.total_rank_value();
        let b: i64 = rhs.total_rank_value();
        if a < b {
            Ordering::Less
        } else if a == b {
            Ordering::Equal
        } else {
            Ordering::Greater
        }
    }

    pub fn abs(self) -> (r: Scalar)
        ensures
            r == self.abs_spec(),
    {
        Scalar { bits: self.magnitude_bits() }
    }

    pub fn min(self, rhs: Scalar) -> (r: Scalar)
        ensures
            r == self.min_spec(rhs),
    {
        if self.is_nan() {
            rhs
        } else if rhs.lt(self) {
            rhs
        } else {
            self
        }
    }

    pub fn max(self, rhs: Scalar) -> (r: Scalar)
        ensures
            r == self.max_spec(rhs),
    {
        if self.is_nan() {
            rhs
        } else if self.lt(rhs) {
            rhs
        } else {
            self
        }
    }

    pub fn sqrt(self) -> (r: Scalar)
        ensures
            r == self.sqrt_spec(),
    {
        Scalar { bits: soft_sqrt(self.bits) }
    }

    pub fn tan(self) -> (r: Scalar)
        ensures
            r == self.tan_spec(),
    {
        Scalar { bits: soft_div(soft_sin(self.bits), soft_cos(self.bits)) }
    }
}

impl core::ops::Neg for Scalar {
    type Output = Scalar;

    fn neg(self) -> (r: Scalar) {
        if self.bits >= SIGN_BIT {
            Scalar { bits: self.bits - SIGN_BIT }
        } else {
            Scalar { bits: self.bits + SIGN_BIT }
        }
    }
}

impl vstd::std_specs::ops::NegSpecImpl for Scalar {
    open spec fn obeys_neg_spec() -> bool {
        true
    }

    open spec fn neg_req(self) -> bool {
        true
    }

    open spec fn neg_spec(self) -> Scalar {
        Scalar::neg_spec(self)
    }
}

impl core::ops::Add for Scalar {
    type Output = Scalar;

    fn add(self, rhs: Scalar) -> (r: Scalar) {
        Scalar { bits: soft_add(self.bits, rhs.bits) }
    }
}

impl vstd::std_specs::ops::AddSpecImpl for Scalar {
    open spec fn obeys_add_spec() -> bool {
        true
    }

    open spec fn add_req(self, rhs: Scalar) -> bool {
        true
    }

    open spec fn add_spec(self, rhs: Scalar) -> Scalar {
        Scalar::add_spec(self, rhs)
    }
}

impl core::ops::Sub for Scalar {
    type Output = Scalar;

    fn sub(self, rhs: Scalar) -> (r: Scalar) {
        self + rhs.neg()
    }
}

impl vstd::std_specs::ops::SubSpecImpl for Scalar {
    open spec fn obeys_sub_spec() -> bool {
        true
    }

    open spec fn sub_req(self, rhs: Scalar) -> bool {
        true
    }

    open spec fn sub_spec(self, rhs: Scalar) -> Scalar {
        Scalar::sub_spec(self, rhs)
    }
}

impl core::ops::Mul for Scalar {
    type Output = Scalar;

    fn mul(self, rhs: Scalar) -> (r: Scalar) {
        Scalar { bits: soft_mul(self.bits, rhs.bits) }
    }
}

impl vstd::std_specs::ops::MulSpecImpl for Scalar {
    open spec fn obeys_mul_spec() -> bool {
        true
    }

    open spec fn mul_req(self, rhs: Scalar) -> bool {
        true
    }

    open spec fn mul_spec(self, rhs: Scalar) -> Scalar {
        Scalar::mul_spec(self, rhs)
    }
}

impl core::ops::Div for Scalar {
    type Output = Scalar;

    fn div(self, rhs: Scalar) -> (r: Scalar) {
        Scalar { bits: soft_div(self.bits, rhs.bits) }
    }
}

impl vstd::std_specs::ops::DivSpecImpl for Scalar {
    open spec fn obeys_div_spec() -> bool {
        true
    }

    open spec fn div_req(self, rhs: Scalar) -> bool {
        true
    }

    open spec fn div_spec(self, rhs: Scalar) -> Scalar {
        Scalar::div_spec(self, rhs)
    }
}

/// Weight of the hidden bit of a significand, `2^23`.
pub const HIDDEN_BIT: u32 = 0x0080_0000;

/// Biased exponent of the numbers in `[2^23, 2^24)`, whose significand is
/// their value.
pub const UNIT_EXPONENT: u32 = 150;

/// Magnitude bits of `m * 2^(e - 150)` for a significand `0 < m < 2^24`:
/// the significand is doubled, and the exponent lowered, until the hidden bit
/// is set.
pub open spec fn encode_scaled(m: int, e: int) -> int
    decreases e,
{
    if m <= 0 || m >= HIDDEN_BIT || e <= 0 {
        e * HIDDEN_BIT + (m - HIDDEN_BIT)
    } else {
        encode_scaled(2 * m, e - 1)
    }
}

/// The quotient `m / d` rounded to the nearest integer, a tie going to the
/// even one.
pub open spec fn round_half_even(m: int, d: int) -> int {
    let q = m / d;
    let r = m % d;
    if 2 * r > d || (2 * r == d && q % 2 == 1) {
        q + 1
    } else {
        q
    }
}

/// Magnitude bits of `m` rounded to 24 significant bits, where `d` is
/// `2^(e - 150)`: the divisor is doubled, and the exponent raised, until the
/// quotient fits 24 bits.
pub open spec fn encode_rounded(m: int, d: int, e: int) -> int
    decreases 255 - e,
{
    if m / d < 2 * HIDDEN_BIT || e >= 255 {
        e * HIDDEN_BIT + (round_half_even(m, d) - HIDDEN_BIT)
    } else {
        encode_rounded(m, 2 * d, e + 1)
    }
}

impl Scalar {
    /// The biased exponent field.
    pub open spec fn exponent_field(self) -> int {
        self.magnitude() / (HIDDEN_BIT as int)
    }

    /// The fraction field.
    pub open spec fn fraction_field(self) -> int {
        self.magnitude() % (HIDDEN_BIT as int)
    }

    /// The binary32 number nearest to the integer `n`, a tie going to the
    /// even significand. Integers of magnitude below `2^24` are encoded
    /// exactly.
    pub open spec fn from_int_spec(n: int) -> Scalar {
        if n == 0 {
            Scalar { bits: ZERO_BITS }
        } else if n > 0 {
            if n < 2 * HIDDEN_BIT {
                Scalar { bits: encode_scaled(n, UNIT_EXPONENT as int) as u32 }
            } else {
                Scalar { bits: encode_rounded(n, 1, UNIT_EXPONENT as int) as u32 }
            }
        } else {
            if -n < 2 * HIDDEN_BIT {
                Scalar { bits: (SIGN_BIT + encode_scaled(-n, UNIT_EXPONENT as int)) as u32 }
            } else {
                Scalar { bits: (SIGN_BIT + encode_rounded(-n, 1, UNIT_EXPONENT as int)) as u32 }
            }
        }
    }

    /// The number times `2^doublings` with its fraction cut off, as an
    /// integer; a NaN gives 0, and a product beyond the range of `i32` gives
    /// the nearest bound. With more than 126 doublings the formula would
    /// take a subnormal number for a normal one.
    pub open spec fn trunc_scaled_spec(self, doublings: int) -> int
        recommends
            0 <= doublings <= 126,
    {
        let e = self.exponent_field() + doublings;
        let significand = self.fraction_field() + HIDDEN_BIT;
        if self.is_nan_spec() || e < 127 {
            0
        } else if e >= 158 {
            if self.is_sign_negative_spec() {
                i32::MIN as int
            } else {
                i32::MAX as int
            }
        } else {
            let whole = if e >= UNIT_EXPONENT {
                significand * pow2((e - UNIT_EXPONENT) as nat)
            } else {
                significand / (pow2((UNIT_EXPONENT - e) as nat) as int)
            };
            if self.is_sign_negative_spec() {
                -whole
            } else {
                whole
            }
        }
    }

    /// The number with its fraction cut off, as an integer; a NaN gives 0,
    /// and a number beyond the range of `i32` gives the nearest bound.
    pub open spec fn trunc_spec(self) -> int {
        self.trunc_scaled_spec(0)
    }

    /// The number times `2^doublings`, truncated and restricted to
    /// `0 ..= 255`.
    pub open spec fn to_u8_scaled_spec(self, doublings: int) -> int
        recommends
            0 <= doublings <= 126,
    {
        let whole = self.trunc_scaled_spec(doublings);
        if whole < 0 {
            0
        } else if whole > 255 {
            255
        } else {
            whole
        }
    }

    /// The truncated number restricted to `0 ..= 255`.
    pub open spec fn to_u8_spec(self) -> int {
        self.to_u8_scaled_spec(0)
    }

    fn encode_magnitude(m: u32) -> (r: u32)
        requires
            m > 0,
        ensures
            m < 2 * HIDDEN_BIT ==> r == encode_scaled(m as int, UNIT_EXPONENT as int),
            m >= 2 * HIDDEN_BIT ==> r == encode_rounded(m as int, 1, UNIT_EXPONENT as int),
            r < SIGN_BIT,
    {
        proof {
            lemma2_to64();
        }
        if m < 2 * HIDDEN_BIT {
            let mut k: u32 = m;
            let mut e: u32 = UNIT_EXPONENT;
            while k < HIDDEN_BIT
                invariant
                    m > 0,
                    0 < k < 2 * HIDDEN_BIT,
                    127 <= e <= UNIT_EXPONENT,
                    k * pow2((e - 127) as nat) == m * pow2(23),
                    pow2(0) == 1,
                    pow2(23) == HIDDEN_BIT,
                    encode_scaled(m as int, UNIT_EXPONENT as int) == encode_scaled(
                        k as int,
                        e as int,
                    ),
                decreases e,
            {
                proof {
                    if e == 127 {
                        assert(m * pow2(23) >= pow2(23)) by (nonlinear_arith)
                            requires
                                m >= 1,
                        ;
                        assert(k * pow2(0) == k) by (nonlinear_arith)
                            requires
                                pow2(0) == 1,
                        ;
                        assert(false);
                    }
                    lemma_pow2_unfold((e - 127) as nat);
                    assert((2 * k) * pow2((e - 128) as nat) == k * (2 * pow2((e - 128) as nat)))
                        by (nonlinear_arith);
                }
                k = k * 2;
                e = e - 1;
            }
            e * HIDDEN_BIT + (k - HIDDEN_BIT)
        } else {
            let mut d: u32 = 1;
            let mut e: u32 = UNIT_EXPONENT;
            while m / d >= 2 * HIDDEN_BIT
                invariant
                    UNIT_EXPONENT <= e <= 158,
                    d == pow2((e - UNIT_EXPONENT) as nat),
                    0 < d <= 256,
                    m >= 2 * HIDDEN_BIT,
                    d > 1 ==> m / ((d / 2) as u32) >= 2 * HIDDEN_BIT,
                    pow2(8) == 256,
                    encode_rounded(m as int, 1, UNIT_EXPONENT as int) == encode_rounded(
                        m as int,
                        d as int,
                        e as int,
                    ),
                decreases 158 - e,
            {
                proof {
                    if e == 158 {
                        assert(m / 256 < 2 * HIDDEN_BIT);
                        assert(false);
                    }
                    lemma_pow2_unfold((e + 1 - UNIT_EXPONENT) as nat);
                    if e + 1 < 158 {
                        lemma_pow2_strictly_increases((e + 1 - UNIT_EXPONENT) as nat, 8);
                    }
                }
                d = d * 2;
                e = e + 1;
            }
            let q: u32 = m / d;
            let r: u32 = m % d;
            let up: bool = 2 * r > d || (2 * r == d && q % 2 == 1);
            let rounded: u32 = if up {
                q + 1
            } else {
                q
            };
            assert(q >= HIDDEN_BIT) by {
                lemma_div_denominator(m as int, (d / 2) as int, 2);
            }
            e * HIDDEN_BIT + (rounded - HIDDEN_BIT)
        }
    }

    /// The binary32 number nearest to `n`.
    pub fn from_i32(n: i32) -> (r: Scalar)
        ensures
            r == Self::from_int_spec(n as int),
    {
        if n == 0 {
            Scalar { bits: ZERO_BITS }
        } else if n > 0 {
            Scalar { bits: Self::encode_magnitude(n as u32) }
        } else {
            let m: u32 = (-(n as i64)) as u32;
            Scalar { bits: SIGN_BIT + Self::encode_magnitude(m) }
        }
    }

    /// The number times `2^doublings`, truncated toward zero and saturated
    /// to the range of `i32`.
    pub fn to_i32_scaled(self, doublings: u32) -> (r: i32)
        requires
            doublings <= 64,
        ensures
            r == self.trunc_scaled_spec(doublings as int),
    {
        let m: u32 = self.magnitude_bits();
        let e: u32 = m / HIDDEN_BIT + doublings;
        let negative: bool = self.bits >= SIGN_BIT;
        if m > INFINITY_BITS || e < 127 {
            0
        } else if e >= 158 {
            if negative {
                i32::MIN
            } else {
                i32::MAX
            }
        } else {
            let significand: u64 = (m % HIDDEN_BIT + HIDDEN_BIT) as u64;
            let mut whole: u64 = significand;
            let mut k: u32 = UNIT_EXPONENT;
            if e >= UNIT_EXPONENT {
                proof {
                    lemma2_to64();
                }
                while k < e
                    invariant
                        UNIT_EXPONENT <= k <= e < 158,
                        HIDDEN_BIT <= significand < 2 * HIDDEN_BIT,
                        whole == significand * pow2((k - UNIT_EXPONENT) as nat),
                        pow2((k - UNIT_EXPONENT) as nat) <= pow2(7),
                        pow2(7) == 128,
                    decreases e - k,
                {
                    proof {
                        lemma_pow2_unfold((k + 1 - UNIT_EXPONENT) as nat);
                        if k + 1 < 157 {
                            lemma_pow2_strictly_increases((k + 1 - UNIT_EXPONENT) as nat, 7);
                        }
                        assert(significand * (2 * pow2((k - UNIT_EXPONENT) as nat)) == 2 * (
                        significand * pow2((k - UNIT_EXPONENT) as nat))) by (nonlinear_arith);
                        assert(significand * pow2((k - UNIT_EXPONENT) as nat) <= significand * 128)
                            by (nonlinear_arith)
                            requires
                                pow2((k - UNIT_EXPONENT) as nat) <= 128,
                        ;
                    }
                    whole = whole * 2;
                    k = k + 1;
                }
            } else {
                proof {
                    lemma2_to64();
                }
                while k > e
                    invariant
                        127 <= e <= k <= UNIT_EXPONENT,
                        HIDDEN_BIT <= significand < 2 * HIDDEN_BIT,
                        whole as int == (significand as int) / (pow2(
                            (UNIT_EXPONENT - k) as nat,
                        ) as int),
                        pow2((UNIT_EXPONENT - k) as nat) > 0,
                    decreases k - e,
                {
                    proof {
                        let p = pow2((UNIT_EXPONENT - k) as nat) as int;
                        lemma_pow2_unfold((UNIT_EXPONENT - k + 1) as nat);
                        lemma_div_denominator(significand as int, p, 2);
                        assert(p * 2 == 2 * p);
                    }
                    whole = whole / 2;
                    k = k - 1;
                }
            }
            assert(whole < 0x8000_0000) by (nonlinear_arith)
                requires
                    e >= UNIT_EXPONENT ==> whole == significand * pow2((e - UNIT_EXPONENT) as nat)
                        && pow2((e - UNIT_EXPONENT) as nat) <= 128,
                    e < UNIT_EXPONENT ==> whole as int == (significand as int) / (pow2(
                        (UNIT_EXPONENT - e) as nat,
                    ) as int) && pow2((UNIT_EXPONENT - e) as nat) > 0,
                    significand < 0x100_0000,
            ;
            if negative {
                -(whole as i32)
            } else {
                whole as i32
            }
        }
    }

    /// The number truncated toward zero and saturated to the range of `i32`.
    pub fn to_i32(self) -> (r: i32)
        ensures
            r == self.trunc_spec(),
    {
        self.to_i32_scaled(0)
    }

    /// The number times `2^doublings`, truncated toward zero and saturated
    /// to `0 ..= 255`.
    pub fn to_u8_scaled(self, doublings: u32) -> (r: u8)
        requires
            doublings <= 64,
        ensures
            r == self.to_u8_scaled_spec(doublings as int),
    {
        let whole: i32 = self.to_i32_scaled(doublings);
        if whole < 0 {
            0
        } else if whole > 255 {
            255
        } else {
            whole as u8
        }
    }

    /// The number truncated toward zero and saturated to `0 ..= 255`.
    pub fn to_u8(self) -> (r: u8)
        ensures
            r == self.to_u8_spec(),
    {
        self.to_u8_scaled(0)
    }
}

impl Default for Scalar {
    fn default() -> (r: Scalar)
        ensures
            r.bits == ZERO_BITS,
    {
        Scalar { bits: ZERO_BITS }
    }
}

} // verus!
