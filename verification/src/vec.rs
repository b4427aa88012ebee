//! Three-component vectors, used as points, directions and colors.

use vstd::prelude::*;
use core::ops::Neg;
use rand::rngs::StdRng;
use crate::axis::{Axis, AxisIndex};
use crate::scalar::{Scalar, EPSILON_BITS, ONE_BITS, TWO_BITS, ZERO_BITS};
use crate::util::{high_or_default, low_or_default, random_double, uniform_spec};

verus! {

/// Bit pattern of `-1.0`.
pub const MINUS_ONE_BITS: u32 = 0xbf80_0000;

/// A vector of three binary32 components.
#[derive(Clone, Copy, Debug, PartialEq, Eq, Structural)]
pub struct Vec3 {
    pub x: Scalar,
    pub y: Scalar,
    pub z: Scalar,
}

/// A vector read as a position.
pub type Point3 = Vec3;

/// A pair of extents, one across and one down.
#[derive(Debug)]
pub struct Vec2<T> {
    pub width: T,
    pub height: T,
}

impl Default for Vec3 {
    fn default() -> (r: Vec3)
        ensures
            r == Vec3::zero_spec(),
    {
        Vec3 { x: Scalar::zero(), y: Scalar::zero(), z: Scalar::zero() }
    }
}

impl core::ops::Neg for Vec3 {
    type Output = Vec3;

    fn neg(self) -> (r: Vec3) {
        Vec3 { x: self.x.neg(), y: self.y.neg(), z: self.z.neg() }
    }
}

impl vstd::std_specs::ops::NegSpecImpl for Vec3 {
    open spec fn obeys_neg_spec() -> bool {
        true
    }

    open spec fn neg_req(self) -> bool {
        true
    }

    open spec fn neg_spec(self) -> Vec3 {
        Vec3::neg_spec(self)
    }
}

impl core::ops::Add for Vec3 {
    type Output = Vec3;

    fn add(self, rhs: Vec3) -> (r: Vec3) {
        Vec3 { x: self.x + rhs.x, y: self.y + rhs.y, z: self.z + rhs.z }
    }
}

impl vstd::std_specs::ops::AddSpecImpl for Vec3 {
    open spec fn obeys_add_spec() -> bool {
        true
    }

    open spec fn add_req(self, rhs: Vec3) -> bool {
        true
    }

    open spec fn add_spec(self, rhs: Vec3) -> Vec3 {
        Vec3::add_spec(self, rhs)
    }
}

impl core::ops::Sub for Vec3 {
    type Output = Vec3;

    fn sub(self, rhs: Vec3) -> (r: Vec3) {
        Vec3 { x: self.x - rhs.x, y: self.y - rhs.y, z: self.z - rhs.z }
    }
}

impl vstd::std_specs::ops::SubSpecImpl for Vec3 {
    open spec fn obeys_sub_spec() -> bool {
        true
    }

    open spec fn sub_req(self, rhs: Vec3) -> bool {
        true
    }

    open spec fn sub_spec(self, rhs: Vec3) -> Vec3 {
        Vec3::sub_spec(self, rhs)
    }
}

impl core::ops::Mul for Vec3 {
    type Output = Vec3;

    fn mul(self, rhs: Vec3) -> (r: Vec3) {
        Vec3 { x: self.x * rhs.x, y: self.y * rhs.y, z: self.z * rhs.z }
    }
}

impl vstd::std_specs::ops::MulSpecImpl for Vec3 {
    open spec fn obeys_mul_spec() -> bool {
        true
    }

    open spec fn mul_req(self, rhs: Vec3) -> bool {
        true
    }

    open spec fn mul_spec(self, rhs: Vec3) -> Vec3 {
        Vec3::mul_spec(self, rhs)
    }
}

impl core::ops::Mul<Scalar> for Vec3 {
    type Output = Vec3;

    fn mul(self, rhs: Scalar) -> (r: Vec3) {
        Vec3 { x: self.x * rhs, y: self.y * rhs, z: self.z * rhs }
    }
}

impl vstd::std_specs::ops::MulSpecImpl<Scalar> for Vec3 {
    open spec fn obeys_mul_spec() -> bool {
        true
    }

    open spec fn mul_req(self, rhs: Scalar) -> bool {
        true
    }

    open spec fn mul_spec(self, rhs: Scalar) -> Vec3 {
        Vec3::scale_spec(self, rhs)
    }
}

impl core::ops::Mul<Vec3> for Scalar {
    type Output = Vec3;

    fn mul(self, rhs: Vec3) -> (r: Vec3) {
        Vec3 { x: rhs.x * self, y: rhs.y * self, z: rhs.z * self }
    }
}

impl vstd::std_specs::ops::MulSpecImpl<Vec3> for Scalar {
    open spec fn obeys_mul_spec() -> bool {
        true
    }

    open spec fn mul_req(self, rhs: Vec3) -> bool {
        true
    }

    open spec fn mul_spec(self, rhs: Vec3) -> Vec3 {
        Vec3::scale_spec(rhs, self)
    }
}

impl core::ops::Div<Scalar> for Vec3 {
    type Output = Vec3;

    fn div(self, rhs: Scalar) -> (r: Vec3) {
        let inverse = Scalar::one() / rhs;
        Vec3 { x: self.x * inverse, y: self.y * inverse, z: self.z * inverse }
    }
}

impl vstd::std_specs::ops::DivSpecImpl<Scalar> for Vec3 {
    open spec fn obeys_div_spec() -> bool {
        true
    }

    open spec fn div_req(self, rhs: Scalar) -> bool {
        true
    }

    open spec fn div_spec(self, rhs: Scalar) -> Vec3 {
        Vec3::div_spec(self, rhs)
    }
}

impl AxisIndex<Scalar> for Vec3 {
    open spec fn axis_spec(&self, axis: Axis) -> Scalar {
        match axis {
            Axis::X => self.x,
            Axis::Y => self.y,
            Axis::Z => self.z,
        }
    }

    fn axis(&self, axis: &Axis) -> (r: Scalar) {
        match axis {
            Axis::X => self.x,
            Axis::Y => self.y,
            Axis::Z => self.z,
        }
    }
}

impl Vec3 {
    /// The vector of the negated components.
    pub open spec fn neg_spec(self) -> Vec3 {
        Vec3 { x: self.x.neg_spec(), y: self.y.neg_spec(), z: self.z.neg_spec() }
    }

    /// The component-wise sum.
    pub open spec fn add_spec(self, rhs: Vec3) -> Vec3 {
        Vec3 {
            x: self.x.add_spec(rhs.x),
            y: self.y.add_spec(rhs.y),
            z: self.z.add_spec(rhs.z),
        }
    }

    /// The component-wise difference.
    pub open spec fn sub_spec(self, rhs: Vec3) -> Vec3 {
        Vec3 {
            x: self.x.sub_spec(rhs.x),
            y: self.y.sub_spec(rhs.y),
            z: self.z.sub_spec(rhs.z),
        }
    }

    /// The component-wise product.
    pub open spec fn mul_spec(self, rhs: Vec3) -> Vec3 {
        Vec3 {
            x: self.x.mul_spec(rhs.x),
            y: self.y.mul_spec(rhs.y),
            z: self.z.mul_spec(rhs.z),
        }
    }

    /// Each component times the number.
    pub open spec fn scale_spec(self, rhs: Scalar) -> Vec3 {
        Vec3 { x: self.x.mul_spec(rhs), y: self.y.mul_spec(rhs), z: self.z.mul_spec(rhs) }
    }

    /// Each component times the reciprocal of the number.
    pub open spec fn div_spec(self, rhs: Scalar) -> Vec3 {
        self.scale_spec(Scalar { bits: ONE_BITS }.div_spec(rhs))
    }

    /// The vector of three zeros.
    pub open spec fn zero_spec() -> Vec3 {
        Vec3 {
            x: Scalar { bits: ZERO_BITS },
            y: Scalar { bits: ZERO_BITS },
            z: Scalar { bits: ZERO_BITS },
        }
    }

    /// The sum of the squared components, added from x to z.
    pub open spec fn length_squared_spec(self) -> Scalar {
        self.x.mul_spec(self.x).add_spec(self.y.mul_spec(self.y)).add_spec(self.z.mul_spec(self.z))
    }

    /// The square root of the squared length.
    pub open spec fn length_spec(self) -> Scalar {
        self.length_squared_spec().sqrt_spec()
    }

    /// The sum of the products of the components, added from x to z.
    pub open spec fn dot_spec(self, rhs: Vec3) -> Scalar {
        self.x.mul_spec(rhs.x).add_spec(self.y.mul_spec(rhs.y)).add_spec(self.z.mul_spec(rhs.z))
    }

    /// The cross product.
    pub open spec fn cross_spec(self, rhs: Vec3) -> Vec3 {
        Vec3 {
            x: self.y.mul_spec(rhs.z).sub_spec(self.z.mul_spec(rhs.y)),
            y: self.z.mul_spec(rhs.x).sub_spec(self.x.mul_spec(rhs.z)),
            z: self.x.mul_spec(rhs.y).sub_spec(self.y.mul_spec(rhs.x)),
        }
    }

    /// The vector divided by its length.
    pub open spec fn unit_vector_spec(self) -> Vec3 {
        self.div_spec(self.length_spec())
    }

    /// Whether every component is smaller in magnitude than the machine
    /// epsilon.
    pub open spec fn near_zero_spec(self) -> bool {
        let s = Scalar { bits: EPSILON_BITS };
        self.x.abs_spec().lt_spec(s) && self.y.abs_spec().lt_spec(s) && self.z.abs_spec().lt_spec(s)
    }

    /// The vector whose components are the samples of `[low, high)` that
    /// three draws of 32 random bits select.
    pub open spec fn sample_spec(low: Scalar, high: Scalar, a: u32, b: u32, c: u32) -> Vec3 {
        Vec3 {
            x: uniform_spec(low, high, a),
            y: uniform_spec(low, high, b),
            z: uniform_spec(low, high, c),
        }
    }

    pub fn new(x: Scalar, y: Scalar, z: Scalar) -> (r: Vec3)
        ensures
            r == (Vec3 { x, y, z }),
    {
        Vec3 { x, y, z }
    }

    pub fn zero() -> (r: Vec3)
        ensures
            r == Vec3::zero_spec(),
    {
        Vec3 { x: Scalar::zero(), y: Scalar::zero(), z: Scalar::zero() }
    }

    pub fn length_squared(&self) -> (r: Scalar)
        ensures
            r == self.length_squared_spec(),
    {
        self.x * self.x + self.y * self.y + self.z * self.z
    }

    pub fn length(&self) -> (r: Scalar)
        ensures
            r == self.length_spec(),
    {
        self.length_squared().sqrt()
    }

    pub fn dot(&self, rhs: &Vec3) -> (r: Scalar)
        ensures
            r == self.dot_spec(*rhs),
    {
        self.x * rhs.x + self.y * rhs.y + self.z * rhs.z
    }

    pub fn cross(&self, rhs: &Vec3) -> (r: Vec3)
        ensures
            r == self.cross_spec(*rhs),
    {
        Vec3 {
            x: self.y * rhs.z - self.z * rhs.y,
            y: self.z * rhs.x - self.x * rhs.z,
            z: self.x * rhs.y - self.y * rhs.x,
        }
    }

    pub fn unit_vector(&self) -> (r: Vec3)
        ensures
            r == self.unit_vector_spec(),
    {
        *self / self.length()
    }

    /// A vector whose components are three random numbers of `[min, max)`,
    /// where a bound left out is 0 below and 1 above.
    pub fn random(min: Option<Scalar>, max: Option<Scalar>, rng: &mut StdRng) -> (r: Vec3)
        ensures
            exists|a: u32, b: u32, c: u32|
                r == Vec3::sample_spec(low_or_default(min), high_or_default(max), a, b, c),
    {
        let x = random_double(min, max, rng);
        let y = random_double(min, max, rng);
        let z = random_double(min, max, rng);
        proof {
            let low = low_or_default(min);
            let high = high_or_default(max);
            let a = choose|a: u32| x == uniform_spec(low, high, a);
            let b = choose|b: u32| y == uniform_spec(low, high, b);
            let c = choose|c: u32| z == uniform_spec(low, high, c);
            assert(Vec3 { x, y, z } == Vec3::sample_spec(low, high, a, b, c));
        }
        Vec3 { x, y, z }
    }

    pub fn near_zero(&self) -> (r: bool)
        ensures
            r == self.near_zero_spec(),
    {
        let s = Scalar::epsilon();
        self.x.abs().lt(s) && self.y.abs().lt(s) && self.z.abs().lt(s)
    }
}

/// Whether the point is what drawing a point inside the unit sphere can
/// yield: the first of a run of points of the cube `[-1, 1)^3` that lies
/// inside the sphere, or the zero vector after `u64::MAX` points outside it.
pub open spec fn drawn_in_unit_sphere(p: Vec3) -> bool {
    exists|draws: Seq<Vec3>| #[trigger] first_inside(draws, p) && cube_draws(draws)
}

/// Whether the direction is what drawing a random direction can yield: a
/// point drawn inside the unit sphere, divided by its length.
pub open spec fn direction_drawn(v: Vec3) -> bool {
    exists|p: Vec3| drawn_in_unit_sphere(p) && v == #[trigger] p.unit_vector_spec()
}

/// The vector itself where it points to the side of `normal`, else its
/// negation.
pub open spec fn facing_spec(v: Vec3, normal: Vec3) -> Vec3 {
    if v.dot_spec(normal).gt_spec(Scalar { bits: ZERO_BITS }) {
        v
    } else {
        v.neg_spec()
    }
}

/// The mirror image of `vec` about the plane with the given normal:
/// `vec - 2 (vec . normal) normal`.
pub open spec fn reflect_spec(vec: Vec3, normal: Vec3) -> Vec3 {
    vec.sub_spec(normal.scale_spec(Scalar { bits: TWO_BITS }.mul_spec(vec.dot_spec(normal))))
}

/// The direction of `uv` after it crosses a surface with the given normal
/// and ratio of refractive indices, by Snell's law.
pub open spec fn refract_spec(uv: Vec3, normal: Vec3, etai_over_etat: Scalar) -> Vec3 {
    let one = Scalar { bits: ONE_BITS };
    let cos_theta = uv.dot_spec(normal).min_spec(one).neg_spec();
    let r_out_perp = uv.add_spec(normal.scale_spec(cos_theta)).scale_spec(etai_over_etat);
    let r_out_parallel = normal.scale_spec(
        one.sub_spec(r_out_perp.length_squared_spec()).abs_spec().sqrt_spec().neg_spec(),
    );
    r_out_perp.add_spec(r_out_parallel)
}

/// A random point inside the unit sphere: draws points of the cube
/// `[-1, 1)^3` until one has a squared length below 1, and returns that one.
/// Should `u64::MAX` draws in a row lie outside, the zero vector is
/// returned.
pub fn random_in_unit_sphere(rng: &mut StdRng) -> (r: Vec3)
    ensures
        drawn_in_unit_sphere(r),
{
    let ghost mut draws: Seq<Vec3> = Seq::empty();
    let mut tries: u64 = u64::MAX;
    while tries > 0
        invariant
            draws.len() == u64::MAX - tries,
            cube_draws(draws),
            forall|k: int| 0 <= k < draws.len() ==> !inside_unit_sphere(#[trigger] draws[k]),
        decreases tries,
    {
        let p = Vec3::random(
            Some(Scalar::from_bits(MINUS_ONE_BITS)),
            Some(Scalar::one()),
            rng,
        );
        proof {
            draws = draws.push(p);
        }
        if p.length_squared().lt(Scalar::one()) {
            assert(first_inside(draws, p) && cube_draws(draws));
            return p;
        }
        tries = tries - 1;
    }
    let r = Vec3::zero();
    assert(first_inside(draws, r) && cube_draws(draws));
    r
}

/// A random direction: a random point inside the unit sphere, divided by
/// its length.
pub fn random_unit_vector(rng: &mut StdRng) -> (r: Vec3)
    ensures
        direction_drawn(r),
{
    let p = random_in_unit_sphere(rng);
    let r = p.unit_vector();
    assert(drawn_in_unit_sphere(p) && r == p.unit_vector_spec());
    r
}

/// Turns `v` to the side of `normal`.
pub fn facing(v: &Vec3, normal: &Vec3) -> (r: Vec3)
    ensures
        r == facing_spec(*v, *normal),
{
    if v.dot(normal).gt(Scalar::zero()) {
        *v
    } else {
        v.neg()
    }
}

/// A random direction on the side of `normal`.
pub fn random_on_hemisphere(normal: &Vec3, rng: &mut StdRng) -> (r: Vec3)
    ensures
        exists|v: Vec3| direction_drawn(v) && r == #[trigger] facing_spec(v, *normal),
{
    let on_unit_sphere = random_unit_vector(rng);
    let r = facing(&on_unit_sphere, normal);
    assert(direction_drawn(on_unit_sphere) && r == facing_spec(on_unit_sphere, *normal));
    r
}

pub fn reflect(vec: &Vec3, normal: &Vec3) -> (r: Vec3)
    ensures
        r == reflect_spec(*vec, *normal),
{
    *vec - Scalar::from_bits(TWO_BITS) * vec.dot(normal) * *normal
}

pub fn refract(uv: &Vec3, normal: &Vec3, etai_over_etat: Scalar) -> (r: Vec3)
    ensures
        r == refract_spec(*uv, *normal, etai_over_etat),
{
    let cos_theta = uv.dot(normal).min(Scalar::one()).neg();
    let r_out_perp = etai_over_etat * (*uv + cos_theta * *normal);
    let r_out_parallel = (Scalar::one() - r_out_perp.length_squared()).abs().sqrt().neg() * *normal;
    r_out_perp + r_out_parallel
}

/// Whether the point is what drawing a point inside the unit disk can
/// yield: the first of a run of points of the square `[-1, 1)^2` in the
/// plane `z = 0` that lies inside the unit circle, or the zero vector after
/// `u64::MAX` points outside it.
pub open spec fn drawn_in_unit_disk(p: Vec3) -> bool {
    exists|draws: Seq<Vec3>| #[trigger] first_inside(draws, p) && square_draws(draws)
}

/// A random point inside the unit disk of the plane `z = 0`: draws points of
/// the square `[-1, 1)^2` until one has a squared length below 1, and
/// returns that one. Should `u64::MAX` draws in a row lie outside, the zero
/// vector is returned.
pub fn random_in_unit_disk(rng: &mut StdRng) -> (r: Vec3)
    ensures
        drawn_in_unit_disk(r),
{
    let ghost mut draws: Seq<Vec3> = Seq::empty();
    let mut tries: u64 = u64::MAX;
    while tries > 0
        invariant
            draws.len() == u64::MAX - tries,
            square_draws(draws),
            forall|k: int| 0 <= k < draws.len() ==> !inside_unit_sphere(#[trigger] draws[k]),
        decreases tries,
    {
        let low = Scalar::from_bits(MINUS_ONE_BITS);
        let p = Vec3 {
            x: random_double(Some(low), Some(Scalar::one()), rng),
            y: random_double(Some(low), Some(Scalar::one()), rng),
            z: Scalar::zero(),
        };
        proof {
            assert(square_drawn(p));
            draws = draws.push(p);
        }
        if p.length_squared().lt(Scalar::one()) {
            assert(first_inside(draws, p) && square_draws(draws));
            return p;
        }
        tries = tries - 1;
    }
    let r = Vec3::zero();
    assert(first_inside(draws, r) && square_draws(draws));
    r
}

/// Whether the rounded squared length of the point is below 1.
pub open spec fn inside_unit_sphere(p: Vec3) -> bool {
    p.length_squared_spec().lt_spec(Scalar { bits: ONE_BITS })
}

/// Whether the point is one of the cube `[-1, 1)^3` that drawing can yield.
pub open spec fn cube_drawn(p: Vec3) -> bool {
    exists|a: u32, b: u32, c: u32|
        p == Vec3::sample_spec(Scalar { bits: MINUS_ONE_BITS }, Scalar { bits: ONE_BITS }, a, b, c)
}

/// Whether the point is one of the square `[-1, 1)^2` in the plane `z = 0`
/// that drawing can yield.
pub open spec fn square_drawn(p: Vec3) -> bool {
    &&& p.z == Scalar { bits: ZERO_BITS }
    &&& exists|a: u32, b: u32|
        p.x == uniform_spec(Scalar { bits: MINUS_ONE_BITS }, Scalar { bits: ONE_BITS }, a) && p.y
            == uniform_spec(Scalar { bits: MINUS_ONE_BITS }, Scalar { bits: ONE_BITS }, b)
}

/// Whether every one of the draws is a point of the cube that drawing can
/// yield.
pub open spec fn cube_draws(draws: Seq<Vec3>) -> bool {
    forall|k: int| 0 <= k < draws.len() ==> cube_drawn(#[trigger] draws[k])
}

/// Whether every one of the draws is a point of the square that drawing can
/// yield.
pub open spec fn square_draws(draws: Seq<Vec3>) -> bool {
    forall|k: int| 0 <= k < draws.len() ==> square_drawn(#[trigger] draws[k])
}

/// Whether `result` is what rejection sampling makes of the draws, taken in
/// turn: every draw but the last lies outside the unit sphere; the last one
/// lies inside and is the result, or it too lies outside, the draws are
/// `u64::MAX` in number, and the result is the zero vector.
pub open spec fn first_inside(draws: Seq<Vec3>, result: Vec3) -> bool {
    &&& 1 <= draws.len() <= u64::MAX
    &&& forall|k: int| 0 <= k < draws.len() - 1 ==> !inside_unit_sphere(#[trigger] draws[k])
    &&& if inside_unit_sphere(draws.last()) {
        result == draws.last()
    } else {
        draws.len() == u64::MAX && result == Vec3::zero_spec()
    }
}

} // verus!
