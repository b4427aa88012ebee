//! Closed ranges of numbers.

use vstd::prelude::*;
use crate::scalar::{Scalar, HALF_BITS, INFINITY_BITS, NEG_INFINITY_BITS};

verus! {

/// The numbers from `min` to `max`.
///
/// An interval whose bounds are out of order, or not numbers, holds nothing.
#[derive(Clone, Copy, Debug, PartialEq, Eq, Structural)]
pub struct Interval {
    pub min: Scalar,
    pub max: Scalar,
}

impl Default for Interval {
    fn default() -> (r: Interval)
        ensures
            r == Interval::universe_spec(),
    {
        Interval::universe()
    }
}

impl Interval {
    /// The interval that holds no number: from positive to negative infinity.
    pub open spec fn empty_spec() -> Interval {
        Interval { min: Scalar { bits: INFINITY_BITS }, max: Scalar { bits: NEG_INFINITY_BITS } }
    }

    /// The interval that holds every number: from negative to positive
    /// infinity.
    pub open spec fn universe_spec() -> Interval {
        Interval { min: Scalar { bits: NEG_INFINITY_BITS }, max: Scalar { bits: INFINITY_BITS } }
    }

    /// Whether `min <= x <= max`.
    pub open spec fn contains_spec(self, x: Scalar) -> bool {
        self.min.le_spec(x) && x.le_spec(self.max)
    }

    /// Whether `min < x < max`.
    pub open spec fn surrounds_spec(self, x: Scalar) -> bool {
        self.min.lt_spec(x) && x.lt_spec(self.max)
    }

    /// The bound that `x` lies beyond, or `x` itself where it lies beyond
    /// none.
    pub open spec fn clamp_spec(self, x: Scalar) -> Scalar {
        if x.lt_spec(self.min) {
            self.min
        } else if x.gt_spec(self.max) {
            self.max
        } else {
            x
        }
    }

    /// The distance from `min` to `max`.
    pub open spec fn size_spec(self) -> Scalar {
        self.max.sub_spec(self.min)
    }

    /// The interval with half of `delta` added at each end.
    pub open spec fn expand_spec(self, delta: Scalar) -> Interval {
        let padding = delta.mul_spec(Scalar { bits: HALF_BITS });
        Interval { min: self.min.sub_spec(padding), max: self.max.add_spec(padding) }
    }

    /// The smallest interval around both: from the smaller `min` to the
    /// larger `max`.
    pub open spec fn union_spec(a: Interval, b: Interval) -> Interval {
        Interval { min: a.min.min_spec(b.min), max: a.max.max_spec(b.max) }
    }

    pub fn new(min: Scalar, max: Scalar) -> (r: Interval)
        ensures
            r == (Interval { min, max }),
    {
        Interval { min, max }
    }

    pub fn empty() -> (r: Interval)
        ensures
            r == Interval::empty_spec(),
    {
        Interval { min: Scalar::infinity(), max: Scalar::neg_infinity() }
    }

    pub fn universe() -> (r: Interval)
        ensures
            r == Interval::universe_spec(),
    {
        Interval { min: Scalar::neg_infinity(), max: Scalar::infinity() }
    }

    pub fn contains(&self, x: Scalar) -> (r: bool)
        ensures
            r == self.contains_spec(x),
    {
        self.min.le(x) && x.le(self.max)
    }

    pub fn surrounds(&self, x: Scalar) -> (r: bool)
        ensures
            r == self.surrounds_spec(x),
    {
        self.min.lt(x) && x.lt(self.max)
    }

    pub fn clamp(&self, x: Scalar) -> (r: Scalar)
        ensures
            r == self.clamp_spec(x),
    {
        if x.lt(self.min) {
            return self.min;
        }
        if x.gt(self.max) {
            return self.max;
        }
        x
    }

    pub fn size(&self) -> (r: Scalar)
        ensures
            r == self.size_spec(),
    {
        self.max - self.min
    }

    pub fn expand(&self, delta: Scalar) -> (r: Interval)
        ensures
            r == self.expand_spec(delta),
    {
        let padding = delta * Scalar::from_bits(HALF_BITS);
        Interval { min: self.min - padding, max: self.max + padding }
    }

    pub fn from_two_intervals(a: &Interval, b: &Interval) -> (r: Interval)
        ensures
            r == Interval::union_spec(*a, *b),
    {
        Interval { min: a.min.min(b.min), max: a.max.max(b.max) }
    }
}

/// The union of two intervals holds every number that either of them holds.
pub proof fn lemma_union_contains(a: Interval, b: Interval, x: Scalar)
    requires
        a.contains_spec(x) || b.contains_spec(x),
    ensures
        Interval::union_spec(a, b).contains_spec(x),
{
}

/// The empty interval holds no number, and the universe every number.
pub proof fn lemma_empty_and_universe(x: Scalar)
    ensures
        !Interval::empty_spec().contains_spec(x),
        !x.is_nan_spec() ==> Interval::universe_spec().contains_spec(x),
{
}

/// A clamped number lies in the interval, provided the interval holds
/// anything and the number is one; a number of the interval is left as it
/// is.
pub proof fn lemma_clamp(i: Interval, x: Scalar)
    ensures
        i.min.le_spec(i.max) && !x.is_nan_spec() ==> i.contains_spec(i.clamp_spec(x)),
        i.contains_spec(x) ==> i.clamp_spec(x) == x,
{
}

} // verus!
