//! Axis-aligned bounding boxes.

use vstd::prelude::*;
use crate::axis::{Axis, AxisIndex};
use crate::interval::{lemma_union_contains, Interval};
use crate::ray::Ray;
use crate::scalar::{Scalar, INFINITY_BITS, NEG_INFINITY_BITS, ONE_BITS, ZERO_BITS};
use crate::vec::Point3;

verus! {

/// A box with faces parallel to the coordinate planes: one interval per axis.
#[derive(Clone, Copy, Debug, PartialEq, Eq, Structural)]
pub struct AABB {
    pub x: Interval,
    pub y: Interval,
    pub z: Interval,
}

impl Default for AABB {
    fn default() -> (r: AABB)
        ensures
            r == (AABB {
                x: Interval::universe_spec(),
                y: Interval::universe_spec(),
                z: Interval::universe_spec(),
            }),
    {
        AABB { x: Interval::universe(), y: Interval::universe(), z: Interval::universe() }
    }
}

impl AxisIndex<Interval> for AABB {
    open spec fn axis_spec(&self, axis: Axis) -> Interval {
        match axis {
            Axis::X => self.x,
            Axis::Y => self.y,
            Axis::Z => self.z,
        }
    }

    fn axis(&self, axis: &Axis) -> (r: Interval) {
        match axis {
            Axis::X => self.x,
            Axis::Y => self.y,
            Axis::Z => self.z,
        }
    }
}

/// The axis with the given number, counting x, y, z from 0.
pub open spec fn nth_axis(i: int) -> Axis {
    if i == 0 {
        Axis::X
    } else if i == 1 {
        Axis::Y
    } else {
        Axis::Z
    }
}

/// The part of the ray's parameter range `ray_time` in which the ray is
/// between the two planes of a slab: the range is cut down to the parameters
/// at which the ray crosses the planes `slab.min` and `slab.max`, taken in
/// the order in which a ray of that direction meets them.
pub open spec fn clip_spec(slab: Interval, origin: Scalar, direction: Scalar, ray_time: Interval)
    -> Interval {
    let inverse_direction = Scalar { bits: ONE_BITS }.div_spec(direction);
    let t0 = slab.min.sub_spec(origin).mul_spec(inverse_direction);
    let t1 = slab.max.sub_spec(origin).mul_spec(inverse_direction);
    if inverse_direction.lt_spec(Scalar { bits: ZERO_BITS }) {
        Interval { min: ray_time.min.max_spec(t1), max: ray_time.max.min_spec(t0) }
    } else {
        Interval { min: ray_time.min.max_spec(t0), max: ray_time.max.min_spec(t1) }
    }
}

/// Cuts a ray's parameter range down to a slab.
pub fn clip(slab: &Interval, origin: Scalar, direction: Scalar, ray_time: Interval) -> (r: Interval)
    ensures
        r == clip_spec(*slab, origin, direction, ray_time),
{
    let inverse_direction = Scalar::one() / direction;
    let t0 = (slab.min - origin) * inverse_direction;
    let t1 = (slab.max - origin) * inverse_direction;
    if inverse_direction.lt(Scalar::zero()) {
        Interval { min: ray_time.min.max(t1), max: ray_time.max.min(t0) }
    } else {
        Interval { min: ray_time.min.max(t0), max: ray_time.max.min(t1) }
    }
}

impl AABB {
    /// The box that holds no point.
    pub open spec fn empty_spec() -> AABB {
        AABB { x: Interval::empty_spec(), y: Interval::empty_spec(), z: Interval::empty_spec() }
    }

    /// Whether the point lies in the box, faces included.
    pub open spec fn contains_spec(self, p: Point3) -> bool {
        self.x.contains_spec(p.x) && self.y.contains_spec(p.y) && self.z.contains_spec(p.z)
    }

    /// The box with the two points as opposite corners.
    pub open spec fn from_points_spec(a: Point3, b: Point3) -> AABB {
        AABB {
            x: Interval { min: a.x.min_spec(b.x), max: a.x.max_spec(b.x) },
            y: Interval { min: a.y.min_spec(b.y), max: a.y.max_spec(b.y) },
            z: Interval { min: a.z.min_spec(b.z), max: a.z.max_spec(b.z) },
        }
    }

    /// The smallest box around both boxes.
    pub open spec fn from_boxes_spec(box0: AABB, box1: AABB) -> AABB {
        AABB {
            x: Interval::union_spec(box0.x, box1.x),
            y: Interval::union_spec(box0.y, box1.y),
            z: Interval::union_spec(box0.z, box1.z),
        }
    }

    /// Whether the ray is inside the box for some stretch of `ray_time`,
    /// going by the axes from number `i` on: the range is cut down to each
    /// slab in turn, and the answer is no as soon as the range left has its
    /// upper end at or below its lower end.
    pub open spec fn hit_from(self, ray: Ray, ray_time: Interval, i: int) -> bool
        decreases 3 - i,
    {
        if i < 0 || i >= 3 {
            true
        } else {
            let axis = nth_axis(i);
            let rest = clip_spec(
                self.axis_spec(axis),
                ray.origin.axis_spec(axis),
                ray.direction.axis_spec(axis),
                ray_time,
            );
            if rest.max.le_spec(rest.min) {
                false
            } else {
                self.hit_from(ray, rest, i + 1)
            }
        }
    }

    /// Whether the ray is inside the box for some stretch of `ray_time`:
    /// the slab test over the three axes.
    pub open spec fn hit_spec(self, ray: Ray, ray_time: Interval) -> bool {
        self.hit_from(ray, ray_time, 0)
    }

    pub fn empty() -> (r: AABB)
        ensures
            r == AABB::empty_spec(),
    {
        AABB { x: Interval::empty(), y: Interval::empty(), z: Interval::empty() }
    }

    pub fn contains(&self, p: &Point3) -> (r: bool)
        ensures
            r == self.contains_spec(*p),
    {
        self.x.contains(p.x) && self.y.contains(p.y) && self.z.contains(p.z)
    }

    pub fn from_points(a: &Point3, b: &Point3) -> (r: AABB)
        ensures
            r == AABB::from_points_spec(*a, *b),
    {
        AABB {
            x: Interval { max: a.x.max(b.x), min: a.x.min(b.x) },
            y: Interval { max: a.y.max(b.y), min: a.y.min(b.y) },
            z: Interval { max: a.z.max(b.z), min: a.z.min(b.z) },
        }
    }

    pub fn from_boxes(box0: &AABB, box1: &AABB) -> (r: AABB)
        ensures
            r == AABB::from_boxes_spec(*box0, *box1),
    {
        AABB {
            x: Interval::from_two_intervals(&box0.x, &box1.x),
            y: Interval::from_two_intervals(&box0.y, &box1.y),
            z: Interval::from_two_intervals(&box0.z, &box1.z),
        }
    }

    pub fn hit(&self, ray: &Ray, ray_time: Interval) -> (r: bool)
        ensures
            r == self.hit_spec(*ray, ray_time),
    {
        let axes = Axis::all();
        let mut rest = ray_time;
        let mut i: usize = 0;
        while i < 3
            invariant
                0 <= i <= 3,
                axes@ == seq![Axis::X, Axis::Y, Axis::Z],
                self.hit_spec(*ray, ray_time) == self.hit_from(*ray, rest, i as int),
            decreases 3 - i,
        {
            let axis = axes[i];
            assert(axis == nth_axis(i as int));
            rest = clip(&self.axis(&axis), ray.origin.axis(&axis), ray.direction.axis(&axis), rest);
            if rest.max.le(rest.min) {
                return false;
            }
            i = i + 1;
        }
        true
    }
}

/// The box around two boxes holds every point that either of them holds.
pub proof fn lemma_from_boxes_contains(a: AABB, b: AABB, p: Point3)
    requires
        a.contains_spec(p) || b.contains_spec(p),
    ensures
        AABB::from_boxes_spec(a, b).contains_spec(p),
{
    lemma_union_contains(a.x, b.x, p.x);
    lemma_union_contains(a.y, b.y, p.y);
    lemma_union_contains(a.z, b.z, p.z);
}

/// The box spanned by two points holds both of them, unless a coordinate is
/// not a number, and holds the same points whichever corner is named first.
pub proof fn lemma_from_points_contains(a: Point3, b: Point3, p: Point3)
    ensures
        !a.x.is_nan_spec() && !a.y.is_nan_spec() && !a.z.is_nan_spec() ==> AABB::from_points_spec(
            a,
            b,
        ).contains_spec(a),
        !b.x.is_nan_spec() && !b.y.is_nan_spec() && !b.z.is_nan_spec() ==> AABB::from_points_spec(
            a,
            b,
        ).contains_spec(b),
        AABB::from_points_spec(a, b).contains_spec(p) == AABB::from_points_spec(b, a).contains_spec(
            p,
        ),
{
}

/// The ray parameters at which a ray crosses the two planes of a slab:
/// `(slab.min - origin) / direction` and `(slab.max - origin) / direction`,
/// computed with the reciprocal of the direction.
pub open spec fn crossings_spec(slab: Interval, origin: Scalar, direction: Scalar) -> (
    Scalar,
    Scalar,
) {
    let inverse_direction = Scalar { bits: ONE_BITS }.div_spec(direction);
    (
        slab.min.sub_spec(origin).mul_spec(inverse_direction),
        slab.max.sub_spec(origin).mul_spec(inverse_direction),
    )
}

/// Whether the two numbers are infinities of the same sign.
pub open spec fn both_beyond(t0: Scalar, t1: Scalar) -> bool {
    ||| t0.bits == INFINITY_BITS && t1.bits == INFINITY_BITS
    ||| t0.bits == NEG_INFINITY_BITS && t1.bits == NEG_INFINITY_BITS
}

/// A ray that never comes between the planes of one of the slabs misses the
/// box: where it crosses both planes of a slab at infinity on the same side,
/// as a ray beside the slab and parallel to it does, the test fails.
pub proof fn lemma_ray_beside_a_slab_misses(b: AABB, ray: Ray, ray_time: Interval, axis: Axis)
    requires
        both_beyond(
            crossings_spec(
                b.axis_spec(axis),
                ray.origin.axis_spec(axis),
                ray.direction.axis_spec(axis),
            ).0,
            crossings_spec(
                b.axis_spec(axis),
                ray.origin.axis_spec(axis),
                ray.direction.axis_spec(axis),
            ).1,
        ),
    ensures
        !b.hit_spec(ray, ray_time),
{
    reveal_with_fuel(AABB::hit_from, 4);
    assert(nth_axis(0) == Axis::X && nth_axis(1) == Axis::Y && nth_axis(2) == Axis::Z);
}

/// A ray never hits a box within a range that is empty to begin with.
pub proof fn lemma_empty_range_misses(b: AABB, ray: Ray, ray_time: Interval)
    requires
        ray_time.max.le_spec(ray_time.min),
    ensures
        !b.hit_spec(ray, ray_time),
{
}

} // verus!
