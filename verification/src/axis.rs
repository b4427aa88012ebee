//! The three coordinate axes.

use vstd::prelude::*;

verus! {

/// One of the coordinate axes.
#[derive(Clone, Copy, Debug, PartialEq, Eq, Structural)]
pub enum Axis {
    X,
    Y,
    Z,
}

/// A value with one component per axis.
pub trait AxisIndex<T> {
    /// The component along `axis`.
    spec fn axis_spec(&self, axis: Axis) -> T;

    fn axis(&self, axis: &Axis) -> (r: T)
        ensures
            r == self.axis_spec(*axis),
    ;
}

impl Axis {
    /// The number of the axis: 0 for x, 1 for y, 2 for z.
    pub open spec fn index_spec(self) -> int {
        match self {
            Axis::X => 0,
            Axis::Y => 1,
            Axis::Z => 2,
        }
    }

    pub fn index(self) -> (r: i32)
        ensures
            r == self.index_spec(),
    {
        match self {
            Axis::X => 0,
            Axis::Y => 1,
            Axis::Z => 2,
        }
    }

    /// The axes in the order x, y, z.
    pub fn all() -> (r: [Axis; 3])
        ensures
            r@ == seq![Axis::X, Axis::Y, Axis::Z],
    {
        [Axis::X, Axis::Y, Axis::Z]
    }
}

impl TryFrom<i32> for Axis {
    type Error = ();

    fn try_from(value: i32) -> (r: Result<Axis, ()>) {
        if value == 0 {
            Ok(Axis::X)
        } else if value == 1 {
            Ok(Axis::Y)
        } else if value == 2 {
            Ok(Axis::Z)
        } else {
            Err(())
        }
    }
}

impl vstd::std_specs::convert::TryFromSpecImpl<i32> for Axis {
    open spec fn obeys_try_from_spec() -> bool {
        true
    }

    /// The axis with the given number; an error for a number outside
    /// `0 ..= 2`.
    open spec fn try_from_spec(value: i32) -> Result<Axis, ()> {
        if value == 0 {
            Ok(Axis::X)
        } else if value == 1 {
            Ok(Axis::Y)
        } else if value == 2 {
            Ok(Axis::Z)
        } else {
            Err(())
        }
    }
}

} // verus!
