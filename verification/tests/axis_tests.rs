use raytracer::aabb::AABB;
use raytracer::axis::{Axis, AxisIndex};
use raytracer::interval::Interval;
use raytracer::scalar::Scalar;
use raytracer::vec::{Vec2, Vec3};

fn s(x: f32) -> Scalar {
    Scalar::from_bits(x.to_bits())
}

#[test]
fn axes_come_from_their_numbers() {
    assert_eq!(Axis::try_from(0), Ok(Axis::X));
    assert_eq!(Axis::try_from(1), Ok(Axis::Y));
    assert_eq!(Axis::try_from(2), Ok(Axis::Z));
}

#[test]
fn other_numbers_are_no_axes() {
    assert_eq!(Axis::try_from(3), Err(()));
    assert_eq!(Axis::try_from(-1), Err(()));
    assert_eq!(Axis::try_from(i32::MAX), Err(()));
    assert_eq!(Axis::try_from(i32::MIN), Err(()));
}

#[test]
fn axes_are_numbered_in_order() {
    assert_eq!(Axis::all(), [Axis::X, Axis::Y, Axis::Z]);
    for (k, axis) in Axis::all().iter().enumerate() {
        assert_eq!(axis.index(), k as i32);
        assert_eq!(Axis::try_from(axis.index()), Ok(*axis));
    }
}

#[test]
fn vectors_and_boxes_are_indexed_by_axis() {
    let v = Vec3::new(s(1.0), s(2.0), s(3.0));
    assert_eq!(v.axis(&Axis::X), s(1.0));
    assert_eq!(v.axis(&Axis::Y), s(2.0));
    assert_eq!(v.axis(&Axis::Z), s(3.0));
    let b = AABB {
        x: Interval::new(s(0.0), s(1.0)),
        y: Interval::new(s(2.0), s(3.0)),
        z: Interval::new(s(4.0), s(5.0)),
    };
    assert_eq!(b.axis(&Axis::X), Interval::new(s(0.0), s(1.0)));
    assert_eq!(b.axis(&Axis::Y), Interval::new(s(2.0), s(3.0)));
    assert_eq!(b.axis(&Axis::Z), Interval::new(s(4.0), s(5.0)));
}

#[test]
fn a_pair_of_extents_keeps_both() {
    let size = Vec2 { width: 400, height: 225 };
    assert_eq!(size.width, 400);
    assert_eq!(size.height, 225);
}
