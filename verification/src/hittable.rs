//! What a ray can hit.

use vstd::prelude::*;
use crate::aabb::AABB;
use crate::hit_record::HitRecord;
use crate::interval::Interval;
use crate::ray::Ray;

verus! {

/// A surface, or a collection of surfaces, that a ray can be tested against.
pub trait Hittable {
    /// The intersection that `hit` reports for the ray within the parameter
    /// range `ray_time`, if it reports one.
    spec fn hit_spec(&self, ray: Ray, ray_time: Interval) -> Option<HitRecord>;

    /// The box that bounds the surface.
    spec fn bounding_box_spec(&self) -> AABB;

    /// Tests the ray against the surface within `ray_time`. On `true`,
    /// `hit_record` holds the intersection; on `false` it is left
    /// unspecified.
    fn hit(&self, ray: &Ray, ray_time: Interval, hit_record: &mut HitRecord) -> (r: bool)
        ensures
            r == self.hit_spec(*ray, ray_time).is_some(),
            r ==> *final(hit_record) == self.hit_spec(*ray, ray_time).unwrap(),
    ;

    fn bounding_box(&self) -> (r: AABB)
        ensures
            r == self.bounding_box_spec(),
    ;
}

} // verus!
