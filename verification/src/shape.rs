//! The closed set of surfaces.

use vstd::prelude::*;
use crate::aabb::AABB;
use crate::bvh::BVHNode;
use crate::hit_record::HitRecord;
use crate::hittable::Hittable;
use crate::hittable_list::HittableList;
use crate::interval::Interval;
use crate::ray::Ray;
use crate::sphere::Sphere;

verus! {

/// One of the kinds of surface: a sphere, a list of spheres, or a tree of
/// boxes over spheres. A list or a tree of shapes holds surfaces of all
/// three kinds side by side.
pub enum Shape {
    Sphere(Sphere),
    List(HittableList<Sphere>),
    Tree(Box<BVHNode<Sphere>>),
}

impl Hittable for Shape {
    /// What the surface of this kind reports.
    open spec fn hit_spec(&self, ray: Ray, ray_time: Interval) -> Option<HitRecord> {
        match self {
            Shape::Sphere(s) => s.hit_spec(ray, ray_time),
            Shape::List(l) => l.hit_spec(ray, ray_time),
            Shape::Tree(t) => t.hit_spec(ray, ray_time),
        }
    }

    /// The box of the surface of this kind.
    open spec fn bounding_box_spec(&self) -> AABB {
        match self {
            Shape::Sphere(s) => s.bounding_box_spec(),
            Shape::List(l) => l.bounding_box_spec(),
            Shape::Tree(t) => t.bounding_box_spec(),
        }
    }

    fn hit(&self, ray: &Ray, ray_time: Interval, hit_record: &mut HitRecord) -> (r: bool) {
        match self {
            Shape::Sphere(s) => s.hit(ray, ray_time, hit_record),
            Shape::List(l) => l.hit(ray, ray_time, hit_record),
            Shape::Tree(t) => t.hit(ray, ray_time, hit_record),
        }
    }

    fn bounding_box(&self) -> (r: AABB) {
        match self {
            Shape::Sphere(s) => s.bounding_box(),
            Shape::List(l) => l.bounding_box(),
            Shape::Tree(t) => t.bounding_box(),
        }
    }
}

} // verus!
