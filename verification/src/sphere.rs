//! Spheres, at rest or moving.

use vstd::prelude::*;
use core::ops::Neg;
use crate::aabb::AABB;
use crate::hit_record::HitRecord;
use crate::hittable::Hittable;
use crate::interval::Interval;
use crate::material::Surface;
use crate::ray::Ray;
use crate::scalar::{Scalar, ZERO_BITS};
use crate::vec::{Point3, Vec3};

verus! {

/// A sphere. Where `motion` is set, the center moves by that vector in the
/// course of the frame. A negative radius turns the surface normals inward.
#[derive(Clone, Copy, Debug, PartialEq, Eq, Structural)]
pub struct Sphere {
    pub center: Point3,
    pub radius: Scalar,
    pub material: Surface,
    pub motion: Option<Vec3>,
    pub bounding_box: AABB,
}

impl Sphere {
    /// The box around a sphere at rest: spanned by the center moved by the
    /// radius along all axes, back and forth.
    pub open spec fn box_around(center: Point3, radius: Scalar) -> AABB {
        let reach = Vec3 { x: radius, y: radius, z: radius };
        AABB::from_points_spec(center.sub_spec(reach), center.add_spec(reach))
    }

    /// The box around the sphere for the whole frame: for a moving sphere,
    /// the box around its boxes at the start and at the end.
    pub open spec fn bounds_spec(center: Point3, radius: Scalar, motion: Option<Vec3>) -> AABB {
        match motion {
            None => Self::box_around(center, radius),
            Some(step) => AABB::from_boxes_spec(
                Self::box_around(center, radius),
                Self::box_around(center.add_spec(step), radius),
            ),
        }
    }

    /// The sphere at rest with the given center, radius and material.
    pub open spec fn at_rest_spec(center: Point3, radius: Scalar, material: Surface) -> Sphere {
        Sphere {
            center,
            radius,
            material,
            motion: None,
            bounding_box: Self::bounds_spec(center, radius, None),
        }
    }

    /// The sphere whose center moves from `center0` to `center1` in the
    /// course of the frame.
    pub open spec fn moving_spec(
        center0: Point3,
        center1: Point3,
        radius: Scalar,
        material: Surface,
    ) -> Sphere {
        let step = center1.sub_spec(center0);
        Sphere {
            center: center0,
            radius,
            material,
            motion: Some(step),
            bounding_box: Self::bounds_spec(center0, radius, Some(step)),
        }
    }

    /// Whether the stored box is the one that the center, radius and motion
    /// give.
    pub open spec fn well_formed(self) -> bool {
        self.bounding_box == Self::bounds_spec(self.center, self.radius, self.motion)
    }

    /// Where the center is at the moment `time` of the frame.
    pub open spec fn center_at(self, time: Scalar) -> Point3 {
        match self.motion {
            None => self.center,
            Some(step) => self.center.add_spec(step.scale_spec(time)),
        }
    }

    /// The discriminant of the quadratic `|O + t D - C|^2 = r^2`, in the
    /// form with half the linear coefficient.
    pub open spec fn discriminant_spec(self, ray: Ray) -> Scalar {
        let oc = ray.origin.sub_spec(self.center_at(ray.time));
        let a = ray.direction.length_squared_spec();
        let half_b = oc.dot_spec(ray.direction);
        let c = oc.length_squared_spec().sub_spec(self.radius.mul_spec(self.radius));
        half_b.mul_spec(half_b).sub_spec(a.mul_spec(c))
    }

    /// The root `(-half_b - sqrt(discriminant)) / a` of the quadratic.
    pub open spec fn near_root_spec(self, ray: Ray) -> Scalar {
        let oc = ray.origin.sub_spec(self.center_at(ray.time));
        let a = ray.direction.length_squared_spec();
        let half_b = oc.dot_spec(ray.direction);
        half_b.neg_spec().sub_spec(self.discriminant_spec(ray).sqrt_spec()).div_spec(a)
    }

    /// The root `(-half_b + sqrt(discriminant)) / a` of the quadratic.
    pub open spec fn far_root_spec(self, ray: Ray) -> Scalar {
        let oc = ray.origin.sub_spec(self.center_at(ray.time));
        let a = ray.direction.length_squared_spec();
        let half_b = oc.dot_spec(ray.direction);
        half_b.neg_spec().add_spec(self.discriminant_spec(ray).sqrt_spec()).div_spec(a)
    }

    /// The root at which the ray counts as hitting within `ray_time`: none
    /// where the discriminant is negative; else the near root where the
    /// range surrounds it, else the far root where the range surrounds that.
    pub open spec fn root_spec(self, ray: Ray, ray_time: Interval) -> Option<Scalar> {
        if self.discriminant_spec(ray).lt_spec(Scalar { bits: ZERO_BITS }) {
            None
        } else if ray_time.surrounds_spec(self.near_root_spec(ray)) {
            Some(self.near_root_spec(ray))
        } else if ray_time.surrounds_spec(self.far_root_spec(ray)) {
            Some(self.far_root_spec(ray))
        } else {
            None
        }
    }

    /// The record of the intersection at the ray parameter `root`: the
    /// point on the ray, and the normal `(point - center) / radius` turned
    /// against the ray.
    pub open spec fn record_at(self, ray: Ray, root: Scalar) -> HitRecord {
        let point = ray.at_spec(root);
        let outward_normal = point.sub_spec(self.center_at(ray.time)).div_spec(self.radius);
        HitRecord {
            point,
            normal: outward_normal,
            material: self.material,
            time: root,
            front_face: false,
        }.with_face_normal(ray, outward_normal)
    }

    /// A sphere at rest.
    pub fn new(center: Point3, radius: Scalar, material: Surface) -> (r: Sphere)
        ensures
            r == Sphere::at_rest_spec(center, radius, material),
            r.well_formed(),
    {
        Sphere {
            center,
            radius,
            material,
            motion: None,
            bounding_box: Self::bounds_at(&center, radius),
        }
    }

    /// A sphere whose center moves from `center0` to `center1` in the course
    /// of the frame.
    pub fn new_moving(center0: Point3, center1: Point3, radius: Scalar, material: Surface) -> (r:
        Sphere)
        ensures
            r == Sphere::moving_spec(center0, center1, radius, material),
            r.well_formed(),
    {
        let step = center1 - center0;
        let start = Self::bounds_at(&center0, radius);
        let end = Self::bounds_at(&(center0 + step), radius);
        Sphere {
            center: center0,
            radius,
            material,
            motion: Some(step),
            bounding_box: AABB::from_boxes(&start, &end),
        }
    }

    fn bounds_at(center: &Point3, radius: Scalar) -> (r: AABB)
        ensures
            r == Self::box_around(*center, radius),
    {
        let reach = Vec3 { x: radius, y: radius, z: radius };
        AABB::from_points(&(*center - reach), &(*center + reach))
    }

    fn current_center(&self, time: Scalar) -> (r: Point3)
        ensures
            r == self.center_at(time),
    {
        match self.motion {
            None => self.center,
            Some(step) => self.center + time * step,
        }
    }
}

impl Hittable for Sphere {
    /// The intersection at the root that counts within `ray_time`.
    open spec fn hit_spec(&self, ray: Ray, ray_time: Interval) -> Option<HitRecord> {
        match self.root_spec(ray, ray_time) {
            Some(root) => Some(self.record_at(ray, root)),
            None => None,
        }
    }

    open spec fn bounding_box_spec(&self) -> AABB {
        self.bounding_box
    }

    fn hit(&self, ray: &Ray, ray_time: Interval, hit_record: &mut HitRecord) -> (r: bool) {
        let center = self.current_center(ray.time);
        let oc = ray.origin - center;
        let a = ray.direction.length_squared();
        let half_b = oc.dot(&ray.direction);
        let c = oc.length_squared() - self.radius * self.radius;
        let discriminant = half_b * half_b - a * c;
        if discriminant.lt(Scalar::zero()) {
            return false;
        }
        let sqrt_discriminant = discriminant.sqrt();

        // Find the nearest root that lies in the acceptable range
        let mut root = (half_b.neg() - sqrt_discriminant) / a;
        if !ray_time.surrounds(root) {
            root = (half_b.neg() + sqrt_discriminant) / a;
            if !ray_time.surrounds(root) {
                return false;
            }
        }
        hit_record.time = root;
        hit_record.point = ray.at(hit_record.time);
        let outward_normal = (hit_record.point - center) / self.radius;
        hit_record.set_face_normal(ray, &outward_normal);
        hit_record.material = self.material;
        true
    }

    fn bounding_box(&self) -> (r: AABB) {
        self.bounding_box
    }
}

} // verus!
