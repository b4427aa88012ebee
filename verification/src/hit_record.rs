//! What is known of a point where a ray meets a surface.

use vstd::prelude::*;
use core::ops::Neg;
use crate::lambertian::Lambertian;
use crate::material::Surface;
use crate::ray::Ray;
use crate::scalar::{Scalar, ZERO_BITS};
use crate::vec::{Point3, Vec3};

verus! {

/// An intersection of a ray with a surface.
#[derive(Clone, Copy, Debug, PartialEq, Eq, Structural)]
pub struct HitRecord {
    /// Where the ray meets the surface.
    pub point: Point3,
    /// The surface normal at that point, turned against the ray.
    pub normal: Vec3,
    /// The finish of the surface.
    pub material: Surface,
    /// The ray parameter of the point.
    pub time: Scalar,
    /// Whether the ray came from outside the surface.
    pub front_face: bool,
}

impl Default for HitRecord {
    fn default() -> (r: HitRecord)
        ensures
            r == HitRecord::blank(),
    {
        HitRecord {
            point: Vec3::zero(),
            normal: Vec3::zero(),
            material: Surface::Lambertian(Lambertian { albedo: Vec3::zero() }),
            time: Scalar::zero(),
            front_face: false,
        }
    }
}

impl HitRecord {
    /// The record that storage holds before any hit: zeros, and a black
    /// diffuse material.
    pub open spec fn blank() -> HitRecord {
        HitRecord {
            point: Vec3::zero_spec(),
            normal: Vec3::zero_spec(),
            material: Surface::Lambertian(Lambertian { albedo: Vec3::zero_spec() }),
            time: Scalar { bits: ZERO_BITS },
            front_face: false,
        }
    }

    /// Whether the ray comes from the side to which `outward_normal` points.
    pub open spec fn faces_front(ray: Ray, outward_normal: Vec3) -> bool {
        ray.direction.dot_spec(outward_normal).lt_spec(Scalar { bits: ZERO_BITS })
    }

    /// The record with `front_face` and `normal` set from the outward normal
    /// of the surface: the normal is the outward one where the ray comes from
    /// outside, else its negation.
    pub open spec fn with_face_normal(self, ray: Ray, outward_normal: Vec3) -> HitRecord {
        let front_face = Self::faces_front(ray, outward_normal);
        HitRecord {
            front_face,
            normal: if front_face {
                outward_normal
            } else {
                outward_normal.neg_spec()
            },
            ..self
        }
    }

    /// Sets `front_face` and `normal` together. `outward_normal` is taken to
    /// have unit length.
    pub fn set_face_normal(&mut self, ray: &Ray, outward_normal: &Vec3)
        ensures
            *final(self) == old(self).with_face_normal(*ray, *outward_normal),
    {
        self.front_face = ray.direction.dot(outward_normal).lt(Scalar::zero());
        self.normal = if self.front_face {
            *outward_normal
        } else {
            outward_normal.neg()
        };
    }
}

} // verus!
