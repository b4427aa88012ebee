//! Reflective surfaces.

use vstd::prelude::*;
use crate::color::Color;
use crate::hit_record::HitRecord;
use crate::material::{Material, Sample};
use crate::ray::Ray;
use crate::scalar::{Scalar, ONE_BITS, ZERO_BITS};
use crate::vec::{reflect, reflect_spec};

verus! {

/// A mirror-like surface; `fuzz` blurs the reflection.
#[derive(Clone, Copy, Debug, PartialEq, Eq, Structural)]
pub struct Metal {
    pub albedo: Color,
    pub fuzz: Scalar,
}

impl Metal {
    /// A metal of the given color; a fuzz above 1 counts as 1.
    pub fn new(color: &Color, fuzz: Scalar) -> (r: Metal)
        ensures
            r.albedo == *color,
            r.fuzz == fuzz.min_spec(Scalar { bits: ONE_BITS }),
    {
        Metal { albedo: *color, fuzz: fuzz.min(Scalar::one()) }
    }

    /// The direction in which the ray leaves: its unit direction mirrored
    /// about the normal, plus the random direction times the fuzz.
    pub open spec fn direction_spec(self, in_ray: Ray, hit_record: HitRecord, sample: Sample)
        -> crate::vec::Vec3 {
        reflect_spec(in_ray.direction.unit_vector_spec(), hit_record.normal).add_spec(
            sample.unit.scale_spec(self.fuzz),
        )
    }
}

impl Material for Metal {
    /// The ray scatters, filtered by the albedo, where the direction in
    /// which it leaves points away from the surface; else it is absorbed.
    open spec fn scatter_spec(&self, in_ray: Ray, hit_record: HitRecord, sample: Sample) -> Option<
        (Color, Ray),
    > {
        let direction = self.direction_spec(in_ray, hit_record, sample);
        if direction.dot_spec(hit_record.normal).gt_spec(Scalar { bits: ZERO_BITS }) {
            Some((self.albedo, Ray { origin: hit_record.point, direction, time: in_ray.time }))
        } else {
            None
        }
    }

    fn scatter(
        &self,
        in_ray: &Ray,
        hit_record: &HitRecord,
        sample: &Sample,
        attenuation: &mut Color,
        scattered: &mut Ray,
    ) -> (r: bool) {
        let reflected = reflect(&in_ray.direction.unit_vector(), &hit_record.normal);
        *scattered = Ray {
            origin: hit_record.point,
            direction: reflected + self.fuzz * sample.unit,
            time: in_ray.time,
        };
        *attenuation = self.albedo;
        scattered.direction.dot(&hit_record.normal).gt(Scalar::zero())
    }
}

} // verus!
