//! Diffuse surfaces.

use vstd::prelude::*;
use crate::color::Color;
use crate::hit_record::HitRecord;
use crate::material::{Material, Sample};
use crate::ray::Ray;

verus! {

/// A matte surface that scatters light about its normal.
#[derive(Clone, Copy, Debug, PartialEq, Eq, Structural)]
pub struct Lambertian {
    pub albedo: Color,
}

impl Material for Lambertian {
    /// The ray always scatters, filtered by the albedo, from the hit point
    /// along the normal plus the random direction; where that sum is near
    /// zero, along the normal itself.
    open spec fn scatter_spec(&self, in_ray: Ray, hit_record: HitRecord, sample: Sample) -> Option<
        (Color, Ray),
    > {
        let sum = hit_record.normal.add_spec(sample.unit);
        let scatter_direction = if sum.near_zero_spec() {
            hit_record.normal
        } else {
            sum
        };
        Some(
            (
                self.albedo,
                Ray { origin: hit_record.point, direction: scatter_direction, time: in_ray.time },
            ),
        )
    }

    fn scatter(
        &self,
        in_ray: &Ray,
        hit_record: &HitRecord,
        sample: &Sample,
        attenuation: &mut Color,
        scattered: &mut Ray,
    ) -> (r: bool) {
        let mut scatter_direction = hit_record.normal + sample.unit;
        if scatter_direction.near_zero() {
            scatter_direction = hit_record.normal;
        }
        *scattered = Ray {
            origin: hit_record.point,
            direction: scatter_direction,
            time: in_ray.time,
        };
        *attenuation = self.albedo;
        true
    }
}

} // verus!
