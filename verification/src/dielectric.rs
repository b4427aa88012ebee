//! Transparent surfaces.

use vstd::prelude::*;
use core::ops::Neg;
use crate::color::Color;
use crate::hit_record::HitRecord;
use crate::material::{Material, Sample};
use crate::ray::Ray;
use crate::scalar::{Scalar, ONE_BITS};
use crate::vec::{reflect, reflect_spec, refract, refract_spec, Vec3};

verus! {

/// A clear medium such as glass, with refractive index `ir`.
#[derive(Clone, Copy, Debug, PartialEq, Eq, Structural)]
pub struct Dielectric {
    pub ir: Scalar,
}

/// The fifth power, as the square of the square times the number.
pub open spec fn fifth_power_spec(x: Scalar) -> Scalar {
    let square = x.mul_spec(x);
    square.mul_spec(square).mul_spec(x)
}

/// Schlick's approximation of the share of light that a surface reflects:
/// `r0 + (1 - r0) (1 - cosine)^5` with `r0 = ((1 - ref_idx) / (1 + ref_idx))^2`.
pub open spec fn reflectance_spec(cosine: Scalar, ref_idx: Scalar) -> Scalar {
    let one = Scalar { bits: ONE_BITS };
    let ratio = one.sub_spec(ref_idx).div_spec(one.add_spec(ref_idx));
    let r0 = ratio.mul_spec(ratio);
    r0.add_spec(one.sub_spec(r0).mul_spec(fifth_power_spec(one.sub_spec(cosine))))
}

fn fifth_power(x: Scalar) -> (r: Scalar)
    ensures
        r == fifth_power_spec(x),
{
    let square = x * x;
    square * square * x
}

/// Schlick's approximation of the reflectance.
pub fn reflectance(cosine: Scalar, ref_idx: Scalar) -> (r: Scalar)
    ensures
        r == reflectance_spec(cosine, ref_idx),
{
    let one = Scalar::one();
    let ratio = (one - ref_idx) / (one + ref_idx);
    let r0 = ratio * ratio;
    r0 + (one - r0) * fifth_power(one - cosine)
}

impl Dielectric {
    /// The ratio of refractive indices that a ray meets: `1 / ir` on
    /// entering the medium, `ir` on leaving it.
    pub open spec fn refraction_ratio_spec(self, front_face: bool) -> Scalar {
        if front_face {
            Scalar { bits: ONE_BITS }.div_spec(self.ir)
        } else {
            self.ir
        }
    }

    /// The direction in which the ray leaves: mirrored where the angle
    /// allows no refraction or the reflectance exceeds the coin, else
    /// refracted.
    pub open spec fn direction_spec(self, in_ray: Ray, hit_record: HitRecord, coin: Scalar)
        -> Vec3 {
        let one = Scalar { bits: ONE_BITS };
        let refraction_ratio = self.refraction_ratio_spec(hit_record.front_face);
        let unit_direction = in_ray.direction.unit_vector_spec();
        let cos_theta = unit_direction.dot_spec(hit_record.normal).min_spec(one).neg_spec();
        let sin_theta = one.sub_spec(cos_theta.mul_spec(cos_theta)).sqrt_spec();
        let cannot_refract = refraction_ratio.mul_spec(sin_theta).gt_spec(one);
        if cannot_refract || reflectance_spec(cos_theta, refraction_ratio).gt_spec(coin) {
            reflect_spec(unit_direction, hit_record.normal)
        } else {
            refract_spec(unit_direction, hit_record.normal, refraction_ratio)
        }
    }
}

impl Material for Dielectric {
    /// The ray always scatters, unfiltered, from the hit point.
    open spec fn scatter_spec(&self, in_ray: Ray, hit_record: HitRecord, sample: Sample) -> Option<
        (Color, Ray),
    > {
        let one = Scalar { bits: ONE_BITS };
        Some(
            (
                Vec3 { x: one, y: one, z: one },
                Ray {
                    origin: hit_record.point,
                    direction: self.direction_spec(in_ray, hit_record, sample.coin),
                    time: in_ray.time,
                },
            ),
        )
    }

    fn scatter(
        &self,
        in_ray: &Ray,
        hit_record: &HitRecord,
        sample: &Sample,
        attenuation: &mut Color,
        scattered: &mut Ray,
    ) -> (r: bool) {
        let one = Scalar::one();
        *attenuation = Vec3 { x: one, y: one, z: one };
        let refraction_ratio = if hit_record.front_face {
            one / self.ir
        } else {
            self.ir
        };
        let unit_direction = in_ray.direction.unit_vector();
        let cos_theta = unit_direction.dot(&hit_record.normal).min(one).neg();
        let sin_theta = (one - cos_theta * cos_theta).sqrt();
        let cannot_refract = (refraction_ratio * sin_theta).gt(one);
        let direction = if cannot_refract || reflectance(cos_theta, refraction_ratio).gt(
            sample.coin,
        ) {
            reflect(&unit_direction, &hit_record.normal)
        } else {
            refract(&unit_direction, &hit_record.normal, refraction_ratio)
        };
        *scattered = Ray { origin: hit_record.point, direction, time: in_ray.time };
        true
    }
}

} // verus!
