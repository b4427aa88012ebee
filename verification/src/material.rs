//! How surfaces scatter light.

use vstd::prelude::*;
use rand::rngs::StdRng;
use crate::color::Color;
use crate::dielectric::Dielectric;
use crate::hit_record::HitRecord;
use crate::lambertian::Lambertian;
use crate::metal::Metal;
use crate::ray::Ray;
use crate::scalar::Scalar;
use crate::util::{random_double, uniform_spec};
use crate::vec::{direction_drawn, random_unit_vector, Vec3};

verus! {

/// The random numbers that one scattering event may use.
#[derive(Clone, Copy, Debug, PartialEq, Eq, Structural)]
pub struct Sample {
    /// A random direction.
    pub unit: Vec3,
    /// A random number of the unit interval.
    pub coin: Scalar,
}

impl Sample {
    /// Whether the sample is one that drawing can yield: a direction drawn
    /// by rejection sampling in the unit sphere, and a sample of the unit
    /// interval.
    pub open spec fn drawn(self) -> bool {
        &&& direction_drawn(self.unit)
        &&& exists|bits: u32|
            self.coin == uniform_spec(Scalar { bits: 0 }, Scalar { bits: 0x3f80_0000 }, bits)
    }

    /// Draws a sample from the generator.
    pub fn draw(rng: &mut StdRng) -> (r: Sample)
        ensures
            r.drawn(),
    {
        let unit = random_unit_vector(rng);
        let coin = random_double(None, None, rng);
        Sample { unit, coin }
    }
}

/// A surface finish: decides what becomes of a ray that hits the surface.
pub trait Material {
    /// The color filter and the onward ray for the ray `in_ray` that hit as
    /// `hit_record` records, with the random numbers of `sample`; `None`
    /// where the ray is absorbed.
    spec fn scatter_spec(&self, in_ray: Ray, hit_record: HitRecord, sample: Sample) -> Option<
        (Color, Ray),
    >;

    /// Scatters the ray. On `true`, `attenuation` and `scattered` hold the
    /// color filter and the onward ray; on `false` the ray is absorbed and
    /// the two are left unspecified.
    fn scatter(
        &self,
        in_ray: &Ray,
        hit_record: &HitRecord,
        sample: &Sample,
        attenuation: &mut Color,
        scattered: &mut Ray,
    ) -> (r: bool)
        ensures
            r == self.scatter_spec(*in_ray, *hit_record, *sample).is_some(),
            r ==> (*final(attenuation), *final(scattered)) == self.scatter_spec(
                *in_ray,
                *hit_record,
                *sample,
            ).unwrap(),
    ;
}

/// One of the three surface finishes.
#[derive(Clone, Copy, Debug, PartialEq, Eq, Structural)]
pub enum Surface {
    Lambertian(Lambertian),
    Metal(Metal),
    Dielectric(Dielectric),
}

impl Material for Surface {
    open spec fn scatter_spec(&self, in_ray: Ray, hit_record: HitRecord, sample: Sample) -> Option<
        (Color, Ray),
    > {
        match self {
            Surface::Lambertian(m) => m.scatter_spec(in_ray, hit_record, sample),
            Surface::Metal(m) => m.scatter_spec(in_ray, hit_record, sample),
            Surface::Dielectric(m) => m.scatter_spec(in_ray, hit_record, sample),
        }
    }

    fn scatter(
        &self,
        in_ray: &Ray,
        hit_record: &HitRecord,
        sample: &Sample,
        attenuation: &mut Color,
        scattered: &mut Ray,
    ) -> (r: bool) {
        match self {
            Surface::Lambertian(m) => m.scatter(in_ray, hit_record, sample, attenuation, scattered),
            Surface::Metal(m) => m.scatter(in_ray, hit_record, sample, attenuation, scattered),
            Surface::Dielectric(m) => m.scatter(in_ray, hit_record, sample, attenuation, scattered),
        }
    }
}

} // verus!
