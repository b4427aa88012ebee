//! Building blocks of a scene of many small spheres.

use vstd::prelude::*;
use rand::rngs::StdRng;
use crate::dielectric::Dielectric;
use crate::hittable_list::HittableList;
use crate::lambertian::Lambertian;
use crate::material::Surface;
use crate::metal::Metal;
use crate::scalar::{Scalar, HALF_BITS, ONE_BITS, ZERO_BITS};
use crate::sphere::Sphere;
use crate::util::{random_double, uniform_spec};
use crate::vec::{Point3, Vec3};

verus! {

/// Bit pattern of `0.8`: below it a small sphere is diffuse.
pub const DIFFUSE_SHARE_BITS: u32 = 0x3f4c_cccd;

/// Bit pattern of `0.95`: below it, and not diffuse, a small sphere is
/// metal; from it on, glass.
pub const METAL_SHARE_BITS: u32 = 0x3f73_3333;

/// Bit pattern of `0.2`, the radius of a small sphere.
pub const SMALL_RADIUS_BITS: u32 = 0x3e4c_cccd;

/// Bit pattern of `1.5`, the refractive index of glass.
pub const GLASS_INDEX_BITS: u32 = 0x3fc0_0000;

/// Whether the color is one that drawing each channel from `[low, high)`
/// can yield.
pub open spec fn color_drawn(color: Vec3, low: Scalar, high: Scalar) -> bool {
    exists|a: u32, b: u32, c: u32| color == Vec3::sample_spec(low, high, a, b, c)
}

/// Whether the number is one that drawing from `[low, high)` can yield.
pub open spec fn number_drawn(x: Scalar, low: Scalar, high: Scalar) -> bool {
    exists|bits: u32| x == uniform_spec(low, high, bits)
}

/// Whether `material` is one that a small sphere can get for the number
/// `material_rng`: below 0.8 a diffuse one of any color; else below 0.95 a
/// metal with a color of channels in `[0.5, 1)` and a fuzz in `[0, 0.5)`;
/// else glass.
pub open spec fn material_fits(material_rng: Scalar, material: Surface) -> bool {
    let zero = Scalar { bits: ZERO_BITS };
    let half = Scalar { bits: HALF_BITS };
    let one = Scalar { bits: ONE_BITS };
    if material_rng.lt_spec(Scalar { bits: DIFFUSE_SHARE_BITS }) {
        material matches Surface::Lambertian(m) && color_drawn(m.albedo, zero, one)
    } else if material_rng.lt_spec(Scalar { bits: METAL_SHARE_BITS }) {
        material matches Surface::Metal(m) && color_drawn(m.albedo, half, one) && number_drawn(
            m.fuzz,
            zero,
            half,
        )
    } else {
        material == Surface::Dielectric(Dielectric { ir: Scalar { bits: GLASS_INDEX_BITS } })
    }
}

/// Whether `sphere` is a small sphere at `center` with a material that fits
/// the number `material_rng`.
pub open spec fn small_sphere_fits(material_rng: Scalar, center: Point3, sphere: Sphere) -> bool {
    &&& material_fits(material_rng, sphere.material)
    &&& sphere == Sphere::at_rest_spec(
        center,
        Scalar { bits: SMALL_RADIUS_BITS },
        sphere.material,
    )
}

/// Puts a small sphere at `center` in front of the world's surfaces. The
/// number `material_rng` decides the kind of its material; color and fuzz
/// are drawn from the generator.
pub fn choose_material_from_rng(
    world: &mut HittableList<Sphere>,
    material_rng: Scalar,
    center: &Point3,
    rng: &mut StdRng,
)
    ensures
        final(world).objects@.len() == old(world).objects@.len() + 1,
        small_sphere_fits(material_rng, *center, final(world).objects@[0]),
        final(world).objects@.skip(1) == old(world).objects@,
        old(world).well_formed() ==> final(world).well_formed(),
{
    let radius = Scalar::from_bits(SMALL_RADIUS_BITS);
    let material = if material_rng.lt(Scalar::from_bits(DIFFUSE_SHARE_BITS)) {
        let albedo = Vec3::random(None, None, rng);
        Surface::Lambertian(Lambertian { albedo })
    } else if material_rng.lt(Scalar::from_bits(METAL_SHARE_BITS)) {
        let albedo = Vec3::random(Some(Scalar::from_bits(HALF_BITS)), Some(Scalar::one()), rng);
        let fuzz = random_double(Some(Scalar::zero()), Some(Scalar::from_bits(HALF_BITS)), rng);
        Surface::Metal(Metal { albedo, fuzz })
    } else {
        Surface::Dielectric(Dielectric { ir: Scalar::from_bits(GLASS_INDEX_BITS) })
    };
    assert(material_fits(material_rng, material));
    world.add(Sphere::new(*center, radius, material));
    assert(world.objects@.skip(1) =~= old(world).objects@);
}

} // verus!
