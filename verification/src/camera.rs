//! The camera: primary rays, shading, and the image.

use vstd::prelude::*;
use vstd::arithmetic::div_mod::lemma_fundamental_div_mod_converse;
use core::ops::Neg;
use rand::rngs::StdRng;
use crate::color::{
    decimal_of_i32, integer_spec, pixel_line_spec, write_color, channel_spec, Color, LINE_FEED,
    SPACE,
};
use crate::hit_record::HitRecord;
use crate::hittable::Hittable;
use crate::hittable_list::HittableList;
use crate::interval::Interval;
use crate::logger::{log, Logger};
use crate::material::{Material, Sample};
use crate::ray::Ray;
use crate::scalar::{Scalar, HALF_BITS, INFINITY_BITS, ONE_BITS, TWO_BITS, ZERO_BITS};
use crate::util::{degrees_to_radians, degrees_to_radians_spec, random_double, uniform_spec};
use crate::vec::{drawn_in_unit_disk, random_in_unit_disk, Point3, Vec2, Vec3};

verus! {

/// Bit pattern of `0.001`, the ray parameter below which an intersection is
/// taken for the surface that the ray starts from.
pub const NEAR_LIMIT_BITS: u32 = 0x3a83_126f;

/// Bit pattern of `0.7`.
pub const SKY_GREEN_BITS: u32 = 0x3f33_3333;

/// Bit pattern of `-0.5`.
pub const MINUS_HALF_BITS: u32 = 0xbf00_0000;

/// Bit pattern of `10.0`.
pub const TEN_BITS: u32 = 0x4120_0000;

/// Bit pattern of `90.0`.
pub const RIGHT_ANGLE_BITS: u32 = 0x42b4_0000;

/// Bit pattern of `-1.0`.
pub const MINUS_ONE_BITS: u32 = 0xbf80_0000;

/// The random numbers that one primary ray uses.
#[derive(Clone, Copy, Debug, PartialEq, Eq, Structural)]
pub struct PixelJitter {
    /// Where in the pixel's width the ray passes, as a part of the unit
    /// interval.
    pub px: Scalar,
    /// Where in the pixel's height the ray passes.
    pub py: Scalar,
    /// A point of the unit disk, which places the ray's origin on the lens.
    pub lens: Vec3,
    /// The moment of the frame at which the ray is cast.
    pub time: Scalar,
}

/// A sample of the unit interval.
pub open spec fn unit_interval_sample(x: Scalar) -> bool {
    exists|bits: u32| x == uniform_spec(Scalar { bits: ZERO_BITS }, Scalar { bits: ONE_BITS }, bits)
}

impl PixelJitter {
    /// Whether the numbers are ones that drawing can yield: three samples
    /// of the unit interval, and for the lens a point drawn by rejection
    /// sampling in the unit disk where `with_lens` holds, the zero vector
    /// where it does not.
    pub open spec fn drawn(self, with_lens: bool) -> bool {
        &&& unit_interval_sample(self.px)
        &&& unit_interval_sample(self.py)
        &&& unit_interval_sample(self.time)
        &&& if with_lens {
            drawn_in_unit_disk(self.lens)
        } else {
            self.lens == Vec3::zero_spec()
        }
    }

    /// Draws the numbers from the generator. The point on the lens is drawn
    /// only where `with_lens` asks for it, and is the zero vector otherwise.
    pub fn draw(with_lens: bool, rng: &mut StdRng) -> (r: PixelJitter)
        ensures
            r.drawn(with_lens),
    {
        let px = random_double(None, None, rng);
        let py = random_double(None, None, rng);
        let lens = if with_lens {
            random_in_unit_disk(rng)
        } else {
            Vec3::zero()
        };
        let time = random_double(None, None, rng);
        PixelJitter { px, py, lens, time }
    }
}

/// The camera: what the user sets, and the frame derived from it.
#[derive(Debug)]
pub struct Camera {
    /// Image width over height.
    pub aspect_ratio: Scalar,
    /// The image size in pixels. The height is derived.
    pub image: Vec2<i32>,
    /// The number of rays cast per pixel.
    pub samples_per_pixel: i32,
    /// The largest number of bounces of a ray.
    pub max_depth: i32,
    /// The vertical view angle, in degrees.
    pub vertical_field_of_view: Scalar,
    /// The point the camera looks from.
    pub look_from: Point3,
    /// The point the camera looks at.
    pub look_at: Point3,
    /// The direction that is up in the image.
    pub vertical_up: Vec3,
    /// The angle of the cone with its apex at the focus point and its base
    /// on the lens, in degrees.
    pub defocus_angle: Scalar,
    /// The distance from the camera to the plane in perfect focus.
    pub focus_distance: Scalar,
    /// Derived: the camera center.
    pub center: Point3,
    /// Derived: the center of the pixel in the upper left corner.
    pub pixel00_loc: Point3,
    /// Derived: the offsets from pixel to pixel, to the right and down.
    pub pixel_delta: Vec2<Vec3>,
    /// Derived: the unit vector to the right of the camera.
    pub basis_u: Vec3,
    /// Derived: the unit vector up from the camera.
    pub basis_v: Vec3,
    /// Derived: the unit vector against the view direction.
    pub basis_w: Vec3,
    /// Derived: the horizontal radius of the lens.
    pub defocus_disk_u: Vec3,
    /// Derived: the vertical radius of the lens.
    pub defocus_disk_v: Vec3,
}

impl Default for Camera {
    fn default() -> (r: Camera)
        ensures
            r == Camera::default_spec(),
    {
        Camera {
            aspect_ratio: Scalar::one(),
            image: Vec2 { width: 100, height: 0 },
            samples_per_pixel: 10,
            max_depth: 10,
            vertical_field_of_view: Scalar::from_bits(RIGHT_ANGLE_BITS),
            look_from: Vec3 {
                x: Scalar::zero(),
                y: Scalar::zero(),
                z: Scalar::from_bits(MINUS_ONE_BITS),
            },
            look_at: Vec3::zero(),
            vertical_up: Vec3 { x: Scalar::zero(), y: Scalar::one(), z: Scalar::zero() },
            defocus_angle: Scalar::zero(),
            focus_distance: Scalar::from_bits(TEN_BITS),
            center: Vec3::zero(),
            pixel00_loc: Vec3::zero(),
            pixel_delta: Vec2 { width: Vec3::zero(), height: Vec3::zero() },
            basis_u: Vec3::zero(),
            basis_v: Vec3::zero(),
            basis_w: Vec3::zero(),
            defocus_disk_u: Vec3::zero(),
            defocus_disk_v: Vec3::zero(),
        }
    }
}

/// The color of the sky in the direction of the ray: white blended into
/// blue with the height of the unit direction.
pub open spec fn sky_spec(ray: Ray) -> Color {
    let one = Scalar { bits: ONE_BITS };
    let unit_direction = ray.direction.unit_vector_spec();
    let alpha = Scalar { bits: HALF_BITS }.mul_spec(unit_direction.y.add_spec(one));
    let white = Vec3 { x: one, y: one, z: one };
    let blue = Vec3 { x: Scalar { bits: HALF_BITS }, y: Scalar { bits: SKY_GREEN_BITS }, z: one };
    white.scale_spec(one.sub_spec(alpha)).add_spec(blue.scale_spec(alpha))
}

/// The range of ray parameters in which intersections count: from 0.001 on.
pub open spec fn visible_range() -> Interval {
    Interval { min: Scalar { bits: NEAR_LIMIT_BITS }, max: Scalar { bits: INFINITY_BITS } }
}

/// The light that comes back along the ray when it may bounce `depth` times
/// and its scattering events use the random numbers of `samples` in turn:
/// black once the bounces are used up; the sky where the ray hits nothing;
/// black where the surface absorbs the ray; else the light along the
/// scattered ray, filtered channel by channel.
pub open spec fn shade_spec<W: Hittable>(world: W, ray: Ray, depth: int, samples: Seq<Sample>)
    -> Color
    decreases depth,
{
    if depth <= 0 {
        Vec3::zero_spec()
    } else {
        match world.hit_spec(ray, visible_range()) {
            None => sky_spec(ray),
            Some(hit_record) => match hit_record.material.scatter_spec(
                ray,
                hit_record,
                samples[0],
            ) {
                None => Vec3::zero_spec(),
                Some((attenuation, scattered)) => attenuation.mul_spec(
                    shade_spec(world, scattered, depth - 1, samples.skip(1)),
                ),
            },
        }
    }
}

/// The number of scattering events on the way of the ray, which may bounce
/// `depth` times and uses the random numbers of `samples` in turn: one for
/// each surface that the ray hits, up to the first that absorbs it.
pub open spec fn scatter_count<W: Hittable>(world: W, ray: Ray, depth: int, samples: Seq<Sample>)
    -> nat
    decreases depth,
{
    if depth <= 0 {
        0
    } else {
        match world.hit_spec(ray, visible_range()) {
            None => 0,
            Some(hit_record) => match hit_record.material.scatter_spec(
                ray,
                hit_record,
                samples[0],
            ) {
                None => 1,
                Some((attenuation, scattered)) => 1 + scatter_count(
                    world,
                    scattered,
                    depth - 1,
                    samples.skip(1),
                ),
            },
        }
    }
}

/// Whether `color` is the light along the ray for the random numbers of
/// `samples`: there is one sample for each scattering event on the way of
/// the ray, each one that drawing can yield.
pub open spec fn shaded_with<W: Hittable>(
    world: W,
    ray: Ray,
    depth: int,
    samples: Seq<Sample>,
    color: Color,
) -> bool {
    &&& samples.len() == scatter_count(world, ray, depth, samples)
    &&& forall|k: int| 0 <= k < samples.len() ==> (#[trigger] samples[k]).drawn()
    &&& color == shade_spec(world, ray, depth, samples)
}

/// The head of the image: the format, the size, and the largest channel
/// value, each on a line.
pub open spec fn header_spec(width: int, height: int) -> Seq<u8> {
    seq![80u8, 51u8, LINE_FEED] + integer_spec(width) + seq![SPACE] + integer_spec(height) + seq![
        LINE_FEED,
        50u8,
        53u8,
        53u8,
        LINE_FEED,
    ]
}

/// The lines of the pixels, one after the other.
pub open spec fn lines_spec(pixels: Seq<(u8, u8, u8)>) -> Seq<u8>
    decreases pixels.len(),
{
    if pixels.len() == 0 {
        Seq::empty()
    } else {
        lines_spec(pixels.drop_last()) + pixel_line_spec(
            pixels.last().0 as int,
            pixels.last().1 as int,
            pixels.last().2 as int,
        )
    }
}

/// The sum of the colors, each added in turn to the zero vector.
pub open spec fn color_sum(colors: Seq<Color>) -> Color
    decreases colors.len(),
{
    if colors.len() == 0 {
        Vec3::zero_spec()
    } else {
        color_sum(colors.drop_last()).add_spec(colors.last())
    }
}

/// Whether `color` is the light along some ray that the camera can cast
/// through the pixel in column `i` and row `j`, for random numbers that
/// drawing can yield.
pub open spec fn sampled_through<W: Hittable>(
    camera: Camera,
    world: W,
    i: int,
    j: int,
    color: Color,
) -> bool {
    exists|jitter: PixelJitter, samples: Seq<Sample>|
        jitter.drawn(camera.has_lens()) && #[trigger] shaded_with(
            world,
            camera.ray_through_spec(i, j, jitter),
            camera.max_depth as int,
            samples,
            color,
        )
}

/// Whether `sum` is the light gathered for the pixel in column `i` and row
/// `j`: the sum of `samples_per_pixel` colors, each the light along a ray
/// through the pixel.
pub open spec fn pixel_summed<W: Hittable>(
    camera: Camera,
    world: W,
    i: int,
    j: int,
    sum: Color,
) -> bool {
    exists|colors: Seq<Color>|
        {
            &&& colors.len() == (if camera.samples_per_pixel > 0 {
                camera.samples_per_pixel as int
            } else {
                0
            })
            &&& forall|s: int|
                0 <= s < colors.len() ==> sampled_through(camera, world, i, j, #[trigger] colors[s])
            &&& #[trigger] color_sum(colors) == sum
        }
}

/// Whether `pixel` is a rendering of the pixel in column `i` and row `j`:
/// the channel values of the light gathered for it.
pub open spec fn pixel_rendered<W: Hittable>(
    camera: Camera,
    world: W,
    i: int,
    j: int,
    pixel: (u8, u8, u8),
) -> bool {
    exists|sum: Color|
        pixel_summed(camera, world, i, j, sum) && #[trigger] pixel_of(
            sum,
            camera.samples_per_pixel as int,
        ) == pixel
}

/// The channel values of a sum of colors.
pub open spec fn pixel_of(sum: Color, samples_per_pixel: int) -> (u8, u8, u8) {
    (
        channel_spec(sum.x, samples_per_pixel) as u8,
        channel_spec(sum.y, samples_per_pixel) as u8,
        channel_spec(sum.z, samples_per_pixel) as u8,
    )
}

/// Whether `pixels` is a rendering of the image, row by row from the top:
/// one pixel for each place of the image, each a rendering of its place.
pub open spec fn image_rendered<W: Hittable>(
    camera: Camera,
    world: W,
    pixels: Seq<(u8, u8, u8)>,
) -> bool {
    &&& pixels.len() == pixel_count(camera.image.width as int, camera.image.height as int)
    &&& forall|k: int|
        0 <= k < pixels.len() ==> pixel_rendered(
            camera,
            world,
            k % (camera.image.width as int),
            k / (camera.image.width as int),
            #[trigger] pixels[k],
        )
}

/// The number of pixels in a row of an image of the given width.
pub open spec fn columns_spec(width: int) -> int {
    if width > 0 {
        width
    } else {
        0
    }
}

/// Whether `pixels` is a rendering of the row `j` of the image, from left
/// to right: one pixel for each column, each a rendering of its place.
pub open spec fn row_rendered<W: Hittable>(
    camera: Camera,
    world: W,
    j: int,
    pixels: Seq<(u8, u8, u8)>,
) -> bool {
    &&& pixels.len() == columns_spec(camera.image.width as int)
    &&& forall|i: int|
        0 <= i < pixels.len() ==> pixel_rendered(camera, world, i, j, #[trigger] pixels[i])
}

/// The message that tells how many rows are still to come: a carriage
/// return, the words `Scanlines remaining: ` and the number.
pub open spec fn progress_spec(remaining: int) -> Seq<u8> {
    seq![
        13u8,
        83u8,
        99u8,
        97u8,
        110u8,
        108u8,
        105u8,
        110u8,
        101u8,
        115u8,
        32u8,
        114u8,
        101u8,
        109u8,
        97u8,
        105u8,
        110u8,
        105u8,
        110u8,
        103u8,
        58u8,
        32u8,
    ] + integer_spec(remaining)
}

/// The messages written before each of the first `rows` rows of an image
/// `height` rows high.
pub open spec fn progress_log_spec(height: int, rows: int) -> Seq<u8>
    decreases rows,
{
    if rows <= 0 {
        Seq::empty()
    } else {
        progress_log_spec(height, rows - 1) + progress_spec(height - (rows - 1))
    }
}

/// The message that tells how many rows are still to come.
pub fn progress(remaining: i32) -> (r: Vec<u8>)
    ensures
        r@ == progress_spec(remaining as int),
{
    let mut r: Vec<u8> = vec![
        13u8,
        83u8,
        99u8,
        97u8,
        110u8,
        108u8,
        105u8,
        110u8,
        101u8,
        115u8,
        32u8,
        114u8,
        101u8,
        109u8,
        97u8,
        105u8,
        110u8,
        105u8,
        110u8,
        103u8,
        58u8,
        32u8,
    ];
    let mut digits = decimal_of_i32(remaining);
    r.append(&mut digits);
    assert(r@ =~= progress_spec(remaining as int));
    r
}

/// The number of pixels of an image.
pub open spec fn pixel_count(width: int, height: int) -> int {
    if width <= 0 || height <= 0 {
        0
    } else {
        width * height
    }
}

fn sky(ray: &Ray) -> (r: Color)
    ensures
        r == sky_spec(*ray),
{
    let one = Scalar::one();
    let unit_direction = ray.direction.unit_vector();
    let alpha = Scalar::from_bits(HALF_BITS) * (unit_direction.y + one);
    (one - alpha) * Vec3 { x: one, y: one, z: one } + alpha * Vec3 {
        x: Scalar::from_bits(HALF_BITS),
        y: Scalar::from_bits(SKY_GREEN_BITS),
        z: one,
    }
}

/// The head of the image.
pub fn header(width: i32, height: i32) -> (r: Vec<u8>)
    ensures
        r@ == header_spec(width as int, height as int),
{
    let mut r: Vec<u8> = Vec::new();
    r.push(80u8);
    r.push(51u8);
    r.push(LINE_FEED);
    let mut digits = decimal_of_i32(width);
    r.append(&mut digits);
    r.push(SPACE);
    let mut digits = decimal_of_i32(height);
    r.append(&mut digits);
    r.push(LINE_FEED);
    r.push(50u8);
    r.push(53u8);
    r.push(53u8);
    r.push(LINE_FEED);
    assert(r@ =~= header_spec(width as int, height as int));
    r
}

impl Camera {
    /// The camera as it is before anything is set: a square image 100
    /// pixels wide, 10 samples per pixel, 10 bounces, a view angle of 90
    /// degrees from `(0, 0, -1)` toward the origin, no defocus.
    pub open spec fn default_spec() -> Camera {
        let zero = Scalar { bits: ZERO_BITS };
        let one = Scalar { bits: ONE_BITS };
        Camera {
            aspect_ratio: one,
            image: Vec2 { width: 100, height: 0 },
            samples_per_pixel: 10,
            max_depth: 10,
            vertical_field_of_view: Scalar { bits: RIGHT_ANGLE_BITS },
            look_from: Vec3 { x: zero, y: zero, z: Scalar { bits: MINUS_ONE_BITS } },
            look_at: Vec3::zero_spec(),
            vertical_up: Vec3 { x: zero, y: one, z: zero },
            defocus_angle: zero,
            focus_distance: Scalar { bits: TEN_BITS },
            center: Vec3::zero_spec(),
            pixel00_loc: Vec3::zero_spec(),
            pixel_delta: Vec2 { width: Vec3::zero_spec(), height: Vec3::zero_spec() },
            basis_u: Vec3::zero_spec(),
            basis_v: Vec3::zero_spec(),
            basis_w: Vec3::zero_spec(),
            defocus_disk_u: Vec3::zero_spec(),
            defocus_disk_v: Vec3::zero_spec(),
        }
    }

    /// Whether rays start on a lens rather than at the camera center: the
    /// defocus angle is above zero.
    pub open spec fn has_lens(self) -> bool {
        self.defocus_angle.gt_spec(Scalar { bits: ZERO_BITS })
    }

    /// The image height that the width and the aspect ratio give, at least 1.
    pub open spec fn image_height_spec(self) -> int {
        let height = Scalar::from_int_spec(self.image.width as int).div_spec(
            self.aspect_ratio,
        ).trunc_spec();
        if height < 1 {
            1
        } else {
            height
        }
    }

    /// The camera with the frame derived from what the user set: the image
    /// height, the orthonormal basis, the pixel grid on the plane in focus,
    /// and the lens.
    pub open spec fn initialized_spec(self) -> Camera {
        let two = Scalar { bits: TWO_BITS };
        let half = Scalar { bits: HALF_BITS };
        let width = Scalar::from_int_spec(self.image.width as int);
        let height = Scalar::from_int_spec(self.image_height_spec());
        let center = self.look_from;
        let theta = degrees_to_radians_spec(self.vertical_field_of_view);
        let h = theta.div_spec(two).tan_spec();
        let viewport_height = two.mul_spec(h).mul_spec(self.focus_distance);
        let viewport_width = viewport_height.mul_spec(width).div_spec(height);
        let basis_w = self.look_from.sub_spec(self.look_at).unit_vector_spec();
        let basis_u = self.vertical_up.cross_spec(basis_w).unit_vector_spec();
        let basis_v = basis_w.cross_spec(basis_u);
        let viewport_u = basis_u.scale_spec(viewport_width);
        let viewport_v = basis_v.neg_spec().scale_spec(viewport_height);
        let pixel_delta_u = viewport_u.div_spec(width);
        let pixel_delta_v = viewport_v.div_spec(height);
        let viewport_upper_left = center.sub_spec(basis_w.scale_spec(self.focus_distance)).sub_spec(
            viewport_u.div_spec(two),
        ).sub_spec(viewport_v.div_spec(two));
        let defocus_radius = self.focus_distance.mul_spec(
            degrees_to_radians_spec(self.defocus_angle.div_spec(two)).tan_spec(),
        );
        Camera {
            image: Vec2 { width: self.image.width, height: self.image_height_spec() as i32 },
            center,
            pixel00_loc: viewport_upper_left.add_spec(
                pixel_delta_u.add_spec(pixel_delta_v).scale_spec(half),
            ),
            pixel_delta: Vec2 { width: pixel_delta_u, height: pixel_delta_v },
            basis_u,
            basis_v,
            basis_w,
            defocus_disk_u: basis_u.scale_spec(defocus_radius),
            defocus_disk_v: basis_v.scale_spec(defocus_radius),
            ..self
        }
    }

    /// The ray through the pixel in column `i` and row `j`, placed in the
    /// pixel, on the lens and in the frame by the random numbers of
    /// `jitter`. Without defocus the ray starts at the camera center.
    pub open spec fn ray_through_spec(self, i: int, j: int, jitter: PixelJitter) -> Ray {
        let minus_half = Scalar { bits: MINUS_HALF_BITS };
        let pixel_center = self.pixel00_loc.add_spec(
            self.pixel_delta.width.scale_spec(Scalar::from_int_spec(i)),
        ).add_spec(self.pixel_delta.height.scale_spec(Scalar::from_int_spec(j)));
        let px = minus_half.add_spec(jitter.px);
        let py = minus_half.add_spec(jitter.py);
        let pixel_sample = pixel_center.add_spec(
            self.pixel_delta.width.scale_spec(px).add_spec(self.pixel_delta.height.scale_spec(py)),
        );
        let origin = if self.defocus_angle.le_spec(Scalar { bits: ZERO_BITS }) {
            self.center
        } else {
            self.center.add_spec(self.defocus_disk_u.scale_spec(jitter.lens.x)).add_spec(
                self.defocus_disk_v.scale_spec(jitter.lens.y),
            )
        };
        Ray { origin, direction: pixel_sample.sub_spec(origin), time: jitter.time }
    }

    /// Derives the frame from what the user set.
    pub fn initialize(&mut self)
        ensures
            *final(self) == old(self).initialized_spec(),
            final(self).image.height == old(self).image_height_spec(),
    {
        let two = Scalar::from_bits(TWO_BITS);
        self.image.height = (Scalar::from_i32(self.image.width) / self.aspect_ratio).to_i32();
        if self.image.height < 1 {
            self.image.height = 1;
        }
        let width = Scalar::from_i32(self.image.width);
        let height = Scalar::from_i32(self.image.height);

        self.center = self.look_from;

        // Determine viewport dimensions
        let theta = degrees_to_radians(self.vertical_field_of_view);
        let h = (theta / two).tan();

        let viewport_height = two * h * self.focus_distance;
        let viewport_width = viewport_height * width / height;

        // Calculate the u,v,w unit basis vectors for the camera coordinate frame.
        self.basis_w = (self.look_from - self.look_at).unit_vector();
        self.basis_u = self.vertical_up.cross(&self.basis_w).unit_vector();
        self.basis_v = self.basis_w.cross(&self.basis_u);

        // Calculate the vectors across the horizontal and down the vertical viewport edges
        let viewport = Vec2 {
            width: viewport_width * self.basis_u,
            height: viewport_height * self.basis_v.neg(),
        };

        // Calculate the horizontal and vertical delta vectors from pixel to pixel
        self.pixel_delta.width = viewport.width / width;
        self.pixel_delta.height = viewport.height / height;

        // Calculate the location of the upper left pixel
        let viewport_upper_left = self.center - (self.focus_distance * self.basis_w)
            - viewport.width / two - viewport.height / two;

        self.pixel00_loc = viewport_upper_left + Scalar::from_bits(HALF_BITS) * (
        self.pixel_delta.width + self.pixel_delta.height);

        // Calculate the camera defocus disk basis vectors
        let defocus_radius = self.focus_distance * degrees_to_radians(
            self.defocus_angle / two,
        ).tan();
        self.defocus_disk_u = self.basis_u * defocus_radius;
        self.defocus_disk_v = self.basis_v * defocus_radius;
    }

    /// The ray through a pixel for given random numbers.
    pub fn ray_through(&self, i: i32, j: i32, jitter: &PixelJitter) -> (r: Ray)
        ensures
            r == self.ray_through_spec(i as int, j as int, *jitter),
    {
        let pixel_center = self.pixel00_loc + Scalar::from_i32(i) * self.pixel_delta.width
            + Scalar::from_i32(j) * self.pixel_delta.height;
        let pixel_sample = pixel_center + self.pixel_sample_square(jitter);
        let origin = if self.defocus_angle.le(Scalar::zero()) {
            self.center
        } else {
            self.defocus_disk_sample(jitter)
        };
        Ray { origin, direction: pixel_sample - origin, time: jitter.time }
    }

    /// A ray through the pixel in column `i` and row `j`: through a random
    /// point of the pixel, from a random point of the lens where there is
    /// defocus, at a random moment of the frame.
    pub fn get_ray(&self, i: i32, j: i32, rng: &mut StdRng) -> (r: Ray)
        ensures
            exists|jitter: PixelJitter|
                jitter.drawn(self.has_lens()) && r == self.ray_through_spec(
                    i as int,
                    j as int,
                    jitter,
                ),
    {
        let jitter = PixelJitter::draw(self.defocus_angle.gt(Scalar::zero()), rng);
        let r = self.ray_through(i, j, &jitter);
        assert(jitter.drawn(self.has_lens()) && r == self.ray_through_spec(
            i as int,
            j as int,
            jitter,
        ));
        r
    }

    fn pixel_sample_square(&self, jitter: &PixelJitter) -> (r: Vec3)
        ensures
            r == self.pixel_delta.width.scale_spec(
                Scalar { bits: MINUS_HALF_BITS }.add_spec(jitter.px),
            ).add_spec(
                self.pixel_delta.height.scale_spec(
                    Scalar { bits: MINUS_HALF_BITS }.add_spec(jitter.py),
                ),
            ),
    {
        let px = Scalar::from_bits(MINUS_HALF_BITS) + jitter.px;
        let py = Scalar::from_bits(MINUS_HALF_BITS) + jitter.py;
        px * self.pixel_delta.width + py * self.pixel_delta.height
    }

    fn defocus_disk_sample(&self, jitter: &PixelJitter) -> (r: Vec3)
        ensures
            r == self.center.add_spec(self.defocus_disk_u.scale_spec(jitter.lens.x)).add_spec(
                self.defocus_disk_v.scale_spec(jitter.lens.y),
            ),
    {
        let p = jitter.lens;
        self.center + p.x * self.defocus_disk_u + p.y * self.defocus_disk_v
    }

    /// The light that comes back along the ray, which may bounce `depth`
    /// times. A sample is drawn from the generator for each scattering
    /// event.
    pub fn ray_color<W: Hittable>(&self, ray: &Ray, depth: i32, world: &W, rng: &mut StdRng) -> (r:
        Color)
        ensures
            exists|samples: Seq<Sample>| shaded_with(*world, *ray, depth as int, samples, r),
        decreases depth,
    {
        let mut hit_record = HitRecord::default();

        // If we've exceeded the ray bounce limit, no more light is gathered
        if depth <= 0 {
            let r = Vec3::zero();
            assert(shaded_with(*world, *ray, depth as int, Seq::<Sample>::empty(), r));
            return r;
        }
        if world.hit(
            ray,
            Interval {
                min: Scalar::from_bits(NEAR_LIMIT_BITS),
                max: Scalar::infinity(),
            },
            &mut hit_record,
        ) {
            let sample = Sample::draw(rng);
            let mut scattered = Ray::default();
            let mut attenuation = Vec3::zero();
            if hit_record.material.scatter(
                ray,
                &hit_record,
                &sample,
                &mut attenuation,
                &mut scattered,
            ) {
                let remaining: i32 = depth - 1;
                let onward = self.ray_color(&scattered, remaining, world, rng);
                let r = attenuation * onward;
                proof {
                    let rest = choose|rest: Seq<Sample>|
                        shaded_with(*world, scattered, remaining as int, rest, onward);
                    let samples = seq![sample] + rest;
                    assert(samples[0] == sample);
                    assert(samples.skip(1) =~= rest);
                    assert(shaded_with(*world, *ray, depth as int, samples, r));
                }
                return r;
            }
            let r = Vec3::zero();
            proof {
                let samples = seq![sample];
                assert(samples[0] == sample);
                assert(shaded_with(*world, *ray, depth as int, samples, r));
            }
            return r;
        }
        let r = sky(ray);
        assert(shaded_with(*world, *ray, depth as int, Seq::<Sample>::empty(), r));
        r
    }

    /// Gathers the light for the pixel in column `i` and row `j`: the sum of
    /// the light along `samples_per_pixel` rays through the pixel.
    pub fn pixel_sum<W: Hittable>(&self, i: i32, j: i32, world: &W, rng: &mut StdRng) -> (r: Color)
        ensures
            pixel_summed(*self, *world, i as int, j as int, r),
    {
        let mut pixel_color = Vec3::zero();
        let ghost mut colors: Seq<Color> = Seq::empty();
        let mut s: i32 = 0;
        while s < self.samples_per_pixel
            invariant
                0 <= s,
                s <= self.samples_per_pixel || s == 0,
                colors.len() == s,
                pixel_color == color_sum(colors),
                forall|t: int|
                    0 <= t < colors.len() ==> sampled_through(
                        *self,
                        *world,
                        i as int,
                        j as int,
                        #[trigger] colors[t],
                    ),
            decreases self.samples_per_pixel - s,
        {
            let ray = self.get_ray(i, j, rng);
            let color = self.ray_color(&ray, self.max_depth, world, rng);
            pixel_color = pixel_color + color;
            proof {
                let jitter = choose|jitter: PixelJitter|
                    jitter.drawn(self.has_lens()) && ray == self.ray_through_spec(
                        i as int,
                        j as int,
                        jitter,
                    );
                let samples = choose|samples: Seq<Sample>|
                    shaded_with(*world, ray, self.max_depth as int, samples, color);
                assert(shaded_with(
                    *world,
                    self.ray_through_spec(i as int, j as int, jitter),
                    self.max_depth as int,
                    samples,
                    color,
                ));
                let longer = colors.push(color);
                assert(longer.drop_last() =~= colors);
                colors = longer;
            }
            s = s + 1;
        }
        assert(color_sum(colors) == pixel_color);
        pixel_color
    }

    /// Renders the row `j` of the image onto the stream: one line per pixel,
    /// from left to right. The camera must have been initialized for the
    /// pixels to be those of its frame.
    pub fn render_row<W: Hittable>(
        &self,
        j: i32,
        stream: &mut Vec<u8>,
        world: &W,
        rng: &mut StdRng,
    )
        ensures
            exists|pixels: Seq<(u8, u8, u8)>|
                row_rendered(*self, *world, j as int, pixels) && final(stream)@ == old(stream)@
                    + #[trigger] lines_spec(pixels),
    {
        let width = self.image.width;
        let ghost mut pixels: Seq<(u8, u8, u8)> = Seq::empty();
        let ghost columns: int = columns_spec(width as int);
        assert(stream@ + lines_spec(pixels) =~= stream@);
        let mut i: i32 = 0;
        while i < width
            invariant
                0 <= i <= columns,
                width == self.image.width,
                columns == columns_spec(width as int),
                pixels.len() == i,
                forall|k: int|
                    0 <= k < pixels.len() ==> pixel_rendered(
                        *self,
                        *world,
                        k,
                        j as int,
                        #[trigger] pixels[k],
                    ),
                stream@ == old(stream)@ + lines_spec(pixels),
            decreases width - i,
        {
            let pixel_color = self.pixel_sum(i, j, world, rng);
            write_color(stream, pixel_color, self.samples_per_pixel);
            proof {
                let pixel = pixel_of(pixel_color, self.samples_per_pixel as int);
                assert(pixel_rendered(*self, *world, i as int, j as int, pixel));
                let longer = pixels.push(pixel);
                assert(longer.drop_last() =~= pixels);
                assert(longer.last() == pixel);
                assert(stream@ =~= old(stream)@ + lines_spec(longer));
                pixels = longer;
            }
            i = i + 1;
        }
        assert(row_rendered(*self, *world, j as int, pixels));
    }

    /// Renders the image of the world: derives the frame, writes the head
    /// of the image and then, row by row from the top, one line per pixel to
    /// `logger.stdout`, and before each row the number of rows still to come
    /// to `logger.stderr`. Each pixel is the mean of `samples_per_pixel`
    /// rays through it, gamma-corrected and quantized.
    pub fn render<W: Hittable>(&mut self, logger: &mut Logger, world: &W, rng: &mut StdRng)
        ensures
            *final(self) == old(self).initialized_spec(),
            final(logger).stderr@ == old(logger).stderr@ + progress_log_spec(
                final(self).image.height as int,
                final(self).image.height as int,
            ),
            exists|pixels: Seq<(u8, u8, u8)>|
                {
                    &&& image_rendered(*final(self), *world, pixels)
                    &&& final(logger).stdout@ == old(logger).stdout@ + header_spec(
                        final(self).image.width as int,
                        final(self).image.height as int,
                    ) + #[trigger] lines_spec(pixels)
                },
    {
        self.initialize();
        let width = self.image.width;
        let height = self.image.height;
        log(&mut logger.stdout, header(width, height));

        let ghost base = logger.stdout@;
        let ghost mut pixels: Seq<(u8, u8, u8)> = Seq::empty();
        let ghost columns: int = columns_spec(width as int);
        assert(base + lines_spec(pixels) =~= base);
        assert(logger.stderr@ =~= old(logger).stderr@ + progress_log_spec(height as int, 0));
        let mut j: i32 = 0;
        while j < height
            invariant
                0 <= j <= height,
                height >= 1,
                width == self.image.width,
                height == self.image.height,
                *self == old(self).initialized_spec(),
                logger.stderr@ == old(logger).stderr@ + progress_log_spec(height as int, j as int),
                columns == columns_spec(width as int),
                pixels.len() == j * columns,
                forall|k: int|
                    0 <= k < pixels.len() ==> pixel_rendered(
                        *self,
                        *world,
                        k % (width as int),
                        k / (width as int),
                        #[trigger] pixels[k],
                    ),
                logger.stdout@ == base + lines_spec(pixels),
            decreases height - j,
        {
            let ghost said = logger.stderr@;
            log(&mut logger.stderr, progress(height - j));
            assert(logger.stderr@ =~= old(logger).stderr@ + progress_log_spec(
                height as int,
                j + 1,
            ));
            let ghost written = logger.stdout@;
            self.render_row(j, &mut logger.stdout, world, rng);
            proof {
                let row = choose|row: Seq<(u8, u8, u8)>|
                    row_rendered(*self, *world, j as int, row) && logger.stdout@ == written
                        + #[trigger] lines_spec(row);
                let longer = pixels + row;
                lemma_lines_concat(pixels, row);
                assert(logger.stdout@ =~= base + lines_spec(longer));
                assert((j + 1) * columns == j * columns + columns) by (nonlinear_arith);
                assert forall|k: int| 0 <= k < longer.len() implies pixel_rendered(
                    *self,
                    *world,
                    k % (width as int),
                    k / (width as int),
                    #[trigger] longer[k],
                ) by {
                    if k < pixels.len() {
                        assert(longer[k] == pixels[k]);
                    } else {
                        let i = k - pixels.len();
                        assert(longer[k] == row[i]);
                        assert(k == j * width + i);
                        lemma_fundamental_div_mod_converse(k, width as int, j as int, i);
                    }
                }
                pixels = longer;
            }
            j = j + 1;
        }
        proof {
            assert(pixels.len() == pixel_count(width as int, height as int)) by (nonlinear_arith)
                requires
                    pixels.len() == j * columns,
                    j == height,
                    height >= 1,
                    columns == columns_spec(width as int),
            ;
            assert(image_rendered(*self, *world, pixels));
            assert(logger.stdout@ =~= old(logger).stdout@ + header_spec(
                width as int,
                height as int,
            ) + lines_spec(pixels));
        }
    }
}

/// The lines of two runs of pixels, one after the other, are the lines of
/// the first followed by those of the second.
pub proof fn lemma_lines_concat(a: Seq<(u8, u8, u8)>, b: Seq<(u8, u8, u8)>)
    ensures
        lines_spec(a + b) == lines_spec(a) + lines_spec(b),
    decreases b.len(),
{
    if b.len() == 0 {
        assert(a + b =~= a);
        assert(lines_spec(a) + lines_spec(b) =~= lines_spec(a));
    } else {
        lemma_lines_concat(a, b.drop_last());
        assert((a + b).drop_last() =~= a + b.drop_last());
        assert((a + b).last() == b.last());
        assert(lines_spec(a + b) =~= lines_spec(a) + lines_spec(b));
    }
}

/// In a world without surfaces the light along a ray that has a bounce left
/// is the color of the sky.
pub proof fn lemma_empty_world_shows_sky<H: Hittable>(
    world: HittableList<H>,
    ray: Ray,
    depth: int,
    samples: Seq<Sample>,
)
    requires
        world.objects@.len() == 0,
        depth > 0,
    ensures
        shade_spec(world, ray, depth, samples) == sky_spec(ray),
{
}

/// In a world without surfaces every color that goes into a pixel is the
/// color of the sky along a ray through that pixel.
pub proof fn lemma_empty_world_samples_sky<H: Hittable>(
    camera: Camera,
    world: HittableList<H>,
    i: int,
    j: int,
    color: Color,
)
    requires
        world.objects@.len() == 0,
        camera.max_depth > 0,
        sampled_through(camera, world, i, j, color),
    ensures
        exists|jitter: PixelJitter|
            jitter.drawn(camera.has_lens()) && color == sky_spec(
                #[trigger] camera.ray_through_spec(i, j, jitter),
            ),
{
    let (jitter, samples) = choose|jitter: PixelJitter, samples: Seq<Sample>|
        jitter.drawn(camera.has_lens()) && #[trigger] shaded_with(
            world,
            camera.ray_through_spec(i, j, jitter),
            camera.max_depth as int,
            samples,
            color,
        );
    lemma_empty_world_shows_sky(
        world,
        camera.ray_through_spec(i, j, jitter),
        camera.max_depth as int,
        samples,
    );
}

} // verus!
