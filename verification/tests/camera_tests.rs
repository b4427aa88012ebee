use rand::rngs::StdRng;
use rand::SeedableRng;
use raytracer::camera::{header, progress, Camera, PixelJitter};
use raytracer::hittable_list::HittableList;
use raytracer::lambertian::Lambertian;
use raytracer::logger::Logger;
use raytracer::material::Surface;
use raytracer::metal::Metal;
use raytracer::ray::Ray;
use raytracer::scalar::Scalar;
use raytracer::sphere::Sphere;
use raytracer::vec::Vec3;

fn s(x: f32) -> Scalar {
    Scalar::from_bits(x.to_bits())
}

fn f(x: Scalar) -> f32 {
    f32::from_bits(x.to_bits())
}

fn v(x: f32, y: f32, z: f32) -> Vec3 {
    Vec3::new(s(x), s(y), s(z))
}

fn parts(a: Vec3) -> [f32; 3] {
    [f(a.x), f(a.y), f(a.z)]
}

fn close(a: [f32; 3], b: [f32; 3]) -> bool {
    (0..3).all(|k| (a[k] - b[k]).abs() < 1e-4)
}

/// A camera at the origin that looks down the negative z axis.
fn camera(width: i32, aspect_ratio: f32, samples: i32, depth: i32) -> Camera {
    let mut camera = Camera::default();
    camera.image.width = width;
    camera.aspect_ratio = s(aspect_ratio);
    camera.samples_per_pixel = samples;
    camera.max_depth = depth;
    camera.vertical_field_of_view = s(90.0);
    camera.look_from = v(0.0, 0.0, 0.0);
    camera.look_at = v(0.0, 0.0, -1.0);
    camera.vertical_up = v(0.0, 1.0, 0.0);
    camera.defocus_angle = s(0.0);
    camera.focus_distance = s(1.0);
    camera
}

/// Splits an image into its size and its pixels.
fn read_image(bytes: &[u8]) -> (usize, usize, Vec<[u8; 3]>) {
    let text = std::str::from_utf8(bytes).unwrap();
    let mut lines = text.lines();
    assert_eq!(lines.next(), Some("P3"));
    let size: Vec<usize> =
        lines.next().unwrap().split(' ').map(|n| n.parse().unwrap()).collect();
    assert_eq!(lines.next(), Some("255"));
    let pixels: Vec<[u8; 3]> = lines
        .map(|line| {
            let c: Vec<u8> = line.split(' ').map(|n| n.parse().unwrap()).collect();
            assert_eq!(c.len(), 3);
            [c[0], c[1], c[2]]
        })
        .collect();
    assert!(text.ends_with('\n'));
    (size[0], size[1], pixels)
}

fn is_sky(pixel: [u8; 3]) -> bool {
    // White blended into (0.5, 0.7, 1.0), after the square root: blue is full and
    // red, the weakest channel, is at least the root of one half.
    pixel[2] == 255 && pixel[0] >= 181 && pixel[0] <= pixel[1]
}

#[test]
fn a_new_camera_has_the_default_settings() {
    let c = Camera::default();
    assert_eq!(f(c.aspect_ratio), 1.0);
    assert_eq!((c.image.width, c.image.height), (100, 0));
    assert_eq!(c.samples_per_pixel, 10);
    assert_eq!(c.max_depth, 10);
    assert_eq!(f(c.vertical_field_of_view), 90.0);
    assert_eq!(parts(c.look_from), [0.0, 0.0, -1.0]);
    assert_eq!(parts(c.look_at), [0.0, 0.0, 0.0]);
    assert_eq!(parts(c.vertical_up), [0.0, 1.0, 0.0]);
    assert_eq!(f(c.defocus_angle), 0.0);
    assert_eq!(f(c.focus_distance), 10.0);
    assert_eq!(parts(c.pixel00_loc), [0.0, 0.0, 0.0]);
}

#[test]
fn initializing_derives_the_frame() {
    let mut c = camera(400, 16.0 / 9.0, 1, 1);
    c.initialize();
    assert_eq!((c.image.width, c.image.height), (400, 225));
    assert_eq!(parts(c.center), [0.0, 0.0, 0.0]);
    assert!(close(parts(c.basis_w), [0.0, 0.0, 1.0]));
    assert!(close(parts(c.basis_u), [1.0, 0.0, 0.0]));
    assert!(close(parts(c.basis_v), [0.0, 1.0, 0.0]));
    // A view angle of 90 degrees at distance 1: the viewport is 2 high.
    let step = 2.0 / 225.0;
    assert!(close(parts(c.pixel_delta.width), [step, 0.0, 0.0]));
    assert!(close(parts(c.pixel_delta.height), [0.0, -step, 0.0]));
    let left = -(2.0 * 400.0 / 225.0) / 2.0 + step / 2.0;
    assert!(close(parts(c.pixel00_loc), [left, 1.0 - step / 2.0, -1.0]));
    assert!(close(parts(c.defocus_disk_u), [0.0, 0.0, 0.0]));
    // What the user set is kept.
    assert_eq!(c.samples_per_pixel, 1);
    assert_eq!(f(c.aspect_ratio), 16.0f32 / 9.0);
}

#[test]
fn the_image_is_at_least_one_pixel_high() {
    let mut c = camera(10, 100.0, 1, 1);
    c.initialize();
    assert_eq!(c.image.height, 1);
    let mut c = camera(100, 1.0, 1, 1);
    c.initialize();
    assert_eq!(c.image.height, 100);
    let mut c = camera(7, 2.0, 1, 1);
    c.initialize();
    assert_eq!(c.image.height, 3);
}

#[test]
fn the_lens_has_the_radius_that_the_defocus_angle_gives() {
    let mut c = camera(20, 1.0, 1, 1);
    c.defocus_angle = s(10.0);
    c.focus_distance = s(3.0);
    c.initialize();
    let radius = 3.0 * (5.0f32.to_radians()).tan();
    assert!(close(parts(c.defocus_disk_u), [radius, 0.0, 0.0]));
    assert!(close(parts(c.defocus_disk_v), [0.0, radius, 0.0]));
}

#[test]
fn a_ray_goes_from_the_center_through_its_pixel() {
    let mut c = camera(4, 1.0, 1, 1);
    c.initialize();
    let middle = PixelJitter { px: s(0.5), py: s(0.5), lens: v(0.0, 0.0, 0.0), time: s(0.25) };
    // The corner pixel, through its center.
    let ray = c.ray_through(0, 0, &middle);
    assert_eq!(parts(ray.origin), [0.0, 0.0, 0.0]);
    assert!(close(parts(ray.direction), [-0.75, 0.75, -1.0]));
    assert_eq!(f(ray.time), 0.25);
    let ray = c.ray_through(3, 3, &middle);
    assert!(close(parts(ray.direction), [0.75, -0.75, -1.0]));
    // The upper left corner of that pixel.
    let corner = PixelJitter { px: s(0.0), py: s(0.0), lens: v(0.0, 0.0, 0.0), time: s(0.0) };
    let ray = c.ray_through(3, 3, &corner);
    assert!(close(parts(ray.direction), [0.5, -0.5, -1.0]));
}

#[test]
fn with_defocus_a_ray_starts_on_the_lens_and_still_meets_its_pixel() {
    let mut c = camera(4, 1.0, 1, 1);
    c.defocus_angle = s(90.0);
    c.initialize();
    let jitter = PixelJitter { px: s(0.5), py: s(0.5), lens: v(0.5, -0.25, 0.0), time: s(0.0) };
    let ray = c.ray_through(0, 0, &jitter);
    assert!(close(parts(ray.origin), [0.5, -0.25, 0.0]));
    assert!(close(parts(ray.at(s(1.0))), [-0.75, 0.75, -1.0]));
}

#[test]
fn drawn_rays_pass_through_their_pixel() {
    let mut c = camera(4, 1.0, 1, 1);
    c.initialize();
    let mut rng = StdRng::seed_from_u64(12);
    for _ in 0..200 {
        let ray = c.get_ray(1, 2, &mut rng);
        assert_eq!(parts(ray.origin), [0.0, 0.0, 0.0]);
        let d = parts(ray.direction);
        assert!(-0.5 - 1e-5 <= d[0] && d[0] <= 0.0 + 1e-5);
        assert!(-0.5 - 1e-5 <= d[1] && d[1] <= 0.0 + 1e-5);
        assert!((d[2] + 1.0).abs() < 1e-5);
        assert!((0.0..1.0).contains(&f(ray.time)));
    }
    c.defocus_angle = s(20.0);
    c.initialize();
    let mut off_center = false;
    for _ in 0..50 {
        let ray = c.get_ray(1, 2, &mut rng);
        off_center |= parts(ray.origin) != [0.0, 0.0, 0.0];
        assert!(f(ray.origin.length()) < 1.0 * (10.0f32.to_radians()).tan() + 1e-5);
    }
    assert!(off_center);
}

#[test]
fn a_ray_out_of_bounces_brings_no_light() {
    let c = camera(4, 1.0, 1, 1);
    let world: HittableList<Sphere> = HittableList::new();
    let mut rng = StdRng::seed_from_u64(1);
    let ray = Ray::new(v(0.0, 0.0, 0.0), v(0.0, 1.0, 0.0), s(0.0));
    assert_eq!(parts(c.ray_color(&ray, 0, &world, &mut rng)), [0.0, 0.0, 0.0]);
    assert_eq!(parts(c.ray_color(&ray, -3, &world, &mut rng)), [0.0, 0.0, 0.0]);
}

#[test]
fn a_ray_that_hits_nothing_shows_the_sky() {
    let c = camera(4, 1.0, 1, 1);
    let world: HittableList<Sphere> = HittableList::new();
    let mut rng = StdRng::seed_from_u64(1);
    let up = Ray::new(v(0.0, 0.0, 0.0), v(0.0, 2.0, 0.0), s(0.0));
    assert_eq!(parts(c.ray_color(&up, 5, &world, &mut rng)), [0.5, 0.7, 1.0]);
    let down = Ray::new(v(0.0, 0.0, 0.0), v(0.0, -2.0, 0.0), s(0.0));
    assert_eq!(parts(c.ray_color(&down, 5, &world, &mut rng)), [1.0, 1.0, 1.0]);
    let level = Ray::new(v(0.0, 0.0, 0.0), v(3.0, 0.0, 0.0), s(0.0));
    assert_eq!(
        parts(c.ray_color(&level, 5, &world, &mut rng)),
        [0.5 + 0.5 * 0.5, 0.5 + 0.5 * 0.7, 1.0]
    );
}

#[test]
fn light_is_filtered_by_each_surface_it_leaves() {
    let c = camera(4, 1.0, 1, 1);
    // A polished mirror below the ray turns it up into the sky.
    let mut world = HittableList::new();
    let mirror = Surface::Metal(Metal::new(&v(0.5, 0.25, 1.0), s(0.0)));
    world.add(Sphere::new(v(0.0, -101.0, 0.0), s(100.0), mirror));
    let mut rng = StdRng::seed_from_u64(2);
    let down = Ray::new(v(0.0, 0.0, 0.0), v(0.0, -1.0, 0.0), s(0.0));
    // One bounce is used up by the hit: no light.
    assert_eq!(parts(c.ray_color(&down, 1, &world, &mut rng)), [0.0, 0.0, 0.0]);
    // With two, the reflected ray reaches the sky straight up.
    let lit = parts(c.ray_color(&down, 2, &world, &mut rng));
    assert!(close(lit, [0.5 * 0.5, 0.25 * 0.7, 1.0 * 1.0]));
}

#[test]
fn the_head_of_an_image_names_format_size_and_depth() {
    assert_eq!(String::from_utf8(header(400, 225)).unwrap(), "P3\n400 225\n255\n");
    assert_eq!(String::from_utf8(header(1, 1)).unwrap(), "P3\n1 1\n255\n");
    assert_eq!(String::from_utf8(header(0, 1)).unwrap(), "P3\n0 1\n255\n");
}

#[test]
fn an_empty_scene_renders_as_sky() {
    let mut c = camera(12, 1.5, 2, 5);
    let world: HittableList<Sphere> = HittableList::new();
    let mut logger = Logger::new();
    let mut rng = StdRng::seed_from_u64(5);
    c.render(&mut logger, &world, &mut rng);
    let (width, height, pixels) = read_image(&logger.stdout);
    assert_eq!((width, height), (12, 8));
    assert_eq!(pixels.len(), 96);
    assert!(pixels.iter().all(|p| is_sky(*p)));
    // The sky is bluer at the top of the image than at its bottom.
    let top: u32 = pixels[..12].iter().map(|p| p[0] as u32).sum();
    let bottom: u32 = pixels[84..].iter().map(|p| p[0] as u32).sum();
    assert!(top < bottom);
    let mut said = Vec::new();
    for remaining in (1..=8).rev() {
        said.extend_from_slice(format!("\rScanlines remaining: {}", remaining).as_bytes());
    }
    assert_eq!(logger.stderr, said);
}

#[test]
fn a_sphere_before_the_camera_shades_the_middle_of_the_image() {
    let render = |seed: u64| {
        let mut c = camera(16, 1.0, 1, 1);
        let mut world = HittableList::new();
        let matte = Surface::Lambertian(Lambertian { albedo: v(0.5, 0.5, 0.5) });
        world.add(Sphere::new(v(0.0, 0.0, -1.0), s(0.5), matte));
        let mut logger = Logger::new();
        let mut rng = StdRng::seed_from_u64(seed);
        c.render(&mut logger, &world, &mut rng);
        logger.stdout
    };
    let image = render(7);
    // The image is the same whenever the seed is.
    assert_eq!(image, render(7));
    let (width, height, pixels) = read_image(&image);
    assert_eq!((width, height), (16, 16));
    assert_eq!(pixels.len(), 256);
    let at = |row: usize, column: usize| pixels[row * 16 + column];
    // With a single bounce the sphere is in its own shade.
    for (row, column) in [(7, 7), (7, 8), (8, 7), (8, 8), (6, 8), (9, 7)] {
        assert_eq!(at(row, column), [0, 0, 0]);
    }
    // The border shows the sky.
    for k in 0..16 {
        assert!(is_sky(at(0, k)) && is_sky(at(15, k)) && is_sky(at(k, 0)) && is_sky(at(k, 15)));
    }
    // The outline of the sphere is a disk of radius tan 30 degrees on a viewport
    // two units wide: about a quarter of the image.
    let shaded = pixels.iter().filter(|p| **p == [0, 0, 0]).count();
    assert!(shaded >= 58 && shaded <= 76, "{}", shaded);
    assert!(pixels.iter().all(|p| *p == [0, 0, 0] || is_sky(*p)));
}

#[test]
fn more_bounces_let_light_reach_a_matte_sphere() {
    let mut c = camera(8, 1.0, 4, 8);
    let mut world = HittableList::new();
    let matte = Surface::Lambertian(Lambertian { albedo: v(0.5, 0.5, 0.5) });
    world.add(Sphere::new(v(0.0, 0.0, -1.0), s(0.5), matte));
    let mut logger = Logger::new();
    let mut rng = StdRng::seed_from_u64(3);
    c.render(&mut logger, &world, &mut rng);
    let (_, _, pixels) = read_image(&logger.stdout);
    let middle = pixels[3 * 8 + 4];
    assert!(middle != [0, 0, 0]);
    assert!(middle[2] < 255);
}

#[test]
fn a_render_adds_to_what_the_logger_holds() {
    let mut c = camera(2, 1.0, 1, 1);
    let world: HittableList<Sphere> = HittableList::new();
    let mut logger = Logger::new();
    logger.stdout = b"# before\n".to_vec();
    logger.stderr = b"kept".to_vec();
    let mut rng = StdRng::seed_from_u64(5);
    c.render(&mut logger, &world, &mut rng);
    assert!(logger.stdout.starts_with(b"# before\nP3\n2 2\n255\n"));
    assert_eq!(
        logger.stderr,
        b"kept\rScanlines remaining: 2\rScanlines remaining: 1".to_vec()
    );
    let (_, _, pixels) = read_image(&logger.stdout[9..]);
    assert_eq!(pixels.len(), 4);
}

#[test]
fn the_light_of_a_pixel_is_the_sum_over_its_samples() {
    let mut c = camera(4, 1.0, 3, 5);
    c.initialize();
    let world: HittableList<Sphere> = HittableList::new();
    let mut rng = StdRng::seed_from_u64(21);
    // Every sample shows the sky, whose blue channel is 1.
    let sum = c.pixel_sum(1, 2, &world, &mut rng);
    assert_eq!(f(sum.z), 3.0);
    assert!(f(sum.x) > 1.5 && f(sum.x) < 3.0);
    c.samples_per_pixel = 0;
    assert_eq!(parts(c.pixel_sum(1, 2, &world, &mut rng)), [0.0, 0.0, 0.0]);
    c.samples_per_pixel = -4;
    assert_eq!(parts(c.pixel_sum(1, 2, &world, &mut rng)), [0.0, 0.0, 0.0]);
}

#[test]
fn the_progress_message_counts_the_rows_to_come() {
    assert_eq!(progress(225), b"\rScanlines remaining: 225".to_vec());
    assert_eq!(progress(1), b"\rScanlines remaining: 1".to_vec());
    assert_eq!(progress(0), b"\rScanlines remaining: 0".to_vec());
}

#[test]
fn rows_rendered_one_by_one_make_the_image() {
    let scene = || {
        let mut world = HittableList::new();
        let matte = Surface::Lambertian(Lambertian { albedo: v(0.5, 0.5, 0.5) });
        world.add(Sphere::new(v(0.0, 0.0, -1.0), s(0.5), matte));
        world
    };
    let mut whole = camera(6, 1.5, 2, 3);
    let mut logger = Logger::new();
    let mut rng = StdRng::seed_from_u64(11);
    whole.render(&mut logger, &scene(), &mut rng);

    let mut by_rows = camera(6, 1.5, 2, 3);
    by_rows.initialize();
    let mut stream = header(by_rows.image.width, by_rows.image.height);
    let mut rng = StdRng::seed_from_u64(11);
    let world = scene();
    for j in 0..by_rows.image.height {
        let before = stream.len();
        by_rows.render_row(j, &mut stream, &world, &mut rng);
        let row = std::str::from_utf8(&stream[before..]).unwrap();
        assert_eq!(row.lines().count(), 6);
    }
    assert_eq!(stream, logger.stdout);
}
