use raytracer::aabb::AABB;
use raytracer::hit_record::HitRecord;
use raytracer::hittable::Hittable;
use raytracer::interval::Interval;
use raytracer::lambertian::Lambertian;
use raytracer::material::Surface;
use raytracer::metal::Metal;
use raytracer::ray::Ray;
use raytracer::scalar::Scalar;
use raytracer::sphere::Sphere;
use raytracer::vec::Vec3;

fn s(x: f32) -> Scalar {
    Scalar::from_bits(x.to_bits())
}

fn f(x: Scalar) -> f32 {
    f32::from_bits(x.to_bits())
}

fn v(x: f32, y: f32, z: f32) -> Vec3 {
    Vec3::new(s(x), s(y), s(z))
}

fn parts(a: Vec3) -> [f32; 3] {
    [f(a.x), f(a.y), f(a.z)]
}

fn i(min: f32, max: f32) -> Interval {
    Interval::new(s(min), s(max))
}

fn grey() -> Surface {
    Surface::Lambertian(Lambertian { albedo: v(0.5, 0.5, 0.5) })
}

fn close(a: f32, b: f32) -> bool {
    (a - b).abs() <= 1e-5 * (1.0 + b.abs())
}

#[test]
fn a_ray_at_rest_is_the_default() {
    let r = Ray::default();
    assert_eq!(r, Ray::new(v(0.0, 0.0, 0.0), v(0.0, 0.0, 0.0), s(0.0)));
}

#[test]
fn a_ray_reaches_the_point_at_its_parameter() {
    let r = Ray::new(v(1.0, 2.0, 3.0), v(0.5, -1.0, 2.0), s(0.25));
    assert_eq!(parts(r.at(s(2.0))), [1.0 + 2.0 * 0.5, 2.0 + 2.0 * -1.0, 3.0 + 2.0 * 2.0]);
    assert_eq!(parts(r.at(s(0.0))), [1.0, 2.0, 3.0]);
    assert_eq!(parts(r.at(s(-1.0))), [0.5, 3.0, 1.0]);
}

#[test]
fn a_ray_through_the_center_enters_and_leaves_at_distance_minus_and_plus_radius() {
    let cases = [
        ([0.0f32, 0.0, 0.0], [0.0f32, 0.0, -1.0], 0.5f32),
        ([1.0, 2.0, 3.0], [-4.0, 0.5, 7.0], 2.0),
        ([-10.0, 0.0, 0.0], [10.0, 0.0, 0.0], 3.0),
        ([0.0, 5.0, 0.0], [0.3, -0.2, 0.9], 0.25),
    ];
    for (origin, center, radius) in cases {
        let sphere = Sphere::new(v(center[0], center[1], center[2]), s(radius), grey());
        let to_center = [center[0] - origin[0], center[1] - origin[1], center[2] - origin[2]];
        let distance =
            (to_center[0].powi(2) + to_center[1].powi(2) + to_center[2].powi(2)).sqrt();
        // A unit direction, so that the ray parameter is a distance.
        let direction = v(to_center[0] / distance, to_center[1] / distance, to_center[2] / distance);
        let ray = Ray::new(v(origin[0], origin[1], origin[2]), direction, s(0.0));

        let mut entering = HitRecord::default();
        assert!(sphere.hit(&ray, i(0.001, f32::INFINITY), &mut entering));
        assert!(close(f(entering.time), distance - radius));
        assert!(entering.front_face);

        // Beyond the first intersection only the second one is left.
        let mut leaving = HitRecord::default();
        assert!(sphere.hit(&ray, Interval::new(entering.time, s(f32::INFINITY)), &mut leaving));
        assert!(close(f(leaving.time), distance + radius));
        assert!(!leaving.front_face);

        // Short of the first intersection there is none.
        let mut none = HitRecord::default();
        assert!(!sphere.hit(&ray, Interval::new(s(0.001), entering.time), &mut none));
    }
}

#[test]
fn the_record_of_a_hit_holds_point_normal_and_material() {
    let metal = Surface::Metal(Metal::new(&v(0.8, 0.6, 0.2), s(0.3)));
    let sphere = Sphere::new(v(0.0, 0.0, -1.0), s(0.5), metal);
    let ray = Ray::new(v(0.0, 0.0, 0.0), v(0.0, 0.0, -1.0), s(0.0));
    let mut record = HitRecord::default();
    assert!(sphere.hit(&ray, i(0.001, f32::INFINITY), &mut record));
    assert_eq!(f(record.time), 0.5);
    assert_eq!(parts(record.point), [0.0, 0.0, -0.5]);
    assert_eq!(parts(record.normal), [0.0, 0.0, 1.0]);
    assert!(record.front_face);
    assert_eq!(record.material, metal);
}

#[test]
fn from_inside_the_normal_is_turned_against_the_ray() {
    let sphere = Sphere::new(v(0.0, 0.0, 0.0), s(2.0), grey());
    let ray = Ray::new(v(0.0, 0.0, 0.0), v(1.0, 0.0, 0.0), s(0.0));
    let mut record = HitRecord::default();
    assert!(sphere.hit(&ray, i(0.001, f32::INFINITY), &mut record));
    assert_eq!(f(record.time), 2.0);
    assert_eq!(parts(record.normal), [-1.0, -0.0, -0.0]);
    assert!(!record.front_face);
}

#[test]
fn a_negative_radius_turns_the_normal_inward() {
    let hollow = Sphere::new(v(0.0, 0.0, -1.0), s(-0.5), grey());
    let ray = Ray::new(v(0.0, 0.0, 0.0), v(0.0, 0.0, -1.0), s(0.0));
    let mut record = HitRecord::default();
    assert!(hollow.hit(&ray, i(0.001, f32::INFINITY), &mut record));
    assert_eq!(f(record.time), 0.5);
    // The geometric normal points inward, so the ray counts as coming from inside.
    assert!(!record.front_face);
    assert_eq!(parts(record.normal), [0.0, 0.0, 1.0]);
}

#[test]
fn a_ray_that_passes_by_misses_the_sphere() {
    let sphere = Sphere::new(v(0.0, 0.0, -1.0), s(0.5), grey());
    let mut record = HitRecord::default();
    let beside = Ray::new(v(0.0, 0.0, 0.0), v(1.0, 0.0, -1.0), s(0.0));
    assert!(!sphere.hit(&beside, i(0.001, f32::INFINITY), &mut record));
    let away = Ray::new(v(0.0, 0.0, 0.0), v(0.0, 0.0, 1.0), s(0.0));
    assert!(!sphere.hit(&away, i(0.001, f32::INFINITY), &mut record));
    assert_eq!(record, HitRecord::default());
}

#[test]
fn an_intersection_at_the_very_start_of_the_range_does_not_count() {
    let sphere = Sphere::new(v(0.0, 0.0, -1.0), s(0.5), grey());
    let ray = Ray::new(v(0.0, 0.0, 0.0), v(0.0, 0.0, -1.0), s(0.0));
    let mut record = HitRecord::default();
    assert!(sphere.hit(&ray, i(0.5, f32::INFINITY), &mut record));
    assert_eq!(f(record.time), 1.5);
    assert!(!sphere.hit(&ray, i(1.5, f32::INFINITY), &mut record));
    assert!(!sphere.hit(&ray, i(0.5, 1.5), &mut record));
}

#[test]
fn the_box_of_a_sphere_spans_center_plus_and_minus_radius() {
    let sphere = Sphere::new(v(1.0, 2.0, 3.0), s(0.5), grey());
    let expected = AABB::from_points(&v(0.5, 1.5, 2.5), &v(1.5, 2.5, 3.5));
    assert_eq!(sphere.bounding_box(), expected);
    let hollow = Sphere::new(v(1.0, 2.0, 3.0), s(-0.5), grey());
    assert_eq!(hollow.bounding_box(), expected);
}

#[test]
fn a_moving_sphere_is_hit_where_it_is_at_the_time_of_the_ray() {
    let sphere = Sphere::new_moving(v(0.0, 0.0, -1.0), v(2.0, 0.0, -1.0), s(0.5), grey());
    assert_eq!(sphere.motion, Some(v(2.0, 0.0, 0.0)));
    let down = v(0.0, 0.0, -1.0);
    let mut record = HitRecord::default();
    // At the start of the frame the sphere is at x = 0.
    assert!(sphere.hit(&Ray::new(v(0.0, 0.0, 0.0), down, s(0.0)), i(0.001, 1e9), &mut record));
    assert_eq!(f(record.time), 0.5);
    assert!(!sphere.hit(&Ray::new(v(2.0, 0.0, 0.0), down, s(0.0)), i(0.001, 1e9), &mut record));
    // At the end it is at x = 2.
    assert!(sphere.hit(&Ray::new(v(2.0, 0.0, 0.0), down, s(1.0)), i(0.001, 1e9), &mut record));
    assert_eq!(f(record.time), 0.5);
    assert!(!sphere.hit(&Ray::new(v(0.0, 0.0, 0.0), down, s(1.0)), i(0.001, 1e9), &mut record));
    // Half way it is at x = 1.
    assert!(sphere.hit(&Ray::new(v(1.0, 0.0, 0.0), down, s(0.5)), i(0.001, 1e9), &mut record));
    assert_eq!(parts(record.point), [1.0, 0.0, -0.5]);
    // Its box covers the whole way.
    let expected = AABB::from_points(&v(-0.5, -0.5, -1.5), &v(2.5, 0.5, -0.5));
    assert_eq!(sphere.bounding_box(), expected);
}

#[test]
fn the_face_normal_is_set_against_the_ray() {
    let ray = Ray::new(v(0.0, 0.0, 0.0), v(0.0, 0.0, -1.0), s(0.0));
    let mut record = HitRecord::default();
    record.set_face_normal(&ray, &v(0.0, 0.0, 1.0));
    assert!(record.front_face);
    assert_eq!(parts(record.normal), [0.0, 0.0, 1.0]);
    record.set_face_normal(&ray, &v(0.0, 0.0, -1.0));
    assert!(!record.front_face);
    assert_eq!(parts(record.normal), [0.0, 0.0, 1.0]);
    // A ray that grazes the surface counts as coming from inside.
    record.set_face_normal(&ray, &v(1.0, 0.0, 0.0));
    assert!(!record.front_face);
    assert_eq!(parts(record.normal), [-1.0, -0.0, -0.0]);
}

#[test]
fn a_blank_record_is_black_and_diffuse() {
    let record = HitRecord::default();
    assert_eq!(record.material, Surface::Lambertian(Lambertian { albedo: v(0.0, 0.0, 0.0) }));
    assert_eq!(parts(record.point), [0.0, 0.0, 0.0]);
    assert_eq!(f(record.time), 0.0);
    assert!(!record.front_face);
}
