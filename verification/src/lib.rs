pub mod scalar;
pub mod util;
pub mod axis;
pub mod vec;
pub mod interval;
pub mod ray;
pub mod aabb;
pub mod logger;
pub mod color;
pub mod material;
pub mod lambertian;
pub mod metal;
pub mod dielectric;
pub mod hit_record;
pub mod hittable;
pub mod sphere;
pub mod hittable_list;
pub mod bvh;
pub mod nearest;
pub mod camera;
pub mod scene;
pub mod shape;
