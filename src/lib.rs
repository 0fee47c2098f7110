//! A path tracer over saturating fixed-point numbers: vector algebra, rays,
//! spheres, materials, a camera, the recursive integrator and the row-band
//! renderer, with their behaviour stated and proved.
pub mod basic_renderer;
pub mod camera;
pub mod fixed;
pub mod hit_record;
pub mod hittable;
pub mod integrator;
pub mod material;
pub mod random;
pub mod ray;
pub mod render;
pub mod scene;
pub mod sphere;
pub mod utils;
pub mod vec3;

pub use basic_renderer::BasicRenderer;
pub use camera::Camera;
pub use hit_record::HitRecord;
pub use hittable::{Hittable, HittableList};
pub use material::{Dielectric, Lambertian, Material, Metal, ScatterRecord};
pub use ray::Ray;
pub use sphere::Sphere;
pub use vec3::{Color, Point3, Vec3};
