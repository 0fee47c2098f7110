use raytracer::fixed::ONE;
use raytracer::{Point3, Ray, Vec3};

fn p(x: i64, y: i64, z: i64) -> Vec3 {
    Vec3::new(x * ONE, y * ONE, z * ONE)
}

#[test]
fn test_new() {
    assert_eq!(
        Ray::new(Point3::new(ONE, 2 * ONE, 3 * ONE), Vec3::new(3 * ONE, 4 * ONE, 5 * ONE)),
        Ray::new(Point3::new(ONE, 2 * ONE, 3 * ONE), Vec3::new(3 * ONE, 4 * ONE, 5 * ONE))
    );
}

#[test]
fn test_at() {
    let r1 = Ray::new(p(1, 2, 3), p(3, 4, 5));
    assert_eq!(r1.at(3 * ONE), p(10, 14, 18));
}

#[test]
fn at_half_step() {
    let r = Ray::new(p(0, 0, 0), p(0, 0, -1));
    assert_eq!(r.at(ONE / 2), Vec3::new(0, 0, -ONE / 2));
}
