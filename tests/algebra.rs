use raytracer::fixed::{fadd, fdiv, fmul, fneg, fsqrt, fsub, MAXV, ONE};
use raytracer::utils::{clamp, clamp3, reflect, reflectance, refract, COLOR_MAX};
use raytracer::Vec3;

fn fx(v: f64) -> i64 {
    (v * ONE as f64) as i64
}

fn close(a: i64, b: i64, tol: i64) -> bool {
    (a - b).abs() <= tol
}

#[test]
fn fixed_mul_and_div() {
    assert_eq!(fmul(3 * ONE, ONE / 2), 3 * ONE / 2);
    assert_eq!(fmul(-3 * ONE, ONE / 2), -3 * ONE / 2);
    assert_eq!(fdiv(ONE, 4 * ONE), ONE / 4);
    assert_eq!(fdiv(-ONE, 4 * ONE), -ONE / 4);
    assert_eq!(fdiv(ONE, -4 * ONE), -ONE / 4);
    assert_eq!(fdiv(5 * ONE, 0), 0);
    // rounding goes toward zero
    assert_eq!(fdiv(ONE, 3 * ONE), 21845);
    assert_eq!(fdiv(-ONE, 3 * ONE), -21845);
}

#[test]
fn fixed_saturates() {
    assert_eq!(fadd(MAXV, MAXV), MAXV);
    assert_eq!(fsub(-MAXV, MAXV), -MAXV);
    assert_eq!(fneg(i64::MIN), MAXV);
    assert_eq!(fmul(MAXV, 4 * ONE), MAXV);
}

#[test]
fn fixed_sqrt() {
    assert_eq!(fsqrt(4 * ONE), 2 * ONE);
    assert_eq!(fsqrt(ONE / 4), ONE / 2);
    assert_eq!(fsqrt(2 * ONE), 92681);
    assert_eq!(fsqrt(-ONE), 0);
    assert_eq!(fsqrt(0), 0);
}

#[test]
fn vector_products() {
    let x = Vec3::new(ONE, 0, 0);
    let y = Vec3::new(0, ONE, 0);
    assert_eq!(x.cross(y), Vec3::new(0, 0, ONE));
    assert_eq!(y.cross(x), Vec3::new(0, 0, -ONE));
    let a = Vec3::new(ONE, 2 * ONE, 3 * ONE);
    let b = Vec3::new(4 * ONE, -5 * ONE, 6 * ONE);
    assert_eq!(a.dot(b), 12 * ONE);
    assert_eq!(a.squared_length(), 14 * ONE);
    assert_eq!(a.add(b), Vec3::new(5 * ONE, -3 * ONE, 9 * ONE));
    assert_eq!(a.sub(b), Vec3::new(-3 * ONE, 7 * ONE, -3 * ONE));
    assert_eq!(a.elemul(b), Vec3::new(4 * ONE, -10 * ONE, 18 * ONE));
    assert_eq!(a.neg(), Vec3::new(-ONE, -2 * ONE, -3 * ONE));
}

#[test]
fn unit_and_length() {
    let v = Vec3::new(3 * ONE, 4 * ONE, 0);
    assert_eq!(v.length(), 5 * ONE);
    assert_eq!(v.unit(), Vec3::new(39321, 52428, 0));
    assert_eq!(Vec3::zero().unit(), Vec3::zero());
}

#[test]
fn unit_of_unit_vector_is_itself() {
    for v in [Vec3::new(ONE, 0, 0), Vec3::new(0, -ONE, 0), Vec3::new(0, 0, ONE)] {
        assert_eq!(v.unit(), v);
    }
    let u = Vec3::new(3 * ONE, 4 * ONE, 12 * ONE).unit();
    let uu = u.unit();
    assert!(close(uu.x, u.x, 2) && close(uu.y, u.y, 2) && close(uu.z, u.z, 2));
}

#[test]
fn clamp_bounds() {
    assert_eq!(clamp(5, 0, 3), 3);
    assert_eq!(clamp(-5, 0, 3), 0);
    assert_eq!(clamp(2, 0, 3), 2);
    let c = clamp3(Vec3::new(-ONE, 2 * ONE, ONE / 2));
    assert_eq!(c, Vec3::new(0, COLOR_MAX, ONE / 2));
    assert_eq!(COLOR_MAX, fx(0.999));
}

#[test]
fn reflect_mirrors() {
    let v = Vec3::new(ONE, -ONE, 0);
    let n = Vec3::new(0, ONE, 0);
    assert_eq!(reflect(v, n), Vec3::new(ONE, ONE, 0));
}

#[test]
fn refract_without_index_change_keeps_direction() {
    let n = Vec3::new(0, ONE, 0);
    for dir in [Vec3::new(ONE, -ONE, 0), Vec3::new(0, -ONE, 0), Vec3::new(ONE, -2 * ONE, ONE / 3)] {
        let uv = dir.unit();
        let r = refract(uv, n, ONE);
        assert!(close(r.x, uv.x, 16) && close(r.y, uv.y, 16) && close(r.z, uv.z, 16), "{:?} {:?}", r, uv);
    }
}

#[test]
fn reflectance_values() {
    // normal incidence on glass: r0 = (0.5 / 2.5)^2 = 0.04
    assert!(close(reflectance(ONE, fx(1.5)), fx(0.04), 2));
    // grazing incidence reflects everything
    assert!(close(reflectance(0, fx(1.5)), ONE, 2));
}
