use rand::rngs::SmallRng;
use rand::{Rng, SeedableRng};
use raytracer::camera::Camera;
use raytracer::fixed::ONE;
use raytracer::integrator::{background, ray_color, shade};
use raytracer::render::{finish_pixel, pixel_from_colors, render_band, BYTE_SCALE};
use raytracer::scene::example_scene;
use raytracer::utils::{clamp3, COLOR_MAX};
use raytracer::{BasicRenderer, HittableList, Lambertian, Material, Ray, Sphere, Vec3};

fn fx(v: f64) -> i64 {
    (v * ONE as f64) as i64
}

fn one_sphere_world() -> HittableList {
    let m = Material::Lambertian(Lambertian::new(Vec3::new(ONE / 2, ONE / 2, ONE / 2)));
    HittableList::new(vec![Sphere::new(Vec3::new(0, 0, -ONE), ONE / 2, m)])
}

fn axis_camera() -> Camera {
    // 90 degrees of vertical field of view: tan(45 degrees) = 1
    Camera::new(Vec3::zero(), Vec3::new(0, 0, -ONE), Vec3::new(0, ONE, 0), ONE, 2 * ONE, 0, ONE)
}

#[test]
fn depth_zero_is_black() {
    let mut rng = SmallRng::seed_from_u64(3);
    let world = one_sphere_world();
    for dir in [Vec3::new(0, 0, -ONE), Vec3::new(0, ONE, 0), Vec3::new(ONE, -ONE, ONE)] {
        let c = ray_color(&world, &Ray::new(Vec3::zero(), dir), 0, &mut rng);
        assert_eq!(c, Vec3::zero());
    }
}

#[test]
fn missed_ray_sees_sky() {
    let mut rng = SmallRng::seed_from_u64(3);
    let world = one_sphere_world();
    let up = Ray::new(Vec3::zero(), Vec3::new(0, ONE, 0));
    assert_eq!(ray_color(&world, &up, 5, &mut rng), Vec3::new(fx(0.5), fx(0.7), COLOR_MAX));
    let down = Ray::new(Vec3::zero(), Vec3::new(0, -ONE, 0));
    assert_eq!(ray_color(&world, &down, 5, &mut rng), Vec3::new(COLOR_MAX, COLOR_MAX, COLOR_MAX));
}

#[test]
fn shade_combines_bounce() {
    let ray = Ray::new(Vec3::zero(), Vec3::new(0, ONE, 0));
    assert_eq!(shade(&ray, &None, &None, Vec3::zero()), clamp3(background(&ray)));
    let rec = one_sphere_world().hit(&Ray::new(Vec3::zero(), Vec3::new(0, 0, -ONE)), 1, i64::MAX);
    assert!(rec.is_some());
    assert_eq!(shade(&ray, &rec, &None, Vec3::ones()), Vec3::zero());
    let sr = Some(raytracer::ScatterRecord::Diffuse { scattered: ray, attenuation: Vec3::new(ONE / 2, ONE, 2 * ONE) });
    let c = Vec3::new(ONE / 2, ONE / 2, ONE / 2);
    assert_eq!(shade(&ray, &rec, &sr, c), Vec3::new(ONE / 4, ONE / 2, COLOR_MAX));
}

#[test]
fn preview_center_hits_and_corner_sees_background() {
    let world = one_sphere_world();
    let cam = axis_camera();
    let center = cam.get_ray_with(ONE / 2, ONE / 2, Vec3::zero());
    assert_eq!(center.direction, Vec3::new(0, 0, -ONE));
    let c = BasicRenderer::ray_color(&world, &center);
    // the hit point (0, 0, -0.5) is shaded by its normal (0, 0, 1): (0.5, 0.5, 1) clamped
    assert_eq!(c, Vec3::new(fx(0.5), fx(0.5), COLOR_MAX).scale(BYTE_SCALE));
    let corner = cam.get_ray_with(0, 0, Vec3::zero());
    let c = BasicRenderer::ray_color(&world, &corner);
    assert_eq!(c, clamp3(background(&corner)).scale(BYTE_SCALE));
    // the sky formula: t = (unit(dir).y + 1) / 2, white blended to (0.5, 0.7, 1)
    let d = corner.direction;
    let (dx, dy, dz) = (d.x as f64, d.y as f64, d.z as f64);
    let t = 0.5 * (dy / (dx * dx + dy * dy + dz * dz).sqrt() + 1.0);
    let expected = [(1.0 - t) + 0.5 * t, (1.0 - t) + 0.7 * t, 1.0f64.min(0.999)];
    let got = [c.x, c.y, c.z];
    for k in 0..3 {
        let e = expected[k].min(0.999) * 255.999;
        assert!((got[k] as f64 / ONE as f64 - e).abs() < 0.01, "{} {}", got[k], e);
    }
}

#[test]
fn integrator_center_pixel_hits_sphere() {
    let mut rng = SmallRng::seed_from_u64(11);
    let world = one_sphere_world();
    let cam = axis_camera();
    let center = cam.get_ray(ONE / 2, ONE / 2, &mut rng);
    let corner = cam.get_ray(0, 0, &mut rng);
    let c = ray_color(&world, &center, 10, &mut rng);
    assert_ne!(c, clamp3(background(&center)));
    let k = ray_color(&world, &corner, 10, &mut rng);
    assert_eq!(k, clamp3(background(&corner)));
}

#[test]
fn lambertian_ground_converges_to_sky_average() {
    // a huge diffuse ground lit only by the sky: one bounce, cosine-weighted,
    // so the mean of unit(dir).y is 2/3 and the mean blend factor is 5/6
    let albedo = 0.5;
    let m = Material::Lambertian(Lambertian::new(Vec3::new(fx(albedo), fx(albedo), fx(albedo))));
    let world = HittableList::new(vec![Sphere::new(Vec3::new(0, -1000 * ONE, 0), 1000 * ONE, m)]);
    let ray = Ray::new(Vec3::new(0, ONE, 0), Vec3::new(0, -ONE, 0));
    let mut rng = SmallRng::seed_from_u64(5);
    let n = 20000;
    let mut sum = [0f64; 3];
    for _ in 0..n {
        let c = ray_color(&world, &ray, 50, &mut rng);
        sum[0] += c.x as f64 / ONE as f64;
        sum[1] += c.y as f64 / ONE as f64;
        sum[2] += c.z as f64 / ONE as f64;
    }
    let expected = [albedo * 7.0 / 12.0, albedo * 0.75, albedo * 0.999];
    for k in 0..3 {
        let mean = sum[k] / n as f64;
        assert!((mean - expected[k]).abs() <= 0.02 * expected[k], "channel {}: {} vs {}", k, mean, expected[k]);
    }
}

#[test]
fn finish_pixel_gamma() {
    assert_eq!(finish_pixel(Vec3::new(ONE / 4, 0, COLOR_MAX), 1), (127, 0, 255));
    assert_eq!(finish_pixel(Vec3::new(ONE, ONE / 2, 2 * COLOR_MAX), 4), (127, 90, 180));
}

#[test]
fn band_has_requested_shape() {
    let mut rng = SmallRng::seed_from_u64(2);
    let world = one_sphere_world();
    let cam = axis_camera();
    let band = render_band(&world, &cam, 8, 4, 2, 5, 1, 3, &mut rng);
    assert_eq!((band.row_begin, band.row_end), (1, 3));
    assert_eq!(band.rows.len(), 2);
    assert!(band.rows.iter().all(|r| r.len() == 24));
}

#[test]
fn example_scene_layout() {
    let mut rng = SmallRng::seed_from_u64(9);
    let s = example_scene(&mut rng);
    let n = s.hittables.len();
    assert!(n >= 4 && n <= 488);
    assert_eq!(s.hittables[0].radius, 1000 * ONE);
    assert_eq!(s.hittables[n - 1].center, Vec3::new(4 * ONE, ONE, 0));
    assert!(s.hittables[1..n - 3].iter().all(|x| x.radius == fx(0.2)));
}

#[test]
fn pixel_from_sample_colors() {
    let colors = vec![Vec3::new(ONE / 4, 0, COLOR_MAX), Vec3::new(ONE / 4, ONE / 2, COLOR_MAX)];
    // mean (0.25, 0.25, 0.999): sqrt gives (0.5, 0.5, 0.9995)
    assert_eq!(pixel_from_colors(&colors, 2), (127, 127, 255));
    assert_eq!(pixel_from_colors(&vec![], 1), (0, 0, 0));
}

#[test]
fn ray_color_leaves_rng_alone_on_miss_and_depth_zero() {
    let world = one_sphere_world();
    let up = Ray::new(Vec3::zero(), Vec3::new(0, ONE, 0));
    let mut a = SmallRng::seed_from_u64(21);
    let mut b = SmallRng::seed_from_u64(21);
    ray_color(&world, &up, 7, &mut a);
    ray_color(&world, &Ray::new(Vec3::zero(), Vec3::new(0, 0, -ONE)), 0, &mut a);
    assert_eq!(a.gen::<u64>(), b.gen::<u64>());
}
