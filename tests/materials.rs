use rand::rngs::SmallRng;
use rand::SeedableRng;
use raytracer::fixed::ONE;
use raytracer::random::{first_in_shell_of, random_in_unit_sphere, random_unit_interval, random_unit_vector, MIN_SAMPLE_LEN};
use raytracer::{Dielectric, HitRecord, Lambertian, Material, Metal, Ray, ScatterRecord, Vec3};

fn record(normal: Vec3, front: bool, material: Material) -> HitRecord {
    HitRecord { p: Vec3::new(ONE, 2 * ONE, 0), normal, t: ONE, front, material }
}

fn up() -> Vec3 {
    Vec3::new(0, ONE, 0)
}

#[test]
fn lambertian_scatters_around_normal() {
    let albedo = Vec3::new(ONE / 2, ONE / 4, ONE / 8);
    let l = Lambertian::new(albedo);
    let rec = record(up(), true, Material::Lambertian(l));
    let sample = Vec3::new(ONE, 0, 0);
    match l.scatter_with(&rec, sample).unwrap() {
        ScatterRecord::Diffuse { scattered, attenuation } => {
            assert_eq!(scattered.origin, rec.p);
            assert_eq!(scattered.direction, Vec3::new(ONE, ONE, 0));
            assert_eq!(attenuation, albedo);
        }
        _ => panic!("diffuse expected"),
    }
}

#[test]
fn metal_mirror_reflection() {
    let albedo = Vec3::new(ONE / 2, ONE / 2, ONE / 2);
    let m = Metal::new(albedo, 0);
    let rec = record(up(), true, Material::Metal(m));
    let ray_in = Ray::new(Vec3::zero(), Vec3::new(ONE, -ONE, 0));
    let s = m.scatter_with(&ray_in, &rec, Vec3::zero()).unwrap();
    let u = ray_in.direction.unit();
    assert_eq!(s.ray().direction, Vec3::new(u.x, -u.y, 0));
    assert_eq!(s.ray().origin, rec.p);
    assert_eq!(s.attenuation(), albedo);
    assert!(matches!(s, ScatterRecord::Specular { .. }));
}

#[test]
fn metal_absorbs_fuzz_into_surface() {
    let m = Metal::new(Vec3::ones(), ONE);
    let rec = record(up(), true, Material::Metal(m));
    let ray_in = Ray::new(Vec3::zero(), Vec3::new(ONE, -ONE / 100, 0));
    assert!(m.scatter_with(&ray_in, &rec, Vec3::new(0, -9 * ONE / 10, 0)).is_none());
}

#[test]
fn metal_never_scatters_into_surface() {
    let mut rng = SmallRng::seed_from_u64(7);
    let m = Material::Metal(Metal::new(Vec3::ones(), ONE));
    let n = Vec3::new(0, 0, ONE);
    let rec = record(n, true, m);
    let mut absorbed = 0;
    for i in 0..2000i64 {
        let ray_in = Ray::new(Vec3::zero(), Vec3::new(ONE, i * 37 - 40000, -(i % 50 + 1) * ONE / 50));
        match m.scatter(&ray_in, &rec, &mut rng) {
            Some(s) => assert!(s.ray().direction.dot(n) > 0),
            None => absorbed += 1,
        }
    }
    assert!(absorbed > 0);
}

#[test]
fn dielectric_refracts_straight_through_at_normal_incidence() {
    let d = Dielectric::new(3 * ONE / 2);
    let rec = record(up(), true, Material::Dielectric(d));
    let ray_in = Ray::new(Vec3::new(0, 3 * ONE, 0), Vec3::new(0, -ONE, 0));
    // a draw above the reflectance (0.04) refracts
    let s = d.scatter_with(&ray_in, &rec, ONE / 2).unwrap();
    assert_eq!(s.ray().direction, Vec3::new(0, -ONE, 0));
    assert_eq!(s.attenuation(), Vec3::ones());
    // a draw below it reflects
    let s = d.scatter_with(&ray_in, &rec, 0).unwrap();
    assert_eq!(s.ray().direction, Vec3::new(0, ONE, 0));
}

#[test]
fn dielectric_total_internal_reflection() {
    let d = Dielectric::new(3 * ONE / 2);
    // leaving the glass at a grazing angle, from the inside
    let rec = record(up(), false, Material::Dielectric(d));
    let ray_in = Ray::new(Vec3::zero(), Vec3::new(ONE, ONE / 4, 0));
    let s = d.scatter_with(&ray_in, &rec, ONE - 1).unwrap();
    let u = ray_in.direction.unit();
    assert_eq!(s.ray().direction, Vec3::new(u.x, -u.y, 0));
}

#[test]
fn random_draws_stay_in_range_and_vary() {
    let mut rng = SmallRng::seed_from_u64(1);
    let mut values = Vec::new();
    for _ in 0..200 {
        let u = random_unit_interval(&mut rng);
        assert!((0..ONE).contains(&u));
        values.push(u);
        let p = random_in_unit_sphere(&mut rng);
        assert!(p.length() < ONE);
    }
    values.sort();
    values.dedup();
    assert!(values.len() > 150);
}

#[test]
fn first_in_shell_picks_first_accepted() {
    let draws = vec![
        Vec3::new(ONE - 1, ONE - 1, 0),
        Vec3::new(ONE / 100, 0, 0),
        Vec3::new(ONE / 2, 0, 0),
        Vec3::new(0, ONE / 3, 0),
    ];
    assert_eq!(first_in_shell_of(&draws, 0), Some(Vec3::new(ONE / 100, 0, 0)));
    assert_eq!(first_in_shell_of(&draws, MIN_SAMPLE_LEN), Some(Vec3::new(ONE / 2, 0, 0)));
    assert_eq!(first_in_shell_of(&draws[..1].to_vec(), 0), None);
    assert_eq!(first_in_shell_of(&vec![], 0), None);
}

#[test]
fn random_unit_vector_has_unit_length() {
    let mut rng = SmallRng::seed_from_u64(4);
    for _ in 0..500 {
        let v = random_unit_vector(&mut rng);
        assert!((v.squared_length() - ONE).abs() <= 64, "{:?}", v);
    }
}

#[test]
fn lambertian_continuation_stays_in_hemisphere() {
    let mut rng = SmallRng::seed_from_u64(8);
    let m = Material::Lambertian(Lambertian::new(Vec3::ones()));
    let rec = record(up(), true, m);
    let ray_in = Ray::new(Vec3::zero(), Vec3::new(0, -ONE, 0));
    for _ in 0..500 {
        let s = m.scatter(&ray_in, &rec, &mut rng).unwrap();
        let d = s.ray().direction;
        assert!(d.dot(up()) >= 0);
        assert!((d.sub(up()).squared_length() - ONE).abs() <= 64);
    }
}
