use raytracer::fixed::{MAXV, ONE};
use raytracer::render::{assemble, band_rows, Band};
use raytracer::{HittableList, Lambertian, Material, Ray, Sphere, Vec3};

fn gray() -> Material {
    Material::Lambertian(Lambertian::new(Vec3::new(ONE / 2, ONE / 2, ONE / 2)))
}

fn unit_scene_sphere() -> Sphere {
    Sphere::new(Vec3::new(0, 0, -ONE), ONE / 2, gray())
}

fn down_z() -> Ray {
    Ray::new(Vec3::zero(), Vec3::new(0, 0, -ONE))
}

#[test]
fn sphere_nearest_root_first() {
    let s = unit_scene_sphere();
    let h = s.hit(&down_z(), 0, MAXV).unwrap();
    assert_eq!(h.t, ONE / 2);
    assert_eq!(h.p, Vec3::new(0, 0, -ONE / 2));
    assert_eq!(h.normal, Vec3::new(0, 0, ONE));
    assert!(h.front);
}

#[test]
fn sphere_far_root_when_near_is_out_of_range() {
    let s = unit_scene_sphere();
    let h = s.hit(&down_z(), ONE, MAXV).unwrap();
    assert_eq!(h.t, 3 * ONE / 2);
    assert_eq!(h.normal, Vec3::new(0, 0, -ONE));
    assert!(!h.front);
}

#[test]
fn sphere_no_root_in_range() {
    let s = unit_scene_sphere();
    assert!(s.hit(&down_z(), 0, ONE / 4).is_none());
    assert!(s.hit(&down_z(), 2 * ONE, MAXV).is_none());
    // bounds are exclusive
    assert!(s.hit(&down_z(), ONE / 2, ONE / 2 + 1).is_none());
}

#[test]
fn sphere_missed_or_degenerate() {
    let s = unit_scene_sphere();
    let miss = Ray::new(Vec3::zero(), Vec3::new(0, ONE, 0));
    assert!(s.hit(&miss, 0, MAXV).is_none());
    let tangent = Ray::new(Vec3::new(ONE / 2, 0, 0), Vec3::new(0, 0, -ONE));
    assert!(s.hit(&tangent, 0, MAXV).is_none());
    let still = Ray::new(Vec3::zero(), Vec3::zero());
    assert!(s.hit(&still, -MAXV, MAXV).is_none());
}

#[test]
fn list_nearest_regardless_of_order() {
    let near = Sphere::new(Vec3::new(0, 0, -2 * ONE), ONE / 2, gray());
    let far = Sphere::new(Vec3::new(0, 0, -5 * ONE), ONE, gray());
    let off = Sphere::new(Vec3::new(5 * ONE, 0, -2 * ONE), ONE / 2, gray());
    let orders = [
        vec![near, far, off],
        vec![far, near, off],
        vec![off, far, near],
        vec![far, off, near],
    ];
    for o in orders {
        let h = HittableList::new(o).hit(&down_z(), 0, MAXV).unwrap();
        assert_eq!(h.t, 3 * ONE / 2);
        assert_eq!(h.p, Vec3::new(0, 0, -3 * ONE / 2));
    }
    let empty = HittableList::new(vec![]);
    assert!(empty.hit(&down_z(), 0, MAXV).is_none());
    let only_off = HittableList::new(vec![off]);
    assert!(only_off.hit(&down_z(), 0, MAXV).is_none());
}

#[test]
fn list_respects_bounds() {
    let near = Sphere::new(Vec3::new(0, 0, -2 * ONE), ONE / 2, gray());
    let far = Sphere::new(Vec3::new(0, 0, -5 * ONE), ONE, gray());
    let l = HittableList::new(vec![near, far]);
    assert_eq!(l.hit(&down_z(), 3 * ONE, MAXV).unwrap().t, 4 * ONE);
    assert!(l.hit(&down_z(), 0, ONE).is_none());
}

#[test]
fn bands_cover_rows() {
    assert_eq!(band_rows(10, 3, 0), (0, 3));
    assert_eq!(band_rows(10, 3, 1), (3, 6));
    assert_eq!(band_rows(10, 3, 2), (6, 10));
    for (h, n) in [(512usize, 16usize), (7, 3), (2, 4), (1, 1), (0, 3), (13, 13)] {
        let mut seen = vec![0u32; h];
        let mut prev_end = 0;
        for i in 0..n {
            let (b, e) = band_rows(h, n, i);
            assert_eq!(b, prev_end);
            for y in b..e {
                seen[y] += 1;
            }
            prev_end = e;
        }
        assert_eq!(prev_end, h);
        assert!(seen.iter().all(|&c| c == 1));
    }
}

#[test]
fn small_height_gives_empty_bands() {
    assert_eq!(band_rows(2, 4, 0), (0, 0));
    assert_eq!(band_rows(2, 4, 1), (0, 1));
    assert_eq!(band_rows(2, 4, 2), (1, 1));
    assert_eq!(band_rows(2, 4, 3), (1, 2));
}

#[test]
fn assemble_flips_rows() {
    let top = Band { row_begin: 2, row_end: 3, rows: vec![vec![7, 7, 7]] };
    let bottom = Band { row_begin: 0, row_end: 2, rows: vec![vec![1, 1, 1], vec![2, 2, 2]] };
    // bands arrive in any order
    let image = assemble(3, &vec![top, bottom]);
    assert_eq!(image, vec![vec![7, 7, 7], vec![2, 2, 2], vec![1, 1, 1]]);
}

#[test]
fn assemble_leaves_missing_rows_empty() {
    let only = Band { row_begin: 1, row_end: 2, rows: vec![vec![9, 8, 7]] };
    let image = assemble(3, &vec![only]);
    assert_eq!(image, vec![vec![], vec![9, 8, 7], vec![]]);
}

#[test]
fn hit_point_lies_on_sphere() {
    let s = Sphere::new(Vec3::new(ONE, -2 * ONE, -6 * ONE), 3 * ONE / 2, gray());
    let r2 = (3 * ONE / 2) as f64 / ONE as f64;
    let r2 = r2 * r2;
    for (dx, dy) in [(0i64, 0i64), (ONE / 20, -ONE / 20), (ONE / 10, ONE / 20), (-ONE / 12, ONE / 10)] {
        let ray = Ray::new(Vec3::zero(), Vec3::new(dx, dy, -ONE).add(Vec3::new(ONE / 6, -ONE / 3, 0)));
        let h = s.hit(&ray, 0, MAXV).expect("ray aimed at the sphere");
        let p = ray.at(h.t);
        assert_eq!(p, h.p);
        let d = p.sub(s.center);
        let dist2 = d.squared_length() as f64 / ONE as f64;
        assert!((dist2 - r2).abs() < 1e-3, "{} vs {}", dist2, r2);
    }
}

#[test]
fn hittable_dispatches() {
    let s = unit_scene_sphere();
    let one = raytracer::Hittable::Sphere(s);
    assert_eq!(one.hit(&down_z(), 0, MAXV).unwrap().t, ONE / 2);
    let far = Sphere::new(Vec3::new(0, 0, -5 * ONE), ONE, gray());
    let many = raytracer::Hittable::List(HittableList::new(vec![far, s]));
    assert_eq!(many.hit(&down_z(), 0, MAXV).unwrap().t, ONE / 2);
    assert!(many.hit(&Ray::new(Vec3::zero(), Vec3::new(0, ONE, 0)), 0, MAXV).is_none());
}

#[test]
fn fewer_rows_than_bands() {
    let (h, n) = (5usize, 12usize);
    let mut nonempty = 0;
    for i in 0..n {
        let (b, e) = band_rows(h, n, i);
        assert!(e - b <= 1);
        if e > b {
            nonempty += 1;
        }
    }
    assert_eq!(nonempty, h);
}
