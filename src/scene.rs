//! The example scene: a ground sphere, a grid of small random spheres and
//! three large ones.
use vstd::prelude::*;
use rand::rngs::SmallRng;
use crate::fixed::{fadd, fmul, ONE};
use crate::hittable::HittableList;
use crate::material::{Dielectric, Lambertian, Material, Metal};
use crate::random::{random_in, random_in_unit_sphere, random_unit_interval};
use crate::sphere::Sphere;
use crate::vec3::{len_spec, v3, v_mul, v_sub, Color, Point3, Vec3};
use crate::fixed::mul_spec;
use vstd::arithmetic::div_mod::lemma_div_is_ordered;

verus! {

/// A texture of one color everywhere.
pub struct ConstantTexture(pub Color);

/// A light-emitting surface with a texture.
pub struct DiffuseLight(pub ConstantTexture);

/// 0.2, the radius of the small spheres and their height.
pub const SMALL_RADIUS: i64 = 13107;

/// 0.9, the spread of a small sphere within its grid cell, and the clearance
/// kept around the metal ball.
pub const SPREAD: i64 = 58982;

/// Below this draw (0.8) a small sphere is diffuse.
pub const DIFFUSE_BELOW: i64 = 52429;

/// Below this draw (0.95), and not diffuse, a small sphere is metal.
pub const METAL_BELOW: i64 = 62259;

/// 1.5, the refractive index of glass.
pub const GLASS_IOR: i64 = 98304;

pub const GROUND_RADIUS: i64 = 65536000;

pub open spec fn ground() -> Sphere {
    Sphere {
        center: v3(0, -65536000i64, 0),
        radius: GROUND_RADIUS,
        material: Material::Lambertian(Lambertian { albedo: v3(32768, 32768, 32768) }),
    }
}

pub open spec fn big_glass() -> Sphere {
    Sphere { center: v3(0, ONE, 0), radius: ONE, material: Material::Dielectric(Dielectric { ir: GLASS_IOR }) }
}

pub open spec fn big_diffuse() -> Sphere {
    Sphere {
        center: v3(-262144i64, ONE, 0),
        radius: ONE,
        material: Material::Lambertian(Lambertian { albedo: v3(26214, 13107, 6554) }),
    }
}

pub open spec fn big_metal() -> Sphere {
    Sphere {
        center: v3(262144, ONE, 0),
        radius: ONE,
        material: Material::Metal(Metal { albedo: v3(45875, 39322, 32768), fuzz: 0 }),
    }
}

/// Whether a small sphere at `center` keeps clear of the metal ball.
pub open spec fn clear_of_big(center: Point3) -> bool {
    len_spec(v_sub(center, v3(262144, SMALL_RADIUS, 0))) > SPREAD
}

/// The material of a small sphere for the draw `choose`: diffuse with albedo
/// `p * p`, metal with albedo `albedo` and fuzz `fuzz`, or glass.
pub open spec fn small_material(choose: i64, p: Vec3, albedo: Vec3, fuzz: i64) -> Material {
    if choose < DIFFUSE_BELOW {
        Material::Lambertian(Lambertian { albedo: v_mul(p, p) })
    } else if choose < METAL_BELOW {
        Material::Metal(Metal { albedo, fuzz })
    } else {
        Material::Dielectric(Dielectric { ir: GLASS_IOR })
    }
}

pub fn small_sphere_material(choose: i64, p: Vec3, albedo: Vec3, fuzz: i64) -> (r: Material)
    ensures
        r == small_material(choose, p, albedo, fuzz),
{
    if choose < DIFFUSE_BELOW {
        Material::Lambertian(Lambertian::new(p.elemul(p)))
    } else if choose < METAL_BELOW {
        Material::Metal(Metal::new(albedo, fuzz))
    } else {
        Material::Dielectric(Dielectric::new(GLASS_IOR))
    }
}

/// A material a small sphere can get: diffuse with albedo `p * p` for a
/// point `p` of the unit ball, metal with albedo in `[0.5, 1)^3` and fuzz in
/// `[0, 0.5)`, or glass.
pub open spec fn small_material_ok(m: Material) -> bool {
    match m {
        Material::Lambertian(l) => exists|p: Vec3| len_spec(p) < ONE && l.albedo == #[trigger] v_mul(p, p),
        Material::Metal(mt) => ONE / 2 <= mt.albedo.x < ONE && ONE / 2 <= mt.albedo.y < ONE && ONE / 2
            <= mt.albedo.z < ONE && 0 <= mt.fuzz < ONE / 2,
        Material::Dielectric(d) => d.ir == GLASS_IOR,
    }
}

/// `c` lies in `[a, a + 0.9) x [b, b + 0.9)` of grid cell `(a, b)`.
pub open spec fn in_cell(c: Point3, a: int, b: int) -> bool {
    a * ONE <= c.x < a * ONE + SPREAD && b * ONE <= c.z < b * ONE + SPREAD
}

/// `c` lies at height 0.2, within a grid cell `(a, b)` with `a, b` in `[-11, 11)`.
pub open spec fn in_grid(c: Point3) -> bool {
    c.y == SMALL_RADIUS && exists|a: int, b: int| -11 <= a < 11 && -11 <= b < 11 && #[trigger] in_cell(c, a, b)
}

/// A small sphere of the example scene.
pub open spec fn small_ok(s: Sphere) -> bool {
    s.radius == SMALL_RADIUS && in_grid(s.center) && clear_of_big(s.center) && small_material_ok(s.material)
}

/// The centres of `centers` that keep clear of the metal ball, in order.
pub open spec fn clear_centers(centers: Seq<Point3>) -> Seq<Point3>
    decreases centers.len(),
{
    if centers.len() == 0 {
        centers
    } else if clear_of_big(centers.last()) {
        clear_centers(centers.drop_last()).push(centers.last())
    } else {
        clear_centers(centers.drop_last())
    }
}

proof fn lemma_spread(j: i64)
    requires
        0 <= j < ONE,
    ensures
        0 <= mul_spec(SPREAD, j) < SPREAD,
{
    assert(0 <= SPREAD * j < SPREAD * ONE) by (nonlinear_arith)
        requires
            0 <= j < ONE,
    ;
    lemma_div_is_ordered(SPREAD * j, SPREAD * ONE - 1, ONE as int);
    lemma_div_is_ordered(0, SPREAD * j, ONE as int);
    assert((SPREAD * ONE - 1) / (ONE as int) == SPREAD - 1);
}

/// Draws the material for a small sphere.
fn random_small_material(rng: &mut SmallRng) -> (r: Material)
    ensures
        small_material_ok(r),
{
    let choose = random_unit_interval(rng);
    let p = random_in_unit_sphere(rng);
    let albedo = Vec3::new(random_in(rng, ONE / 2, ONE), random_in(rng, ONE / 2, ONE), random_in(rng, ONE / 2, ONE));
    let fuzz = random_in(rng, 0, ONE / 2);
    let r = small_sphere_material(choose, p, albedo, fuzz);
    assert(small_material_ok(r)) by {
        if choose < DIFFUSE_BELOW {
            assert(r == Material::Lambertian(Lambertian { albedo: v_mul(p, p) }));
        }
    }
    r
}

/// The example scene: the ground first, then for each grid cell `(a, b)`
/// with `a, b` in `[-11, 11)` at most one small sphere, then three big balls.
pub fn example_scene(rng: &mut SmallRng) -> (r: HittableList)
    ensures
        4 <= r.hittables@.len() <= 4 + 22 * 22,
        r.hittables@[0] == ground(),
        r.hittables@[r.hittables@.len() - 3] == big_glass(),
        r.hittables@[r.hittables@.len() - 2] == big_diffuse(),
        r.hittables@[r.hittables@.len() - 1] == big_metal(),
        forall|i: int| 1 <= i < r.hittables@.len() - 3 ==> small_ok(#[trigger] r.hittables@[i]),
        exists|centers: Seq<Point3>|
            centers.len() == 22 * 22 && r.hittables@.len() == 4 + (#[trigger] clear_centers(centers)).len()
                && forall|i: int|
                0 <= i < clear_centers(centers).len() ==> r.hittables@[i + 1].center == #[trigger] clear_centers(
                    centers,
                )[i],
{
    let mut spheres: Vec<Sphere> = Vec::new();
    spheres.push(
        Sphere::new(
            Vec3::new(0, -65536000, 0),
            GROUND_RADIUS,
            Material::Lambertian(Lambertian::new(Vec3::new(32768, 32768, 32768))),
        ),
    );
    let ghost mut centers: Seq<Point3> = Seq::empty();
    let mut a: i64 = -11;
    while a < 11
        invariant
            -11 <= a <= 11,
            centers.len() == 22 * (a + 11),
            spheres@.len() == 1 + clear_centers(centers).len(),
            clear_centers(centers).len() <= centers.len(),
            spheres@[0] == ground(),
            forall|i: int| 1 <= i < spheres@.len() ==> small_ok(#[trigger] spheres@[i]),
            forall|i: int| 0 <= i < clear_centers(centers).len() ==> spheres@[i + 1].center == #[trigger] clear_centers(centers)[i],
        decreases 11 - a,
    {
        let mut b: i64 = -11;
        while b < 11
            invariant
                -11 <= a < 11,
                -11 <= b <= 11,
                centers.len() == 22 * (a + 11) + (b + 11),
                spheres@.len() == 1 + clear_centers(centers).len(),
                clear_centers(centers).len() <= centers.len(),
                spheres@[0] == ground(),
                forall|i: int| 1 <= i < spheres@.len() ==> small_ok(#[trigger] spheres@[i]),
                forall|i: int| 0 <= i < clear_centers(centers).len() ==> spheres@[i + 1].center == #[trigger] clear_centers(centers)[i],
            decreases 11 - b,
        {
            let material = random_small_material(rng);
            let jx = random_unit_interval(rng);
            let jz = random_unit_interval(rng);
            let center = Vec3::new(
                fadd(a * ONE, fmul(SPREAD, jx)),
                SMALL_RADIUS,
                fadd(b * ONE, fmul(SPREAD, jz)),
            );
            proof {
                lemma_spread(jx);
                lemma_spread(jz);
                assert(in_grid(center)) by {
                    assert(in_cell(center, a as int, b as int));
                }
            }
            let ghost old_centers = centers;
            proof {
                centers = centers.push(center);
                assert(centers.drop_last() =~= old_centers);
            }
            if center.sub(Vec3::new(262144, SMALL_RADIUS, 0)).length() > SPREAD {
                spheres.push(Sphere::new(center, SMALL_RADIUS, material));
                assert(clear_centers(centers) == clear_centers(old_centers).push(center));
                assert(small_ok(spheres@[spheres@.len() - 1]));
            } else {
                assert(clear_centers(centers) == clear_centers(old_centers));
            }
            b = b + 1;
        }
        a = a + 1;
    }
    spheres.push(Sphere::new(Vec3::new(0, ONE, 0), ONE, Material::Dielectric(Dielectric::new(GLASS_IOR))));
    spheres.push(
        Sphere::new(
            Vec3::new(-262144, ONE, 0),
            ONE,
            Material::Lambertian(Lambertian::new(Vec3::new(26214, 13107, 6554))),
        ),
    );
    spheres.push(
        Sphere::new(
            Vec3::new(262144, ONE, 0),
            ONE,
            Material::Metal(Metal::new(Vec3::new(45875, 39322, 32768), 0)),
        ),
    );
    let r = HittableList::new(spheres);
    assert(r.hittables@.len() == 4 + clear_centers(centers).len());
    r
}

} // verus!
