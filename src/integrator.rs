//! The recursive light-transport integrator.
use vstd::prelude::*;
use rand::rngs::SmallRng;
use crate::fixed::{add_spec, fadd, fmul, fsub, mul_spec, sub_spec, MAXV, ONE};
use crate::hit_record::HitRecord;
use crate::hittable::{is_nearest_hit, nearest_at, HittableList};
use crate::sphere::{sphere_hit, Sphere};
use crate::material::{scatter_spec, valid_sample, ScatterRecord};
use crate::ray::Ray;
use crate::utils::{clamp3, clamp3_spec, COLOR_MAX};
use crate::vec3::{unit_spec, v3, v_add, v_mul, v_scale, Color, Vec3};

verus! {

/// Smallest ray parameter that counts as a hit; keeps a continuation ray from
/// hitting the surface it starts on.
pub const EPSILON: i64 = 8;

/// One half.
pub const HALF: i64 = 32768;

/// The sky blue at the top of the background gradient: (0.5, 0.7, 1.0).
pub const SKY_R: i64 = 32768;

pub const SKY_G: i64 = 45875;

pub const SKY_B: i64 = 65536;

pub open spec fn black() -> Color {
    v3(0, 0, 0)
}

/// Every component lies in `[0, COLOR_MAX]`.
pub open spec fn in_color_range(c: Color) -> bool {
    0 <= c.x <= COLOR_MAX && 0 <= c.y <= COLOR_MAX && 0 <= c.z <= COLOR_MAX
}

/// The sky seen along a missed ray: white blended towards sky blue by
/// `t = (unit(direction).y + 1) / 2`.
pub open spec fn background_spec(ray: Ray) -> Color {
    let t = mul_spec(HALF, add_spec(unit_spec(ray.direction).y, ONE));
    v_add(v_scale(v3(ONE, ONE, ONE), sub_spec(ONE, t)), v_scale(v3(SKY_R, SKY_G, SKY_B), t))
}

/// The color of a path at one surface: the clamped background on a miss,
/// black when the surface absorbs, else the attenuation times the color `c`
/// that the continuation brings back, clamped.
pub open spec fn path_step(ray: Ray, rec: Option<HitRecord>, sr: Option<ScatterRecord>, c: Color) -> Color {
    match rec {
        None => clamp3_spec(background_spec(ray)),
        Some(_) => match sr {
            None => black(),
            Some(s) => clamp3_spec(v_mul(s.attenuation_spec(), c)),
        },
    }
}

pub fn background(ray: &Ray) -> (r: Color)
    ensures
        r == background_spec(*ray),
{
    let t = fmul(HALF, fadd(ray.direction.unit().y, ONE));
    Vec3::ones().scale(fsub(ONE, t)).add(Vec3::new(SKY_R, SKY_G, SKY_B).scale(t))
}

/// Combines the outcome of one bounce; see `path_step`.
pub fn shade(ray: &Ray, rec: &Option<HitRecord>, sr: &Option<ScatterRecord>, c: Color) -> (r: Color)
    ensures
        r == path_step(*ray, *rec, *sr, c),
        in_color_range(r),
{
    match rec {
        None => clamp3(background(ray)),
        Some(_) => match sr {
            None => Vec3::zero(),
            Some(s) => clamp3(s.attenuation().elemul(c)),
        },
    }
}

/// `sr` is a possible scattering at the hit `rec` of `ray`: none on a miss,
/// else what the hit material gives for some random vector it can draw and some
/// uniform draw in `[0, 1)`.
pub open spec fn scatter_outcome(ray: Ray, rec: Option<HitRecord>, sr: Option<ScatterRecord>) -> bool {
    match rec {
        None => sr is None,
        Some(h) => exists|sample: Vec3, u: i64|
            valid_sample(h.material, sample) && 0 <= u < ONE && sr == #[trigger] scatter_spec(h.material, ray, h, sample, u),
    }
}

/// No member of `world` is hit by `ray` in `(EPSILON, MAXV)`.
pub open spec fn misses(world: Seq<Sphere>, ray: Ray) -> bool {
    is_nearest_hit(world, world.len() as int, ray, EPSILON, MAXV, None)
}

/// `c` is a color that tracing `ray` through `world` with at most `depth`
/// bounces can return: black at depth zero; otherwise `path_step` over the
/// nearest hit, a possible scattering there, and a color that tracing the
/// continuation with `depth - 1` bounces can return.
pub open spec fn color_outcome(world: Seq<Sphere>, ray: Ray, depth: nat, c: Color) -> bool
    decreases depth,
{
    if depth == 0 {
        c == black()
    } else {
        exists|rec: Option<HitRecord>, sr: Option<ScatterRecord>, c2: Color|
            #![trigger path_step(ray, rec, sr, c2)]
            is_nearest_hit(world, world.len() as int, ray, EPSILON, MAXV, rec)
            && scatter_outcome(ray, rec, sr)
            && (sr matches Some(s) ==> color_outcome(world, s.ray_spec(), (depth - 1) as nat, c2))
            && c == path_step(ray, rec, sr, c2)
    }
}

/// The color carried back along `ray` by a random path of at most `depth` bounces.
pub fn ray_color(world: &HittableList, ray: &Ray, depth: u32, rng: &mut SmallRng) -> (r: Color)
    ensures
        color_outcome(world.hittables@, *ray, depth as nat, r),
        depth == 0 ==> r == black() && *final(rng) == *old(rng),
        depth > 0 && misses(world.hittables@, *ray) ==> r == clamp3_spec(background_spec(*ray))
            && *final(rng) == *old(rng),
        in_color_range(r),
    decreases depth,
{
    if depth == 0 {
        return Vec3::zero();
    }
    let ghost s = world.hittables@;
    let rec = world.hit(ray, EPSILON, MAXV);
    match rec {
        None => {
            let none: Option<ScatterRecord> = None;
            let r = shade(ray, &rec, &none, Vec3::zero());
            assert(color_outcome(s, *ray, depth as nat, r)) by {
                assert(scatter_outcome(*ray, rec, none));
                assert(r == path_step(*ray, rec, none, black()));
            }
            r
        },
        Some(h) => {
            proof {
                if misses(s, *ray) {
                    let i = choose|i: int| nearest_at(s, s.len() as int, *ray, EPSILON, MAXV, i, h);
                    assert(sphere_hit(s[i], *ray, EPSILON, MAXV) is None);
                }
            }
            let sr = h.material.scatter(ray, &h, rng);
            assert(scatter_outcome(*ray, rec, sr));
            match sr {
                None => {
                    let r = shade(ray, &rec, &sr, Vec3::zero());
                    assert(color_outcome(s, *ray, depth as nat, r)) by {
                        assert(r == path_step(*ray, rec, sr, black()));
                    }
                    r
                },
                Some(sc) => {
                    let c = ray_color(world, &sc.ray(), depth - 1, rng);
                    let r = shade(ray, &rec, &sr, c);
                    assert(color_outcome(s, *ray, depth as nat, r)) by {
                        assert(color_outcome(s, sc.ray_spec(), (depth - 1) as nat, c));
                        assert(r == path_step(*ray, rec, sr, c));
                    }
                    r
                },
            }
        },
    }
}

} // verus!
