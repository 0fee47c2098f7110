//! A preview renderer that shades surfaces by their normal, without materials
//! or random sampling.
use vstd::prelude::*;
use crate::fixed::{MAXV, ONE};
use crate::hit_record::HitRecord;
use crate::hittable::{is_nearest_hit, HittableList};
use crate::integrator::{background, background_spec, HALF};
use crate::ray::{at_spec, Ray};
use crate::render::BYTE_SCALE;
use crate::utils::{clamp3, clamp3_spec};
use crate::vec3::{unit_spec, v3, v_add, v_scale, v_sub, Color, Vec3};

verus! {

pub struct BasicRenderer {
    pub anti_aliasing: u32,
}

/// The point that the preview's normals radiate from: (0, 0, -1).
pub open spec fn preview_center() -> Vec3 {
    v3(0, 0, -65536i64)
}

/// The preview color: on a hit at `p`, `(unit(p - (0, 0, -1)) + 1) / 2`;
/// on a miss, the background.
pub open spec fn preview_spec(ray: Ray, rec: Option<HitRecord>) -> Color {
    match rec {
        Some(h) => {
            let nv = unit_spec(v_sub(at_spec(ray, h.t), preview_center()));
            v_scale(v_add(nv, v3(ONE, ONE, ONE)), HALF)
        },
        None => background_spec(ray),
    }
}

impl BasicRenderer {
    pub fn new(anti_aliasing: u32) -> (r: BasicRenderer)
        ensures
            r.anti_aliasing == anti_aliasing,
    {
        BasicRenderer { anti_aliasing }
    }

    /// The preview color of `ray`, clamped and scaled to `[0, 256)`.
    pub fn ray_color(world: &HittableList, ray: &Ray) -> (r: Color)
        ensures
            exists|rec: Option<HitRecord>|
                is_nearest_hit(world.hittables@, world.hittables@.len() as int, *ray, 0, MAXV, rec)
                && r == v_scale(clamp3_spec(#[trigger] preview_spec(*ray, rec)), BYTE_SCALE),
    {
        let rec = world.hit(ray, 0, MAXV);
        let result = match rec {
            Some(h) => {
                let nv = ray.at(h.t).sub(Vec3::new(0, 0, -ONE)).unit();
                nv.add(Vec3::ones()).scale(HALF)
            },
            None => background(ray),
        };
        assert(result == preview_spec(*ray, rec));
        clamp3(result).scale(BYTE_SCALE)
    }
}

} // verus!
