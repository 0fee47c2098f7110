//! Clamping, reflection, refraction and Schlick's reflectance.
use vstd::prelude::*;
use crate::fixed::{
    abs_spec, add_spec, div_spec, fabs, fadd, fdiv, fmin, fmul, fsqrt, fsub, min_spec, mul_spec,
    sqrt_spec, sub_spec, ONE,
};
use crate::vec3::{dot_spec, len2_spec, v_add, v_neg, v_scale, v_sub, v3, Color, Vec3};

verus! {

/// Largest value a color component keeps after clamping (0.999).
pub const COLOR_MAX: i64 = 65470;

/// Twice the fixed-point one.
pub const TWO: i64 = 131072;

pub open spec fn clamp_spec(x: i64, min: i64, max: i64) -> i64 {
    if x < min {
        min
    } else if x > max {
        max
    } else {
        x
    }
}

pub open spec fn clamp3_spec(c: Color) -> Color {
    v3(clamp_spec(c.x, 0, COLOR_MAX), clamp_spec(c.y, 0, COLOR_MAX), clamp_spec(c.z, 0, COLOR_MAX))
}

/// `v - n * dot(v, n) * 2`: `v` mirrored about the plane with normal `n`.
pub open spec fn reflect_spec(v: Vec3, n: Vec3) -> Vec3 {
    v_sub(v, v_scale(v_scale(n, dot_spec(v, n)), TWO))
}

/// The cosine of the incidence angle used by refraction, at most one.
pub open spec fn refract_cos(uv: Vec3, n: Vec3) -> i64 {
    min_spec(dot_spec(v_neg(uv), n), ONE)
}

pub open spec fn refract_perp(uv: Vec3, n: Vec3, ratio: i64) -> Vec3 {
    v_scale(v_add(uv, v_scale(n, refract_cos(uv, n))), ratio)
}

pub open spec fn refract_parallel(uv: Vec3, n: Vec3, ratio: i64) -> Vec3 {
    v_scale(v_neg(n), sqrt_spec(abs_spec(sub_spec(ONE, len2_spec(refract_perp(uv, n, ratio))))))
}

/// Snell refraction of the unit direction `uv` through a surface with normal
/// `n` and ratio of refractive indices `ratio`.
pub open spec fn refract_spec(uv: Vec3, n: Vec3, ratio: i64) -> Vec3 {
    v_add(refract_perp(uv, n, ratio), refract_parallel(uv, n, ratio))
}

pub open spec fn pow5_spec(x: i64) -> i64 {
    mul_spec(mul_spec(mul_spec(mul_spec(x, x), x), x), x)
}

/// Schlick's approximation `r0 + (1 - r0) * (1 - cosine)^5`, with
/// `r0 = ((1 - ref_idx) / (1 + ref_idx))^2`.
pub open spec fn reflectance_spec(cosine: i64, ref_idx: i64) -> i64 {
    let r0 = div_spec(sub_spec(ONE, ref_idx), add_spec(ONE, ref_idx));
    let r0 = mul_spec(r0, r0);
    add_spec(r0, mul_spec(sub_spec(ONE, r0), pow5_spec(sub_spec(ONE, cosine))))
}

pub fn clamp(x: i64, min: i64, max: i64) -> (r: i64)
    ensures
        r == clamp_spec(x, min, max),
{
    if x < min {
        min
    } else if x > max {
        max
    } else {
        x
    }
}

pub fn clamp3(color: Color) -> (r: Color)
    ensures
        r == clamp3_spec(color),
        0 <= r.x <= COLOR_MAX,
        0 <= r.y <= COLOR_MAX,
        0 <= r.z <= COLOR_MAX,
{
    Vec3 {
        x: clamp(color.x, 0, COLOR_MAX),
        y: clamp(color.y, 0, COLOR_MAX),
        z: clamp(color.z, 0, COLOR_MAX),
    }
}

pub fn reflect(v: Vec3, n: Vec3) -> (r: Vec3)
    ensures
        r == reflect_spec(v, n),
{
    v.sub(n.scale(v.dot(n)).scale(TWO))
}

pub fn refract(uv: Vec3, normal: Vec3, etai_over_etat: i64) -> (r: Vec3)
    ensures
        r == refract_spec(uv, normal, etai_over_etat),
{
    let cos_theta = fmin(uv.neg().dot(normal), ONE);
    let r_out_perp = uv.add(normal.scale(cos_theta)).scale(etai_over_etat);
    let r_out_parallel = normal.neg().scale(fsqrt(fabs(fsub(ONE, r_out_perp.squared_length()))));
    r_out_perp.add(r_out_parallel)
}

pub fn reflectance(cosine: i64, ref_idx: i64) -> (r: i64)
    ensures
        r == reflectance_spec(cosine, ref_idx),
{
    let r0 = fdiv(fsub(ONE, ref_idx), fadd(ONE, ref_idx));
    let r0 = fmul(r0, r0);
    let m = fsub(ONE, cosine);
    let p = fmul(fmul(fmul(fmul(m, m), m), m), m);
    fadd(r0, fmul(fsub(ONE, r0), p))
}

} // verus!
