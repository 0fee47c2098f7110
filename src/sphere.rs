//! Spheres and the ray/sphere intersection test.
use vstd::prelude::*;
use vstd::arithmetic::div_mod::lemma_div_is_ordered;
use crate::fixed::{
    abs, add_spec, div_spec, fadd, fdiv, fmul, fneg, fsqrt, fsub, mul_spec, neg_spec, sqrt_spec,
    sub_spec, tdiv, SCALE,
};
use crate::hit_record::HitRecord;
use crate::material::Material;
use crate::ray::{at_spec, Ray};
use crate::vec3::{dot_spec, len2_spec, v_div, v_sub, Point3};

verus! {

#[derive(Clone, Copy, Debug, PartialEq, Eq, Structural)]
pub struct Sphere {
    pub center: Point3,
    pub radius: i64,
    pub material: Material,
}

/// `|direction|^2`, the quadratic's leading coefficient.
pub open spec fn quad_a(s: Sphere, ray: Ray) -> i64 {
    len2_spec(ray.direction)
}

pub open spec fn quad_half_b(s: Sphere, ray: Ray) -> i64 {
    dot_spec(v_sub(ray.origin, s.center), ray.direction)
}

pub open spec fn quad_c(s: Sphere, ray: Ray) -> i64 {
    sub_spec(len2_spec(v_sub(ray.origin, s.center)), mul_spec(s.radius, s.radius))
}

pub open spec fn discriminant(s: Sphere, ray: Ray) -> i64 {
    sub_spec(mul_spec(quad_half_b(s, ray), quad_half_b(s, ray)), mul_spec(quad_a(s, ray), quad_c(s, ray)))
}

/// The smaller root `(-half_b - sqrt(disc)) / a`.
pub open spec fn root_near(s: Sphere, ray: Ray) -> i64 {
    div_spec(sub_spec(neg_spec(quad_half_b(s, ray)), sqrt_spec(discriminant(s, ray))), quad_a(s, ray))
}

/// The larger root `(-half_b + sqrt(disc)) / a`.
pub open spec fn root_far(s: Sphere, ray: Ray) -> i64 {
    div_spec(add_spec(neg_spec(quad_half_b(s, ray)), sqrt_spec(discriminant(s, ray))), quad_a(s, ray))
}

/// Whether the ray meets the sphere at two distinct parameters.
pub open spec fn crosses(s: Sphere, ray: Ray) -> bool {
    quad_a(s, ray) > 0 && discriminant(s, ray) > 0
}

pub open spec fn in_open(t: i64, t_min: i64, t_max: i64) -> bool {
    t_min < t && t < t_max
}

/// The record of a hit at parameter `t`, with the outward normal
/// `(p - center) / radius`.
pub open spec fn record_at(s: Sphere, ray: Ray, t: i64) -> HitRecord {
    let p = at_spec(ray, t);
    let normal = v_div(v_sub(p, s.center), s.radius);
    HitRecord { p, normal, t, front: dot_spec(ray.direction, normal) < 0, material: s.material }
}

/// The nearest hit in `(t_min, t_max)`: the smaller root if it lies there,
/// else the larger one if it does, else none.
#[verifier::opaque]
pub open spec fn sphere_hit(s: Sphere, ray: Ray, t_min: i64, t_max: i64) -> Option<HitRecord> {
    if !crosses(s, ray) {
        None
    } else if in_open(root_near(s, ray), t_min, t_max) {
        Some(record_at(s, ray, root_near(s, ray)))
    } else if in_open(root_far(s, ray), t_min, t_max) {
        Some(record_at(s, ray, root_far(s, ray)))
    } else {
        None
    }
}

proof fn lemma_tdiv_monotone(n1: int, n2: int, d: int)
    requires
        n1 <= n2,
        d > 0,
    ensures
        tdiv(n1, d) <= tdiv(n2, d),
{
    if n1 >= 0 {
        lemma_div_is_ordered(n1, n2, d);
    } else if n2 < 0 {
        lemma_div_is_ordered(abs(n2), abs(n1), d);
    } else {
        lemma_div_is_ordered(0, abs(n1), d);
        lemma_div_is_ordered(0, n2, d);
    }
}

/// The smaller root never exceeds the larger one.
pub proof fn lemma_roots_ordered(s: Sphere, ray: Ray)
    requires
        crosses(s, ray),
    ensures
        root_near(s, ray) <= root_far(s, ray),
{
    let nb = neg_spec(quad_half_b(s, ray));
    let sq = sqrt_spec(discriminant(s, ray));
    assert(sq >= 0) by {
        crate::fixed::lemma_sqrt_nonneg(discriminant(s, ray));
    }
    let lo = sub_spec(nb, sq);
    let hi = add_spec(nb, sq);
    assert(lo <= hi);
    assert(lo * SCALE <= hi * SCALE) by (nonlinear_arith)
        requires
            lo <= hi,
    ;
    lemma_tdiv_monotone(lo * SCALE, hi * SCALE, quad_a(s, ray) as int);
}

/// Narrowing the upper bound keeps exactly the hits below the new bound.
pub proof fn lemma_hit_narrowed(s: Sphere, ray: Ray, t_min: i64, t_max: i64, t_closest: i64)
    requires
        t_closest <= t_max,
    ensures
        sphere_hit(s, ray, t_min, t_closest) == (match sphere_hit(s, ray, t_min, t_max) {
            Some(h) => if h.t < t_closest {
                Some(h)
            } else {
                None
            },
            None => None,
        }),
{
    reveal(sphere_hit);
    if crosses(s, ray) {
        lemma_roots_ordered(s, ray);
    }
}

impl Sphere {
    pub fn new(center: Point3, radius: i64, material: Material) -> (r: Sphere)
        ensures
            r.center == center,
            r.radius == radius,
            r.material == material,
    {
        Sphere { center, radius, material }
    }

    fn record(&self, ray: &Ray, t: i64) -> (r: HitRecord)
        ensures
            r == record_at(*self, *ray, t),
    {
        let p = ray.at(t);
        let normal = p.sub(self.center).div(self.radius);
        HitRecord { p, normal, t, front: ray.direction.dot(normal) < 0, material: self.material }
    }

    /// The nearest intersection with parameter strictly between `t_min` and `t_max`.
    pub fn hit(&self, ray: &Ray, t_min: i64, t_max: i64) -> (r: Option<HitRecord>)
        ensures
            r == sphere_hit(*self, *ray, t_min, t_max),
            r is Some <==> crosses(*self, *ray) && (in_open(root_near(*self, *ray), t_min, t_max)
                || in_open(root_far(*self, *ray), t_min, t_max)),
            r matches Some(h) ==> h.t == (if in_open(root_near(*self, *ray), t_min, t_max) {
                root_near(*self, *ray)
            } else {
                root_far(*self, *ray)
            }),
            r matches Some(h) ==> t_min < h.t < t_max,
    {
        proof {
            reveal(sphere_hit);
        }
        let oc = ray.origin.sub(self.center);
        let a = ray.direction.squared_length();
        let half_b = oc.dot(ray.direction);
        let c = fsub(oc.squared_length(), fmul(self.radius, self.radius));
        let discriminant = fsub(fmul(half_b, half_b), fmul(a, c));
        if a > 0 && discriminant > 0 {
            let sq = fsqrt(discriminant);
            let t = fdiv(fsub(fneg(half_b), sq), a);
            if t_min < t && t < t_max {
                return Some(self.record(ray, t));
            }
            let t = fdiv(fadd(fneg(half_b), sq), a);
            if t_min < t && t < t_max {
                return Some(self.record(ray, t));
            }
        }
        None
    }
}

} // verus!
