//! A scene: an ordered list of spheres, intersected as a whole.
use vstd::prelude::*;
use vstd::seq_lib::to_multiset_contains;
use crate::hit_record::HitRecord;
use crate::ray::Ray;
use crate::sphere::{lemma_hit_narrowed, sphere_hit, Sphere};

verus! {

pub struct HittableList {
    pub hittables: Vec<Sphere>,
}

/// `h` is the hit of member `i`; no member hits nearer, and no member before
/// `i` hits as near.
pub open spec fn nearest_at(s: Seq<Sphere>, n: int, ray: Ray, t_min: i64, t_max: i64, i: int, h: HitRecord) -> bool {
    &&& 0 <= i < n
    &&& sphere_hit(s[i], ray, t_min, t_max) == Some(h)
    &&& forall|j: int|
        0 <= j < n ==> (#[trigger] sphere_hit(s[j], ray, t_min, t_max) matches Some(g) ==> h.t <= g.t)
    &&& forall|j: int| 0 <= j < i ==> (#[trigger] sphere_hit(s[j], ray, t_min, t_max) matches Some(g) ==> h.t < g.t)
}

/// `r` is the nearest hit among the first `n` members (the first of them on a
/// tie), or none when none of them is hit.
pub open spec fn is_nearest_hit(s: Seq<Sphere>, n: int, ray: Ray, t_min: i64, t_max: i64, r: Option<HitRecord>) -> bool {
    match r {
        None => forall|j: int| 0 <= j < n ==> #[trigger] sphere_hit(s[j], ray, t_min, t_max) is None,
        Some(h) => exists|i: int| nearest_at(s, n, ray, t_min, t_max, i, h),
    }
}

/// Reordering the members changes nothing that matters: a list and any
/// permutation of it are either both missed, or both hit at the same parameter.
pub proof fn lemma_hit_order_invariant(
    s1: Seq<Sphere>,
    s2: Seq<Sphere>,
    ray: Ray,
    t_min: i64,
    t_max: i64,
    r1: Option<HitRecord>,
    r2: Option<HitRecord>,
)
    requires
        s1.to_multiset() == s2.to_multiset(),
        is_nearest_hit(s1, s1.len() as int, ray, t_min, t_max, r1),
        is_nearest_hit(s2, s2.len() as int, ray, t_min, t_max, r2),
    ensures
        r1 is Some <==> r2 is Some,
        r1 matches Some(h1) ==> (r2 matches Some(h2) ==> h1.t == h2.t),
{
    broadcast use to_multiset_contains;
    lemma_member_in_other(s1, s2);
    lemma_member_in_other(s2, s1);
    match (r1, r2) {
        (Some(h1), Some(h2)) => {
            let i1 = choose|i: int| nearest_at(s1, s1.len() as int, ray, t_min, t_max, i, h1);
            let i2 = choose|i: int| nearest_at(s2, s2.len() as int, ray, t_min, t_max, i, h2);
            assert(s2.contains(s1[i1]));
            assert(s1.contains(s2[i2]));
            let j2 = choose|j: int| 0 <= j < s2.len() && s2[j] == s1[i1];
            let j1 = choose|j: int| 0 <= j < s1.len() && s1[j] == s2[i2];
            assert(sphere_hit(s2[j2], ray, t_min, t_max) == Some(h1));
            assert(sphere_hit(s1[j1], ray, t_min, t_max) == Some(h2));
        },
        (Some(h1), None) => {
            let i1 = choose|i: int| nearest_at(s1, s1.len() as int, ray, t_min, t_max, i, h1);
            assert(s2.contains(s1[i1]));
            let j2 = choose|j: int| 0 <= j < s2.len() && s2[j] == s1[i1];
            assert(sphere_hit(s2[j2], ray, t_min, t_max) is None);
        },
        (None, Some(h2)) => {
            let i2 = choose|i: int| nearest_at(s2, s2.len() as int, ray, t_min, t_max, i, h2);
            assert(s1.contains(s2[i2]));
            let j1 = choose|j: int| 0 <= j < s1.len() && s1[j] == s2[i2];
            assert(sphere_hit(s1[j1], ray, t_min, t_max) is None);
        },
        (None, None) => {},
    }
}

proof fn lemma_member_in_other(s1: Seq<Sphere>, s2: Seq<Sphere>)
    requires
        s1.to_multiset() == s2.to_multiset(),
    ensures
        forall|i: int| 0 <= i < s1.len() ==> s2.contains(#[trigger] s1[i]),
{
    broadcast use to_multiset_contains;
    assert forall|i: int| 0 <= i < s1.len() implies s2.contains(#[trigger] s1[i]) by {
        assert(s1.contains(s1[i]));
        assert(s2.to_multiset().count(s1[i]) > 0);
    }
}

/// One step of the scan: member `k` is tried with the bound narrowed to the
/// nearest hit so far.
proof fn lemma_scan_step(
    s: Seq<Sphere>,
    k: int,
    ray: Ray,
    t_min: i64,
    t_max: i64,
    t_closest: i64,
    prev: Option<HitRecord>,
    idx: int,
)
    requires
        0 <= k < s.len(),
        t_closest <= t_max,
        prev matches Some(h) ==> nearest_at(s, k, ray, t_min, t_max, idx, h) && h.t == t_closest,
        prev is None ==> t_closest == t_max && forall|j: int|
            0 <= j < k ==> #[trigger] sphere_hit(s[j], ray, t_min, t_max) is None,
    ensures
        ({
            let nh = sphere_hit(s[k], ray, t_min, t_closest);
            let next = if nh is Some {
                nh
            } else {
                prev
            };
            let next_idx = if nh is Some {
                k
            } else {
                idx
            };
            &&& next matches Some(h) ==> nearest_at(s, k + 1, ray, t_min, t_max, next_idx, h)
            &&& next is None ==> forall|j: int|
                0 <= j < k + 1 ==> #[trigger] sphere_hit(s[j], ray, t_min, t_max) is None
        }),
{
    lemma_hit_narrowed(s[k], ray, t_min, t_max, t_closest);
}

impl HittableList {
    pub fn new(hittables: Vec<Sphere>) -> (r: HittableList)
        ensures
            r.hittables@ == hittables@,
    {
        HittableList { hittables }
    }

    /// The nearest hit over all members with parameter in `(t_min, t_max)`.
    pub fn hit(&self, ray: &Ray, t_min: i64, t_max: i64) -> (r: Option<HitRecord>)
        ensures
            is_nearest_hit(self.hittables@, self.hittables@.len() as int, *ray, t_min, t_max, r),
            r matches Some(h) ==> t_min < h.t < t_max,
    {
        let ghost s = self.hittables@;
        let mut t_closest = t_max;
        let mut hit_record: Option<HitRecord> = None;
        let ghost mut idx: int = 0;
        let n = self.hittables.len();
        let mut k: usize = 0;
        while k < n
            invariant
                n == s.len(),
                s == self.hittables@,
                k <= n,
                t_closest <= t_max,
                hit_record matches Some(h) ==> nearest_at(s, k as int, *ray, t_min, t_max, idx, h)
                    && h.t == t_closest && t_min < h.t < t_max,
                hit_record is None ==> t_closest == t_max && forall|j: int|
                    0 <= j < k ==> #[trigger] sphere_hit(s[j], *ray, t_min, t_max) is None,
            decreases n - k,
        {
            proof {
                lemma_scan_step(s, k as int, *ray, t_min, t_max, t_closest, hit_record, idx);
            }
            match self.hittables[k].hit(ray, t_min, t_closest) {
                Some(hr) => {
                    t_closest = hr.t;
                    hit_record = Some(hr);
                    proof {
                        idx = k as int;
                    }
                },
                None => {},
            }
            k = k + 1;
        }
        proof {
            if let Some(h) = hit_record {
                assert(nearest_at(s, n as int, *ray, t_min, t_max, idx, h));
            }
        }
        hit_record
    }
}

/// Anything a ray can be intersected with: one sphere, or a list of them.
pub enum Hittable {
    Sphere(Sphere),
    List(HittableList),
}

impl Hittable {
    /// The nearest hit with parameter strictly between `t_min` and `t_max`.
    pub fn hit(&self, ray: &Ray, t_min: i64, t_max: i64) -> (r: Option<HitRecord>)
        ensures
            match *self {
                Hittable::Sphere(s) => r == sphere_hit(s, *ray, t_min, t_max),
                Hittable::List(l) => is_nearest_hit(l.hittables@, l.hittables@.len() as int, *ray, t_min, t_max, r),
            },
            r matches Some(h) ==> t_min < h.t < t_max,
    {
        match self {
            Hittable::Sphere(s) => s.hit(ray, t_min, t_max),
            Hittable::List(l) => l.hit(ray, t_min, t_max),
        }
    }
}

} // verus!
