//! Three-component fixed-point vectors, used for points, directions and colors.
use vstd::prelude::*;
use crate::fixed::{
    add_spec, div_spec, fadd, fdiv, fmul, fneg, fsqrt, fsub, is_isqrt, isqrt_spec, lemma_isqrt_spec,
    mul_spec, neg_spec, sqrt_spec, sub_spec, tdiv, MAXV, ONE, SCALE,
};
use vstd::arithmetic::div_mod::lemma_div_by_multiple;

verus! {

#[derive(Clone, Copy, Debug, PartialEq, Eq, Structural)]
pub struct Vec3 {
    pub x: i64,
    pub y: i64,
    pub z: i64,
}

pub type Point3 = Vec3;

pub type Color = Vec3;

pub open spec fn v3(x: i64, y: i64, z: i64) -> Vec3 {
    Vec3 { x, y, z }
}

pub open spec fn v_add(a: Vec3, b: Vec3) -> Vec3 {
    v3(add_spec(a.x, b.x), add_spec(a.y, b.y), add_spec(a.z, b.z))
}

pub open spec fn v_sub(a: Vec3, b: Vec3) -> Vec3 {
    v3(sub_spec(a.x, b.x), sub_spec(a.y, b.y), sub_spec(a.z, b.z))
}

pub open spec fn v_neg(a: Vec3) -> Vec3 {
    v3(neg_spec(a.x), neg_spec(a.y), neg_spec(a.z))
}

/// Each component multiplied by the scalar `k`.
pub open spec fn v_scale(a: Vec3, k: i64) -> Vec3 {
    v3(mul_spec(a.x, k), mul_spec(a.y, k), mul_spec(a.z, k))
}

/// Component-wise product.
pub open spec fn v_mul(a: Vec3, b: Vec3) -> Vec3 {
    v3(mul_spec(a.x, b.x), mul_spec(a.y, b.y), mul_spec(a.z, b.z))
}

/// Each component divided by the scalar `k` (all zero when `k` is zero).
pub open spec fn v_div(a: Vec3, k: i64) -> Vec3 {
    v3(div_spec(a.x, k), div_spec(a.y, k), div_spec(a.z, k))
}

pub open spec fn dot_spec(a: Vec3, b: Vec3) -> i64 {
    add_spec(add_spec(mul_spec(a.x, b.x), mul_spec(a.y, b.y)), mul_spec(a.z, b.z))
}

pub open spec fn cross_spec(a: Vec3, b: Vec3) -> Vec3 {
    v3(
        sub_spec(mul_spec(a.y, b.z), mul_spec(a.z, b.y)),
        sub_spec(mul_spec(a.z, b.x), mul_spec(a.x, b.z)),
        sub_spec(mul_spec(a.x, b.y), mul_spec(a.y, b.x)),
    )
}

pub open spec fn len2_spec(a: Vec3) -> i64 {
    dot_spec(a, a)
}

pub open spec fn len_spec(a: Vec3) -> i64 {
    sqrt_spec(len2_spec(a))
}

/// The vector divided by its length; the zero vector stays zero.
pub open spec fn unit_spec(a: Vec3) -> Vec3 {
    v_div(a, len_spec(a))
}

proof fn lemma_square_nonneg(x: i64)
    ensures
        mul_spec(x, x) >= 0,
        x == i64::MIN ==> mul_spec(x, x) == MAXV,
{
    assert(x * x >= 0) by (nonlinear_arith);
    if x == i64::MIN {
        assert(x * x == 0x4000_0000_0000_0000_0000_0000_0000_0000int);
        lemma_div_by_multiple(0x4000_0000_0000_0000_0000_0000_0000int, 65536);
        assert(0x4000_0000_0000_0000_0000_0000_0000int * 65536 == 0x4000_0000_0000_0000_0000_0000_0000_0000int);
        assert(tdiv(x * x, SCALE as int) == 0x4000_0000_0000_0000_0000_0000_0000int);
    }
}

proof fn lemma_div_by_one(x: i64)
    requires
        x > i64::MIN,
    ensures
        div_spec(x, ONE) == x,
{
    let ax: int = if x < 0 { -x } else { x as int };
    lemma_div_by_multiple(ax, SCALE as int);
    assert(ax * SCALE == ax * (SCALE as int));
    assert(tdiv(x * SCALE, ONE as int) == x as int) by {
        if x < 0 {
            assert(x * SCALE < 0) by (nonlinear_arith)
                requires
                    x < 0,
            ;
            assert(-(x * SCALE) == ax * SCALE) by (nonlinear_arith)
                requires
                    ax == -x,
            ;
        } else {
            assert(x * SCALE >= 0) by (nonlinear_arith)
                requires
                    x >= 0,
            ;
        }
    }
}

/// A vector whose squared length is exactly one is its own unit vector, so
/// normalizing it again changes nothing.
pub proof fn lemma_unit_of_exact_unit(v: Vec3)
    requires
        len2_spec(v) == ONE,
    ensures
        len_spec(v) == ONE,
        unit_spec(v) == v,
{
    let n = ONE as int * SCALE as int;
    assert(is_isqrt(ONE as int, n));
    lemma_isqrt_spec(n);
    assert(isqrt_spec(n) == ONE);
    lemma_square_nonneg(v.x);
    lemma_square_nonneg(v.y);
    lemma_square_nonneg(v.z);
    lemma_div_by_one(v.x);
    lemma_div_by_one(v.y);
    lemma_div_by_one(v.z);
}

impl Vec3 {
    pub fn new(x: i64, y: i64, z: i64) -> (r: Vec3)
        ensures
            r == v3(x, y, z),
    {
        Vec3 { x, y, z }
    }

    pub fn zero() -> (r: Vec3)
        ensures
            r == v3(0, 0, 0),
    {
        Vec3 { x: 0, y: 0, z: 0 }
    }

    /// The vector with every component one.
    pub fn ones() -> (r: Vec3)
        ensures
            r == v3(ONE, ONE, ONE),
    {
        Vec3 { x: ONE, y: ONE, z: ONE }
    }

    pub fn add(self, o: Vec3) -> (r: Vec3)
        ensures
            r == v_add(self, o),
    {
        Vec3 { x: fadd(self.x, o.x), y: fadd(self.y, o.y), z: fadd(self.z, o.z) }
    }

    pub fn sub(self, o: Vec3) -> (r: Vec3)
        ensures
            r == v_sub(self, o),
    {
        Vec3 { x: fsub(self.x, o.x), y: fsub(self.y, o.y), z: fsub(self.z, o.z) }
    }

    pub fn neg(self) -> (r: Vec3)
        ensures
            r == v_neg(self),
    {
        Vec3 { x: fneg(self.x), y: fneg(self.y), z: fneg(self.z) }
    }

    pub fn scale(self, k: i64) -> (r: Vec3)
        ensures
            r == v_scale(self, k),
    {
        Vec3 { x: fmul(self.x, k), y: fmul(self.y, k), z: fmul(self.z, k) }
    }

    pub fn elemul(self, o: Vec3) -> (r: Vec3)
        ensures
            r == v_mul(self, o),
    {
        Vec3 { x: fmul(self.x, o.x), y: fmul(self.y, o.y), z: fmul(self.z, o.z) }
    }

    pub fn div(self, k: i64) -> (r: Vec3)
        ensures
            r == v_div(self, k),
    {
        Vec3 { x: fdiv(self.x, k), y: fdiv(self.y, k), z: fdiv(self.z, k) }
    }

    pub fn dot(self, o: Vec3) -> (r: i64)
        ensures
            r == dot_spec(self, o),
    {
        fadd(fadd(fmul(self.x, o.x), fmul(self.y, o.y)), fmul(self.z, o.z))
    }

    pub fn cross(self, o: Vec3) -> (r: Vec3)
        ensures
            r == cross_spec(self, o),
    {
        Vec3 {
            x: fsub(fmul(self.y, o.z), fmul(self.z, o.y)),
            y: fsub(fmul(self.z, o.x), fmul(self.x, o.z)),
            z: fsub(fmul(self.x, o.y), fmul(self.y, o.x)),
        }
    }

    pub fn squared_length(self) -> (r: i64)
        ensures
            r == len2_spec(self),
    {
        self.dot(self)
    }

    pub fn length(self) -> (r: i64)
        ensures
            r == len_spec(self),
    {
        fsqrt(self.squared_length())
    }

    pub fn unit(self) -> (r: Vec3)
        ensures
            r == unit_spec(self),
    {
        self.div(self.length())
    }
}

} // verus!
