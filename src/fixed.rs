//! Saturating fixed-point scalars.
//!
//! A real number `v` is held as the `i64` nearest below-or-toward-zero of
//! `v * SCALE`. Every operation is total: it is computed exactly on wider
//! integers, rounded toward zero, and saturated to `[-MAXV, MAXV]`.
use vstd::prelude::*;

verus! {

/// Raw units in one real unit.
pub const SCALE: i64 = 65536;

/// Largest magnitude of a fixed-point value.
pub const MAXV: i64 = 0x7fff_ffff_ffff_ffff;

/// The fixed-point value of one.
pub const ONE: i64 = 65536;

pub open spec fn sat(x: int) -> int {
    if x > MAXV as int {
        MAXV as int
    } else if x < -(MAXV as int) {
        -(MAXV as int)
    } else {
        x
    }
}

pub open spec fn abs(x: int) -> int {
    if x < 0 {
        -x
    } else {
        x
    }
}

/// Integer division rounding toward zero (`d != 0`).
pub open spec fn tdiv(n: int, d: int) -> int {
    if (n < 0) == (d < 0) {
        abs(n) / abs(d)
    } else {
        -(abs(n) / abs(d))
    }
}

pub open spec fn add_spec(a: i64, b: i64) -> i64 {
    sat(a + b) as i64
}

pub open spec fn sub_spec(a: i64, b: i64) -> i64 {
    sat(a - b) as i64
}

pub open spec fn neg_spec(a: i64) -> i64 {
    sat(-a) as i64
}

pub open spec fn mul_spec(a: i64, b: i64) -> i64 {
    sat(tdiv(a * b, SCALE as int)) as i64
}

/// Quotient `a / b`; a zero divisor gives zero.
pub open spec fn div_spec(a: i64, b: i64) -> i64 {
    if b == 0 {
        0
    } else {
        sat(tdiv(a * SCALE, b as int)) as i64
    }
}

pub open spec fn is_isqrt(r: int, n: int) -> bool {
    0 <= r && r * r <= n < (r + 1) * (r + 1)
}

/// The integer square root of `n` (zero for negative `n`).
pub open spec fn isqrt_spec(n: int) -> int {
    if n <= 0 {
        0
    } else {
        choose|r: int| #[trigger] is_isqrt(r, n)
    }
}

/// Square root of a fixed-point value; negative inputs give zero.
pub open spec fn sqrt_spec(a: i64) -> i64 {
    isqrt_spec(a * SCALE) as i64
}

pub open spec fn min_spec(a: i64, b: i64) -> i64 {
    if a <= b {
        a
    } else {
        b
    }
}

proof fn lemma_isqrt_exists(n: int)
    requires
        n >= 0,
    ensures
        exists|r: int| #[trigger] is_isqrt(r, n),
    decreases n,
{
    if n == 0 {
        assert(is_isqrt(0, 0));
    } else {
        lemma_isqrt_exists(n - 1);
        let r = choose|r: int| #[trigger] is_isqrt(r, n - 1);
        if (r + 1) * (r + 1) <= n {
            assert((r + 1) * (r + 1) == n) by (nonlinear_arith)
                requires
                    (r + 1) * (r + 1) <= n,
                    n - 1 < (r + 1) * (r + 1),
            ;
            assert(n < (r + 2) * (r + 2)) by (nonlinear_arith)
                requires
                    (r + 1) * (r + 1) == n,
                    r >= 0,
            ;
            assert(is_isqrt(r + 1, n));
        } else {
            assert(is_isqrt(r, n));
        }
    }
}

proof fn lemma_isqrt_unique(r1: int, r2: int, n: int)
    requires
        is_isqrt(r1, n),
        is_isqrt(r2, n),
    ensures
        r1 == r2,
{
    if r1 < r2 {
        assert((r1 + 1) * (r1 + 1) <= r2 * r2) by (nonlinear_arith)
            requires
                0 <= r1 + 1 <= r2,
        ;
    } else if r2 < r1 {
        assert((r2 + 1) * (r2 + 1) <= r1 * r1) by (nonlinear_arith)
            requires
                0 <= r2 + 1 <= r1,
        ;
    }
}

/// The integer square root is the one root that brackets `n`.
pub proof fn lemma_isqrt_spec(n: int)
    requires
        n > 0,
    ensures
        is_isqrt(isqrt_spec(n), n),
        forall|r: int| #[trigger] is_isqrt(r, n) ==> r == isqrt_spec(n),
{
    lemma_isqrt_exists(n);
    assert forall|r: int| is_isqrt(r, n) implies r == isqrt_spec(n) by {
        lemma_isqrt_unique(r, isqrt_spec(n), n);
    }
}

proof fn lemma_i64_product(a: int, b: int)
    requires
        -0x8000_0000_0000_0000 <= a <= 0x7fff_ffff_ffff_ffff,
        -0x8000_0000_0000_0000 <= b <= 0x7fff_ffff_ffff_ffff,
    ensures
        -0x4000_0000_0000_0000_0000_0000_0000_0000 <= a * b <= 0x4000_0000_0000_0000_0000_0000_0000_0000,
{
    assert(-0x4000_0000_0000_0000_0000_0000_0000_0000 <= a * b <= 0x4000_0000_0000_0000_0000_0000_0000_0000)
        by (nonlinear_arith)
        requires
            -0x8000_0000_0000_0000 <= a <= 0x7fff_ffff_ffff_ffff,
            -0x8000_0000_0000_0000 <= b <= 0x7fff_ffff_ffff_ffff,
    ;
}

fn sat_i128(x: i128) -> (r: i64)
    ensures
        r == sat(x as int),
{
    if x > MAXV as i128 {
        MAXV
    } else if x < -(MAXV as i128) {
        -MAXV
    } else {
        x as i64
    }
}

/// `n / d` rounded toward zero, for `d > 0`.
fn tdiv_i128(n: i128, d: i128) -> (r: i128)
    requires
        d > 0,
        n > i128::MIN,
    ensures
        r == tdiv(n as int, d as int),
{
    if n >= 0 {
        ((n as u128) / (d as u128)) as i128
    } else {
        let m: u128 = (-n) as u128;
        let q: u128 = m / (d as u128);
        assert(q <= m) by (nonlinear_arith)
            requires
                q == m / (d as u128),
                d > 0,
        ;
        -(q as i128)
    }
}

pub fn fadd(a: i64, b: i64) -> (r: i64)
    ensures
        r == add_spec(a, b),
{
    sat_i128(a as i128 + b as i128)
}

pub fn fsub(a: i64, b: i64) -> (r: i64)
    ensures
        r == sub_spec(a, b),
{
    sat_i128(a as i128 - b as i128)
}

pub fn fneg(a: i64) -> (r: i64)
    ensures
        r == neg_spec(a),
{
    sat_i128(-(a as i128))
}

pub fn fmul(a: i64, b: i64) -> (r: i64)
    ensures
        r == mul_spec(a, b),
{
    proof {
        lemma_i64_product(a as int, b as int);
    }
    let p: i128 = (a as i128) * (b as i128);
    sat_i128(tdiv_i128(p, SCALE as i128))
}

pub fn fdiv(a: i64, b: i64) -> (r: i64)
    ensures
        r == div_spec(a, b),
{
    if b == 0 {
        return 0;
    }
    proof {
        lemma_i64_product(a as int, SCALE as int);
    }
    let n: i128 = (a as i128) * (SCALE as i128);
    if b > 0 {
        sat_i128(tdiv_i128(n, b as i128))
    } else {
        let q = tdiv_i128(n, -(b as i128));
        assert(tdiv(n as int, b as int) == -tdiv(n as int, -(b as int)));
        sat_i128(-q)
    }
}

/// The integer square root of `n`, by bisection.
fn isqrt_u128(n: u128) -> (r: u128)
    requires
        n < 0x1_0000_0000_0000_0000_0000,
    ensures
        r == isqrt_spec(n as int),
{
    if n == 0 {
        return 0;
    }
    let mut lo: u128 = 0;
    let mut hi: u128 = 0x100_0000_0000;
    assert(hi * hi == 0x1_0000_0000_0000_0000_0000);
    while hi - lo > 1
        invariant
            lo < hi <= 0x100_0000_0000,
            lo * lo <= n,
            n < hi * hi,
        decreases hi - lo,
    {
        let mid: u128 = lo + (hi - lo) / 2;
        assert(mid * mid <= 0x1_0000_0000_0000_0000_0000) by (nonlinear_arith)
            requires
                mid <= 0x100_0000_0000,
        ;
        if mid * mid <= n {
            lo = mid;
        } else {
            hi = mid;
        }
    }
    proof {
        assert(is_isqrt(lo as int, n as int));
        lemma_isqrt_spec(n as int);
    }
    lo
}

pub fn fsqrt(a: i64) -> (r: i64)
    ensures
        r == sqrt_spec(a),
        r >= 0,
{
    if a <= 0 {
        return 0;
    }
    assert((a as int) * 65536 < 0x1_0000_0000_0000_0000_0000) by (nonlinear_arith)
        requires
            0 < a <= 0x7fff_ffff_ffff_ffff,
    ;
    let n: u128 = (a as u128) * (SCALE as u128);
    let r = isqrt_u128(n);
    proof {
        lemma_isqrt_spec(n as int);
        assert(r < 0x1_0000_0000_0000) by (nonlinear_arith)
            requires
                r * r <= n,
                n < 0x1_0000_0000_0000_0000_0000,
                r >= 0,
        ;
    }
    r as i64
}

pub fn fmin(a: i64, b: i64) -> (r: i64)
    ensures
        r == min_spec(a, b),
{
    if a <= b {
        a
    } else {
        b
    }
}

pub open spec fn abs_spec(a: i64) -> i64 {
    sat(abs(a as int)) as i64
}

pub fn fabs(a: i64) -> (r: i64)
    ensures
        r == abs_spec(a),
        r >= 0,
{
    if a < 0 {
        sat_i128(-(a as i128))
    } else {
        a
    }
}

/// Square roots are never negative.
pub proof fn lemma_sqrt_nonneg(a: i64)
    ensures
        sqrt_spec(a) >= 0,
{
    let n = a as int * SCALE as int;
    if n > 0 {
        lemma_isqrt_spec(n);
        let r = isqrt_spec(n);
        assert(n < 0x1_0000_0000_0000_0000_0000) by (nonlinear_arith)
            requires
                n == a as int * 65536,
                a <= 0x7fff_ffff_ffff_ffff,
        ;
        assert(r < 0x1_0000_0000_0000) by (nonlinear_arith)
            requires
                r * r <= n,
                n < 0x1_0000_0000_0000_0000_0000,
                r >= 0,
        ;
    }
}

} // verus!
