//! Random sampling: draws from a small pseudo-random generator, and the
//! points in the unit ball built from them.
use vstd::prelude::*;
use rand::rngs::SmallRng;
use rand::Rng;
use crate::fixed::ONE;
use crate::vec3::{dot_spec, len_spec, unit_spec, v3, v_neg, Vec3};

verus! {

/// rand's `SmallRng`, carried through as an opaque generator state.
#[verifier::external_type_specification]
#[verifier::external_body]
pub struct ExSmallRng(SmallRng);

/// Draws that `random_in_unit_sphere` makes before it gives up on rejection
/// sampling; each draw is accepted with probability above one half.
pub const MAX_TRIES: u32 = 64;

/// Relies on rand's `Rng::gen_range` over a half-open `i64` range: the value
/// lies in `[lo, hi)`; the call panics on an empty range, excluded here.
#[verifier::external_body]
pub(crate) fn random_in(rng: &mut SmallRng, lo: i64, hi: i64) -> (r: i64)
    requires
        lo < hi,
    ensures
        lo <= r < hi,
{
    rng.gen_range(lo..hi)
}

/// A uniform fixed-point value in `[0, 1)`.
pub fn random_unit_interval(rng: &mut SmallRng) -> (r: i64)
    ensures
        0 <= r < ONE,
{
    random_in(rng, 0, ONE)
}

/// A draw is accepted when its length lies in `[min_len, 1)`.
pub open spec fn accepted(p: Vec3, min_len: i64) -> bool {
    min_len <= len_spec(p) < ONE
}

/// The first accepted draw of `draws`, if any.
pub open spec fn first_in_shell(draws: Seq<Vec3>, min_len: i64) -> Option<Vec3>
    decreases draws.len(),
{
    if draws.len() == 0 {
        None
    } else {
        match first_in_shell(draws.drop_last(), min_len) {
            Some(q) => Some(q),
            None => if accepted(draws.last(), min_len) {
                Some(draws.last())
            } else {
                None
            },
        }
    }
}

/// Every component of `p` lies in `[-1, 1)`.
pub open spec fn in_cube(p: Vec3) -> bool {
    -ONE <= p.x < ONE && -ONE <= p.y < ONE && -ONE <= p.z < ONE
}

/// `draws` is what rejection sampling drew: at most `MAX_TRIES` points of the
/// cube, stopping at the first accepted one.
pub open spec fn sampled(draws: Seq<Vec3>, min_len: i64) -> bool {
    &&& draws.len() <= MAX_TRIES
    &&& forall|i: int| 0 <= i < draws.len() ==> in_cube(#[trigger] draws[i])
    &&& draws.len() < MAX_TRIES ==> first_in_shell(draws, min_len) is Some
}

/// The first draw of `draws` whose length lies in `[min_len, 1)`.
pub fn first_in_shell_of(draws: &Vec<Vec3>, min_len: i64) -> (r: Option<Vec3>)
    ensures
        r == first_in_shell(draws@, min_len),
{
    let mut k: usize = 0;
    while k < draws.len()
        invariant
            k <= draws@.len(),
            first_in_shell(draws@.subrange(0, k as int), min_len) is None,
        decreases draws@.len() - k,
    {
        let ghost pre = draws@.subrange(0, k as int);
        assert(draws@.subrange(0, k as int + 1).drop_last() =~= pre);
        let p = draws[k];
        let l = p.length();
        if min_len <= l && l < ONE {
            proof {
                lemma_first_in_prefix(draws@, k as int + 1, min_len);
            }
            return Some(p);
        }
        k = k + 1;
    }
    assert(draws@.subrange(0, draws@.len() as int) =~= draws@);
    None
}

proof fn lemma_first_in_prefix(draws: Seq<Vec3>, n: int, min_len: i64)
    requires
        0 <= n <= draws.len(),
        first_in_shell(draws.subrange(0, n), min_len) is Some,
    ensures
        first_in_shell(draws, min_len) == first_in_shell(draws.subrange(0, n), min_len),
    decreases draws.len(),
{
    if n < draws.len() {
        assert(draws.drop_last().subrange(0, n) =~= draws.subrange(0, n));
        lemma_first_in_prefix(draws.drop_last(), n, min_len);
    } else {
        assert(draws.subrange(0, n) =~= draws);
    }
}

proof fn lemma_first_accepted(draws: Seq<Vec3>, min_len: i64)
    ensures
        first_in_shell(draws, min_len) matches Some(q) ==> accepted(q, min_len),
    decreases draws.len(),
{
    if draws.len() > 0 {
        lemma_first_accepted(draws.drop_last(), min_len);
    }
}

/// Rejection sampling in the cube `[-1, 1)^3` for a point whose length lies
/// in `[min_len, 1)`, giving up after `MAX_TRIES` draws.
fn sample_shell(rng: &mut SmallRng, min_len: i64) -> (r: Option<Vec3>)
    ensures
        exists|draws: Seq<Vec3>| sampled(draws, min_len) && r == #[trigger] first_in_shell(draws, min_len),
{
    let ghost mut draws: Seq<Vec3> = Seq::empty();
    let mut tries: u32 = 0;
    while tries < MAX_TRIES
        invariant
            tries <= MAX_TRIES,
            draws.len() == tries,
            forall|i: int| 0 <= i < draws.len() ==> in_cube(#[trigger] draws[i]),
            first_in_shell(draws, min_len) is None,
        decreases MAX_TRIES - tries,
    {
        let p = Vec3::new(random_in(rng, -ONE, ONE), random_in(rng, -ONE, ONE), random_in(rng, -ONE, ONE));
        let l = p.length();
        let ghost old_draws = draws;
        proof {
            draws = draws.push(p);
            assert(draws.drop_last() =~= old_draws);
            assert(draws.last() == p);
        }
        if min_len <= l && l < ONE {
            assert(first_in_shell(draws, min_len) == Some(p));
            assert(sampled(draws, min_len));
            return Some(p);
        }
        tries = tries + 1;
    }
    assert(sampled(draws, min_len));
    None
}

/// The point of the unit ball that rejection sampling gives: the first draw
/// inside it, else the centre.
pub open spec fn ball_point(draws: Seq<Vec3>) -> Vec3 {
    match first_in_shell(draws, 0) {
        Some(p) => p,
        None => v3(0, 0, 0),
    }
}

/// A point strictly inside the unit ball, by rejection sampling in the cube
/// `[-1, 1)^3`: the first draw inside the ball, or the centre after
/// `MAX_TRIES` rejected draws.
pub fn random_in_unit_sphere(rng: &mut SmallRng) -> (r: Vec3)
    ensures
        exists|draws: Seq<Vec3>| sampled(draws, 0) && r == #[trigger] ball_point(draws),
        len_spec(r) < ONE,
{
    let p = sample_shell(rng, 0);
    let z = Vec3::zero();
    assert(len_spec(z) == 0) by {
        assert(dot_spec(z, z) == 0);
    }
    let ghost draws = choose|draws: Seq<Vec3>| sampled(draws, 0) && p == #[trigger] first_in_shell(draws, 0);
    proof {
        lemma_first_accepted(draws, 0);
    }
    let r = match p {
        Some(q) => q,
        None => z,
    };
    assert(r == ball_point(draws));
    r
}

/// Shortest sample that `random_unit_vector` scales to unit length (1/2):
/// shorter ones lose too much precision when divided by their length.
pub const MIN_SAMPLE_LEN: i64 = 32768;

/// The direction that `random_unit_vector` gives for its draws: the first
/// draw of length in `[MIN_SAMPLE_LEN, 1)` scaled to unit length, else the
/// unit vector along `y`.
pub open spec fn unit_direction(draws: Seq<Vec3>) -> Vec3 {
    match first_in_shell(draws, MIN_SAMPLE_LEN) {
        Some(p) => unit_spec(p),
        None => v3(0, ONE, 0),
    }
}

/// A random direction: a point of the unit ball, long enough to normalise,
/// scaled to unit length.
pub fn random_unit_vector(rng: &mut SmallRng) -> (r: Vec3)
    ensures
        exists|draws: Seq<Vec3>| sampled(draws, MIN_SAMPLE_LEN) && r == #[trigger] unit_direction(draws),
{
    let s = sample_shell(rng, MIN_SAMPLE_LEN);
    let ghost draws = choose|draws: Seq<Vec3>|
        sampled(draws, MIN_SAMPLE_LEN) && s == #[trigger] first_in_shell(draws, MIN_SAMPLE_LEN);
    let r = match s {
        Some(p) => p.unit(),
        None => Vec3::new(0, ONE, 0),
    };
    assert(r == unit_direction(draws));
    r
}

/// `p` if it lies on the side of `normal`, else `-p`.
pub open spec fn hemisphere_spec(p: Vec3, normal: Vec3) -> Vec3 {
    if dot_spec(p, normal) > 0 {
        p
    } else {
        v_neg(p)
    }
}

/// Moves `p` to the half-space that `normal` points into.
pub fn flip_to_hemisphere(p: Vec3, normal: Vec3) -> (r: Vec3)
    ensures
        r == hemisphere_spec(p, normal),
{
    if p.dot(normal) > 0 {
        p
    } else {
        p.neg()
    }
}

/// A point of the unit ball on the side of `normal`.
pub fn random_in_hemisphere(normal: Vec3, rng: &mut SmallRng) -> (r: Vec3)
    ensures
        exists|p: Vec3| len_spec(p) < ONE && r == #[trigger] hemisphere_spec(p, normal),
{
    let p = random_in_unit_sphere(rng);
    flip_to_hemisphere(p, normal)
}

} // verus!
