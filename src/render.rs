//! The row-band renderer: how the image is split into bands of rows, how a
//! band is rendered, and how the bands are put back together.
use vstd::prelude::*;
use vstd::arithmetic::div_mod::{lemma_div_is_ordered, lemma_div_by_multiple, lemma_fundamental_div_mod};
use rand::rngs::SmallRng;
use crate::camera::Camera;
use crate::fixed::{div_spec, fdiv, fmul, fsqrt, mul_spec, sqrt_spec, ONE};
use crate::hittable::HittableList;
use crate::integrator::{color_outcome, ray_color};
use crate::camera::camera_ray;
use crate::ray::Ray;
use crate::sphere::Sphere;
use crate::random::random_unit_interval;
use crate::utils::{clamp, clamp_spec};
use crate::vec3::{len_spec, v3, v_add, Color, Vec3};

verus! {

/// First row of band `i` of `n_jobs`.
pub open spec fn band_begin(height: nat, n_jobs: nat, i: nat) -> nat {
    (height * i / n_jobs) as nat
}

/// Row after the last row of band `i` of `n_jobs`.
pub open spec fn band_end(height: nat, n_jobs: nat, i: nat) -> nat {
    (height * (i + 1) / n_jobs) as nat
}

/// Row `y` lies in band `i`.
pub open spec fn in_band(height: nat, n_jobs: nat, i: nat, y: nat) -> bool {
    band_begin(height, n_jobs, i) <= y && y < band_end(height, n_jobs, i)
}

/// Row `y` lies in one of the first `k` bands.
pub open spec fn covered(height: nat, n_jobs: nat, k: nat, y: nat) -> bool {
    exists|i: nat| i < k && #[trigger] in_band(height, n_jobs, i, y)
}

proof fn lemma_band_begin_monotone(height: nat, n_jobs: nat, i: nat, j: nat)
    requires
        n_jobs >= 1,
        i <= j,
    ensures
        band_begin(height, n_jobs, i) <= band_begin(height, n_jobs, j),
{
    assert(height * i <= height * j) by (nonlinear_arith)
        requires
            i <= j,
    ;
    lemma_div_is_ordered((height * i) as int, (height * j) as int, n_jobs as int);
}

proof fn lemma_bands_cover_prefix(height: nat, n_jobs: nat, k: nat)
    requires
        n_jobs >= 1,
    ensures
        forall|y: nat| y < band_begin(height, n_jobs, k) ==> #[trigger] covered(height, n_jobs, k, y),
    decreases k,
{
    if k == 0 {
        assert(height * 0 == 0);
        assert(band_begin(height, n_jobs, 0) == 0);
    } else {
        lemma_bands_cover_prefix(height, n_jobs, (k - 1) as nat);
        assert forall|y: nat| y < band_begin(height, n_jobs, k) implies #[trigger] covered(height, n_jobs, k, y) by {
            let p = (k - 1) as nat;
            assert(band_end(height, n_jobs, p) == band_begin(height, n_jobs, k));
            if y >= band_begin(height, n_jobs, p) {
                assert(in_band(height, n_jobs, p, y));
            } else {
                assert(covered(height, n_jobs, p, y));
                let i = choose|i: nat| i < p && #[trigger] in_band(height, n_jobs, i, y);
                assert(in_band(height, n_jobs, i, y));
            }
        }
    }
}

/// The bands split the rows `[0, height)` without gap or overlap: the first
/// starts at row zero, each starts where the one before ends, the last ends
/// at `height`, and every row lies in exactly one band. This holds for any
/// height, also one below `n_jobs`, where some bands are empty.
pub proof fn lemma_bands_partition(height: nat, n_jobs: nat)
    requires
        n_jobs >= 1,
    ensures
        band_begin(height, n_jobs, 0) == 0,
        band_end(height, n_jobs, (n_jobs - 1) as nat) == height,
        forall|i: nat| i + 1 < n_jobs ==> #[trigger] band_end(height, n_jobs, i) == band_begin(height, n_jobs, i + 1),
        forall|i: nat| #[trigger] band_begin(height, n_jobs, i) <= band_end(height, n_jobs, i),
        forall|y: nat| y < height ==> #[trigger] covered(height, n_jobs, n_jobs, y),
        forall|y: nat, i: nat, j: nat|
            #[trigger] in_band(height, n_jobs, i, y) && #[trigger] in_band(height, n_jobs, j, y) ==> i == j,
{
    assert(band_begin(height, n_jobs, 0) == 0);
    lemma_div_by_multiple(height as int, n_jobs as int);
    assert(height * ((n_jobs - 1) as nat + 1) == height * n_jobs);
    assert forall|i: nat| #[trigger] band_begin(height, n_jobs, i) <= band_end(height, n_jobs, i) by {
        lemma_band_begin_monotone(height, n_jobs, i, i + 1);
    }
    lemma_bands_cover_prefix(height, n_jobs, n_jobs);
    assert forall|y: nat, i: nat, j: nat|
        #[trigger] in_band(height, n_jobs, i, y) && #[trigger] in_band(height, n_jobs, j, y) implies i == j by {
        if i < j {
            lemma_band_begin_monotone(height, n_jobs, i + 1, j);
        } else if j < i {
            lemma_band_begin_monotone(height, n_jobs, j + 1, i);
        }
    }
}

/// How many of the first `k` bands hold at least one row.
pub open spec fn nonempty_bands(height: nat, n_jobs: nat, k: nat) -> nat
    decreases k,
{
    if k == 0 {
        0
    } else {
        nonempty_bands(height, n_jobs, (k - 1) as nat) + if band_begin(height, n_jobs, (k - 1) as nat) < band_end(
            height,
            n_jobs,
            (k - 1) as nat,
        ) {
            1nat
        } else {
            0nat
        }
    }
}

proof fn lemma_band_at_most_one_row(height: nat, n_jobs: nat, i: nat)
    requires
        height < n_jobs,
    ensures
        band_end(height, n_jobs, i) <= band_begin(height, n_jobs, i) + 1,
{
    let x = (height * i) as int;
    let n = n_jobs as int;
    lemma_fundamental_div_mod(x, n);
    lemma_fundamental_div_mod(x + height, n);
    assert(height * (i + 1) == x + height) by (nonlinear_arith)
        requires
            x == height * i,
    ;
    let q = x / n;
    let q2 = (x + height) / n;
    assert(q2 <= q + 1) by (nonlinear_arith)
        requires
            x == n * q + x % n,
            x + height == n * q2 + (x + height) % n,
            0 <= x % n < n,
            0 <= (x + height) % n,
            0 <= height < n,
    ;
}

/// With fewer rows than bands, every band holds at most one row, and exactly
/// `height` of the bands are not empty.
pub proof fn lemma_bands_below_jobs(height: nat, n_jobs: nat)
    requires
        height < n_jobs,
    ensures
        forall|i: nat| #[trigger] band_end(height, n_jobs, i) <= band_begin(height, n_jobs, i) + 1,
        nonempty_bands(height, n_jobs, n_jobs) == height,
{
    assert forall|i: nat| #[trigger] band_end(height, n_jobs, i) <= band_begin(height, n_jobs, i) + 1 by {
        lemma_band_at_most_one_row(height, n_jobs, i);
    }
    lemma_nonempty_count(height, n_jobs, n_jobs);
    lemma_div_by_multiple(height as int, n_jobs as int);
}

proof fn lemma_nonempty_count(height: nat, n_jobs: nat, k: nat)
    requires
        height < n_jobs,
    ensures
        nonempty_bands(height, n_jobs, k) == band_begin(height, n_jobs, k),
    decreases k,
{
    if k == 0 {
        assert(height * 0 == 0);
    } else {
        let p = (k - 1) as nat;
        lemma_nonempty_count(height, n_jobs, p);
        lemma_band_at_most_one_row(height, n_jobs, p);
        lemma_band_begin_monotone(height, n_jobs, p, k);
        assert(band_end(height, n_jobs, p) == band_begin(height, n_jobs, k));
    }
}

/// The rows `[row_begin, row_end)` of band `i` of `n_jobs`.
pub fn band_rows(height: usize, n_jobs: usize, i: usize) -> (r: (usize, usize))
    requires
        n_jobs >= 1,
        i < n_jobs,
        height * n_jobs <= usize::MAX,
    ensures
        r.0 == band_begin(height as nat, n_jobs as nat, i as nat),
        r.1 == band_end(height as nat, n_jobs as nat, i as nat),
        r.0 <= r.1 <= height,
{
    proof {
        assert(height * i <= height * (i + 1) <= height * n_jobs) by (nonlinear_arith)
            requires
                i < n_jobs,
        ;
        lemma_band_begin_monotone(height as nat, n_jobs as nat, i as nat, (i + 1) as nat);
        lemma_div_by_multiple(height as int, n_jobs as int);
        lemma_div_is_ordered((height * (i + 1)) as int, (height * n_jobs) as int, n_jobs as int);
    }
    let b = height * i / n_jobs;
    let e = height * (i + 1) / n_jobs;
    (b, e)
}

/// 255.999, the factor from a color component in `[0, 1)` to a byte.
pub const BYTE_SCALE: i64 = 16777150;

/// 255 as a fixed-point value.
pub const BYTE_MAX: i64 = 16711680;

/// Largest image side, in pixels.
pub const MAX_SIDE: u32 = 0x10_0000;

/// A rendered band: rows `[row_begin, row_end)` of the image, each row holding
/// three bytes (red, green, blue) per pixel.
pub struct Band {
    pub row_begin: usize,
    pub row_end: usize,
    pub rows: Vec<Vec<u8>>,
}

/// The byte for a channel whose colors over `samples` samples sum to `sum`:
/// the mean, gamma-corrected by a square root, scaled by 255.999 and
/// truncated, kept within `[0, 255]`.
pub open spec fn channel_byte(sum: i64, samples: u32) -> u8 {
    let g = sqrt_spec(div_spec(sum, (samples * ONE) as i64));
    (clamp_spec(mul_spec(g, BYTE_SCALE), 0, BYTE_MAX) / ONE) as u8
}

pub open spec fn pixel_bytes(sum: Color, samples: u32) -> (u8, u8, u8) {
    (channel_byte(sum.x, samples), channel_byte(sum.y, samples), channel_byte(sum.z, samples))
}

/// The viewport coordinate of pixel index `x` jittered by `jitter`:
/// `(x + jitter) / (extent - 1)`.
pub open spec fn viewport_coord(x: u32, jitter: i64, extent: u32) -> i64 {
    div_spec((x * ONE + jitter) as i64, ((extent - 1) * ONE) as i64)
}

pub fn channel_to_byte(sum: i64, samples: u32) -> (r: u8)
    ensures
        r == channel_byte(sum, samples),
{
    let n: i64 = samples as i64 * ONE;
    let g = fsqrt(fdiv(sum, n));
    let c = clamp(fmul(g, BYTE_SCALE), 0, BYTE_MAX);
    ((c as u64) / (ONE as u64)) as u8
}

/// The output pixel for a color sum over `samples` samples.
pub fn finish_pixel(sum: Color, samples: u32) -> (r: (u8, u8, u8))
    ensures
        r == pixel_bytes(sum, samples),
{
    (channel_to_byte(sum.x, samples), channel_to_byte(sum.y, samples), channel_to_byte(sum.z, samples))
}

pub fn pixel_coord(x: u32, jitter: i64, extent: u32) -> (r: i64)
    requires
        x <= MAX_SIDE,
        0 <= jitter < ONE,
        1 <= extent <= MAX_SIDE,
    ensures
        r == viewport_coord(x, jitter, extent),
{
    fdiv(x as i64 * ONE + jitter, (extent as i64 - 1) * ONE)
}

/// The sum of `cs`, added in order.
pub open spec fn color_sum(cs: Seq<Color>) -> Color
    decreases cs.len(),
{
    if cs.len() == 0 {
        v3(0, 0, 0)
    } else {
        v_add(color_sum(cs.drop_last()), cs.last())
    }
}

/// The camera ray for sample `(jx, jy, rd)` of pixel `(x, y)`.
pub open spec fn sample_ray(camera: Camera, x: u32, y: u32, width: u32, height: u32, jx: i64, jy: i64, rd: Vec3) -> Ray {
    camera_ray(camera, viewport_coord(x, jx, width), viewport_coord(y, jy, height), rd)
}

/// Sample `(jx, jy, rd)` of pixel `(x, y)` is drawn in range, and `c` is a
/// possible outcome of tracing its camera ray with `depth` bounces.
pub open spec fn sample_ok(
    world: Seq<Sphere>,
    camera: Camera,
    x: u32,
    y: u32,
    width: u32,
    height: u32,
    depth: u32,
    jx: i64,
    jy: i64,
    rd: Vec3,
    c: Color,
) -> bool {
    0 <= jx < ONE && 0 <= jy < ONE && len_spec(rd) < ONE
        && color_outcome(world, sample_ray(camera, x, y, width, height, jx, jy, rd), depth as nat, c)
}

/// `p` is a pixel that rendering `(x, y)` can give: the finished sum of
/// `samples` colors, each a possible outcome of tracing, with `depth` bounces,
/// the camera ray through the pixel jittered by draws in `[0, 1)` and leaving
/// from a lens point of the unit ball.
pub open spec fn traced_pixel(
    world: Seq<Sphere>,
    camera: Camera,
    x: u32,
    y: u32,
    width: u32,
    height: u32,
    samples: u32,
    depth: u32,
    p: (u8, u8, u8),
) -> bool {
    exists|jx: Seq<i64>, jy: Seq<i64>, rd: Seq<Vec3>, cs: Seq<Color>|
        #![trigger color_sum(cs), jx.len(), jy.len(), rd.len()]
        jx.len() == samples && jy.len() == samples && rd.len() == samples && cs.len() == samples
        && (forall|k: int|
            0 <= k < samples ==> sample_ok(world, camera, x, y, width, height, depth, jx[k], jy[k], rd[k], #[trigger] cs[k]))
        && p == pixel_bytes(color_sum(cs), samples)
}

/// The output pixel for the colors of its samples.
pub fn pixel_from_colors(colors: &Vec<Color>, samples: u32) -> (r: (u8, u8, u8))
    ensures
        r == pixel_bytes(color_sum(colors@), samples),
{
    let mut sum = Vec3::zero();
    let mut k: usize = 0;
    while k < colors.len()
        invariant
            k <= colors@.len(),
            sum == color_sum(colors@.subrange(0, k as int)),
        decreases colors@.len() - k,
    {
        proof {
            assert(colors@.subrange(0, k as int + 1).drop_last() =~= colors@.subrange(0, k as int));
        }
        sum = sum.add(colors[k]);
        k = k + 1;
    }
    assert(colors@.subrange(0, colors@.len() as int) =~= colors@);
    finish_pixel(sum, samples)
}

/// The pixel at column `x` of row `y`: `samples` jittered camera rays traced
/// to `max_depth` bounces, their colors summed and finished.
pub fn render_pixel(
    world: &HittableList,
    camera: &Camera,
    x: u32,
    y: u32,
    width: u32,
    height: u32,
    samples: u32,
    max_depth: u32,
    rng: &mut SmallRng,
) -> (r: (u8, u8, u8))
    requires
        x < width <= MAX_SIDE,
        y < height <= MAX_SIDE,
    ensures
        traced_pixel(world.hittables@, *camera, x, y, width, height, samples, max_depth, r),
{
    let ghost mut jxs: Seq<i64> = Seq::empty();
    let ghost mut jys: Seq<i64> = Seq::empty();
    let ghost mut rds: Seq<Vec3> = Seq::empty();
    let mut colors: Vec<Color> = Vec::new();
    let mut k: u32 = 0;
    while k < samples
        invariant
            k <= samples,
            x < width <= MAX_SIDE,
            y < height <= MAX_SIDE,
            jxs.len() == k && jys.len() == k && rds.len() == k && colors@.len() == k,
            forall|i: int|
                0 <= i < k ==> sample_ok(world.hittables@, *camera, x, y, width, height, max_depth, jxs[i], jys[i], rds[i], #[trigger] colors@[i]),
        decreases samples - k,
    {
        let jx = random_unit_interval(rng);
        let jy = random_unit_interval(rng);
        let u = pixel_coord(x, jx, width);
        let v = pixel_coord(y, jy, height);
        let ray = camera.get_ray(u, v, rng);
        let ghost rd = choose|rd: Vec3| len_spec(rd) < ONE && ray == #[trigger] camera_ray(*camera, u, v, rd);
        let c = ray_color(world, &ray, max_depth, rng);
        let ghost old_colors = colors@;
        let ghost old_jx = jxs;
        let ghost old_jy = jys;
        let ghost old_rd = rds;
        colors.push(c);
        k = k + 1;
        proof {
            assert(sample_ray(*camera, x, y, width, height, jx, jy, rd) == ray);
            jxs = jxs.push(jx);
            jys = jys.push(jy);
            rds = rds.push(rd);
            assert forall|i: int|
                0 <= i < k implies sample_ok(world.hittables@, *camera, x, y, width, height, max_depth, jxs[i], jys[i], rds[i], #[trigger] colors@[i]) by {
                if i == k - 1 {
                    assert(colors@[i] == c);
                    assert(jxs[i] == jx && jys[i] == jy && rds[i] == rd);
                } else {
                    assert(old_colors[i] == colors@[i]);
                    assert(old_jx[i] == jxs[i] && old_jy[i] == jys[i] && old_rd[i] == rds[i]);
                }
            }
        }
    }
    let r = pixel_from_colors(&colors, samples);
    assert(jxs.len() == samples && jys.len() == samples && rds.len() == samples);
    assert(traced_pixel(world.hittables@, *camera, x, y, width, height, samples, max_depth, r)) by {
        assert(r == pixel_bytes(color_sum(colors@), samples));
        assert(colors@.len() == samples);
    }
    r
}

/// Pixel `x` of `row` (its three bytes) is a pixel that rendering `(x, y)` can give.
pub open spec fn row_pixel_ok(
    row: Seq<u8>,
    x: int,
    world: Seq<Sphere>,
    camera: Camera,
    y: u32,
    width: u32,
    height: u32,
    samples: u32,
    depth: u32,
) -> bool {
    traced_pixel(world, camera, x as u32, y, width, height, samples, depth, (row[3 * x], row[3 * x + 1], row[3 * x + 2]))
}

/// Renders rows `[row_begin, row_end)`, each as `width` pixels of three bytes.
pub fn render_band(
    world: &HittableList,
    camera: &Camera,
    width: u32,
    height: u32,
    samples: u32,
    max_depth: u32,
    row_begin: u32,
    row_end: u32,
    rng: &mut SmallRng,
) -> (r: Band)
    requires
        width <= MAX_SIDE,
        row_begin <= row_end <= height <= MAX_SIDE,
    ensures
        r.row_begin == row_begin,
        r.row_end == row_end,
        r.rows@.len() == row_end - row_begin,
        forall|i: int| 0 <= i < r.rows@.len() ==> (#[trigger] r.rows@[i])@.len() == 3 * width,
        forall|i: int, x: int|
            0 <= i < r.rows@.len() && 0 <= x < width ==> #[trigger] row_pixel_ok(
                r.rows@[i]@,
                x,
                world.hittables@,
                *camera,
                (row_begin + i) as u32,
                width,
                height,
                samples,
                max_depth,
            ),
{
    let mut rows: Vec<Vec<u8>> = Vec::new();
    let mut y: u32 = row_begin;
    while y < row_end
        invariant
            row_begin <= y <= row_end,
            width <= MAX_SIDE,
            row_end <= height <= MAX_SIDE,
            rows@.len() == y - row_begin,
            forall|i: int| 0 <= i < rows@.len() ==> (#[trigger] rows@[i])@.len() == 3 * width,
            forall|i: int, x: int|
                0 <= i < rows@.len() && 0 <= x < width ==> #[trigger] row_pixel_ok(
                    rows@[i]@,
                    x,
                    world.hittables@,
                    *camera,
                    (row_begin + i) as u32,
                    width,
                    height,
                    samples,
                    max_depth,
                ),
        decreases row_end - y,
    {
        let mut row: Vec<u8> = Vec::new();
        let mut x: u32 = 0;
        while x < width
            invariant
                x <= width <= MAX_SIDE,
                row_begin <= y < row_end <= height <= MAX_SIDE,
                row@.len() == 3 * x,
                forall|x2: int|
                    0 <= x2 < x ==> #[trigger] row_pixel_ok(row@, x2, world.hittables@, *camera, y, width, height, samples, max_depth),
            decreases width - x,
        {
            let ghost before = row@;
            let (pr, pg, pb) = render_pixel(world, camera, x, y, width, height, samples, max_depth, rng);
            row.push(pr);
            row.push(pg);
            row.push(pb);
            proof {
                assert forall|x2: int| 0 <= x2 < x + 1 implies #[trigger] row_pixel_ok(
                    row@,
                    x2,
                    world.hittables@,
                    *camera,
                    y,
                    width,
                    height,
                    samples,
                    max_depth,
                ) by {
                    if x2 < x {
                        assert(row_pixel_ok(before, x2, world.hittables@, *camera, y, width, height, samples, max_depth));
                        assert(row@[3 * x2] == before[3 * x2]);
                        assert(row@[3 * x2 + 1] == before[3 * x2 + 1]);
                        assert(row@[3 * x2 + 2] == before[3 * x2 + 2]);
                    } else {
                        assert(row@[3 * x2] == pr && row@[3 * x2 + 1] == pg && row@[3 * x2 + 2] == pb);
                        assert(x2 as u32 == x);
                    }
                }
            }
            x = x + 1;
        }
        rows.push(row);
        proof {
            assert forall|i: int, x2: int| 0 <= i < rows@.len() && 0 <= x2 < width implies #[trigger] row_pixel_ok(
                rows@[i]@,
                x2,
                world.hittables@,
                *camera,
                (row_begin + i) as u32,
                width,
                height,
                samples,
                max_depth,
            ) by {
                if i == rows@.len() - 1 {
                    assert((row_begin + i) as u32 == y);
                }
            }
        }
        y = y + 1;
    }
    Band { row_begin: row_begin as usize, row_end: row_end as usize, rows }
}

/// Row `d` of the final image (counted from the top) shows a row of `band`;
/// image rows are numbered from the bottom, so row `y` lands at `height - 1 - y`.
pub open spec fn covers_dst(band: Band, height: int, d: int) -> bool {
    band.row_begin <= height - 1 - d < band.row_end
}

/// The row of `band` that lands at row `d` of the final image.
pub open spec fn src_row(band: Band, height: int, d: int) -> Seq<u8> {
    band.rows@[height - 1 - d - band.row_begin]@
}

/// One of the first `k` bands lands at row `d`.
pub open spec fn covered_by(bands: Seq<Band>, k: int, height: int, d: int) -> bool {
    exists|b: int| 0 <= b < k && #[trigger] covers_dst(bands[b], height, d)
}

/// Each band lies within the image and holds one row per row of its range.
pub open spec fn bands_fit(bands: Seq<Band>, height: int) -> bool {
    forall|b: int|
        0 <= b < bands.len() ==> #[trigger] bands[b].row_begin <= bands[b].row_end <= height
            && bands[b].rows@.len() == bands[b].row_end - bands[b].row_begin
}

/// No two bands share a row.
pub open spec fn bands_disjoint(bands: Seq<Band>) -> bool {
    forall|b1: int, b2: int|
        0 <= b1 < bands.len() && 0 <= b2 < bands.len() && b1 != b2 ==> #[trigger] bands[b1].row_end
            <= #[trigger] bands[b2].row_begin || bands[b2].row_end <= bands[b1].row_begin
}

pub fn copy_row(src: &Vec<u8>) -> (r: Vec<u8>)
    ensures
        r@ == src@,
{
    let mut r: Vec<u8> = Vec::new();
    let mut j: usize = 0;
    while j < src.len()
        invariant
            j <= src@.len(),
            r@ == src@.subrange(0, j as int),
        decreases src@.len() - j,
    {
        r.push(src[j]);
        j = j + 1;
    }
    assert(r@ =~= src@);
    r
}

/// Copies the rows of `band` into the image rows where they land.
fn place_band(image: &mut Vec<Vec<u8>>, height: usize, band: &Band)
    requires
        old(image)@.len() == height,
        band.row_begin <= band.row_end <= height,
        band.rows@.len() == band.row_end - band.row_begin,
    ensures
        final(image)@.len() == height,
        forall|d: int|
            0 <= d < height ==> (if covers_dst(*band, height as int, d) {
                (#[trigger] final(image)@[d])@ == src_row(*band, height as int, d)
            } else {
                final(image)@[d] == old(image)@[d]
            }),
{
    let ghost start = image@;
    let n = band.rows.len();
    let mut i: usize = 0;
    while i < n
        invariant
            n == band.rows@.len(),
            band.row_begin <= band.row_end <= height,
            n == band.row_end - band.row_begin,
            i <= n,
            image@.len() == height,
            forall|d: int|
                0 <= d < height ==> (if covers_dst(*band, height as int, d) && height - 1 - d - band.row_begin < i {
                    (#[trigger] image@[d])@ == src_row(*band, height as int, d)
                } else {
                    image@[d] == start[d]
                }),
        decreases n - i,
    {
        let row = copy_row(&band.rows[i]);
        let d = height - 1 - (band.row_begin + i);
        image.set(d, row);
        i = i + 1;
    }
}

/// The final image, top row first: each band's rows placed at the rows where
/// they land, and an empty row wherever no band lands.
pub fn assemble(height: usize, bands: &Vec<Band>) -> (r: Vec<Vec<u8>>)
    requires
        bands_fit(bands@, height as int),
        bands_disjoint(bands@),
    ensures
        r@.len() == height,
        forall|b: int, d: int|
            0 <= b < bands@.len() && 0 <= d < height && #[trigger] covers_dst(bands@[b], height as int, d)
                ==> (#[trigger] r@[d])@ == src_row(bands@[b], height as int, d),
        forall|d: int|
            0 <= d < height && !covered_by(bands@, bands@.len() as int, height as int, d)
                ==> (#[trigger] r@[d])@.len() == 0,
{
    let mut image: Vec<Vec<u8>> = Vec::new();
    let mut k: usize = 0;
    while k < height
        invariant
            k <= height,
            image@.len() == k,
            forall|d: int| 0 <= d < k ==> (#[trigger] image@[d])@.len() == 0,
        decreases height - k,
    {
        image.push(Vec::new());
        k = k + 1;
    }
    let mut bi: usize = 0;
    while bi < bands.len()
        invariant
            bi <= bands@.len(),
            bands_fit(bands@, height as int),
            bands_disjoint(bands@),
            image@.len() == height,
            forall|b: int, d: int|
                0 <= b < bi && 0 <= d < height && #[trigger] covers_dst(bands@[b], height as int, d)
                    ==> (#[trigger] image@[d])@ == src_row(bands@[b], height as int, d),
            forall|d: int|
                0 <= d < height && !covered_by(bands@, bi as int, height as int, d)
                    ==> (#[trigger] image@[d])@.len() == 0,
        decreases bands@.len() - bi,
    {
        let ghost before = image@;
        place_band(&mut image, height, &bands[bi]);
        proof {
            let b_new = bi as int;
            assert forall|b: int, d: int|
                0 <= b < bi + 1 && 0 <= d < height && #[trigger] covers_dst(bands@[b], height as int, d)
                    implies (#[trigger] image@[d])@ == src_row(bands@[b], height as int, d) by {
                if b < b_new {
                    assert(!covers_dst(bands@[b_new], height as int, d));
                    assert(image@[d] == before[d]);
                }
            }
            assert forall|d: int|
                0 <= d < height && !covered_by(bands@, bi + 1, height as int, d)
                    implies (#[trigger] image@[d])@.len() == 0 by {
                assert(!covers_dst(bands@[b_new], height as int, d));
                assert(!covered_by(bands@, bi as int, height as int, d));
            }
        }
        bi = bi + 1;
    }
    image
}

} // verus!
