//! The sample point generator: the image rows are split into contiguous
//! bands, one per worker, and every pixel of a band receives exactly its
//! quota of jittered primary rays.

use vstd::prelude::*;
use crate::camera::Camera;
use crate::descriptor::SamplePointGeneratorDescriptor;
use crate::dto::SamplePoint;
use crate::fixed::{fp_add, fp_div, fp_from_int, spec_add, spec_div, spec_from_int, FP_ONE};
use crate::random::random_float;

verus! {

pub struct SamplePointGenerator {
    pub descriptor: SamplePointGeneratorDescriptor,
}

/// First row of a band: bands are `height / num_threads` rows each.
pub open spec fn spec_band_start(height: usize, num_threads: usize, i: int) -> int {
    i * (height as int / num_threads as int)
}

/// One past the last row of a band; the last band absorbs the remainder.
pub open spec fn spec_band_end(height: usize, num_threads: usize, i: int) -> int {
    if i == num_threads - 1 {
        height as int
    } else {
        (i + 1) * (height as int / num_threads as int)
    }
}

/// Row `y` belongs to band `i`.
pub open spec fn spec_band_contains(height: usize, num_threads: usize, i: int, y: int) -> bool {
    spec_band_start(height, num_threads, i) <= y < spec_band_end(height, num_threads, i)
}

/// The row bounds of band `i`.
pub fn band_bounds(height: usize, num_threads: usize, i: usize) -> (r: (usize, usize))
    requires
        num_threads >= 1,
        i < num_threads,
    ensures
        r.0 == spec_band_start(height, num_threads, i as int),
        r.1 == spec_band_end(height, num_threads, i as int),
        r.0 <= r.1 <= height,
{
    let q: usize = height / num_threads;
    proof {
        vstd::arithmetic::div_mod::lemma_fundamental_div_mod(height as int, num_threads as int);
        vstd::arithmetic::mul::lemma_mul_inequality(
            i as int + 1,
            num_threads as int,
            q as int,
        );
        assert(num_threads as int * q as int == q as int * num_threads as int)
            by (nonlinear_arith);
        assert(q as int * num_threads as int <= height as int) by (nonlinear_arith)
            requires
                height as int == num_threads as int * q as int + height as int % num_threads as int,
                height as int % num_threads as int >= 0,
                num_threads as int * q as int == q as int * num_threads as int,
        ;
        assert((i as int) * (q as int) <= (i as int + 1) * (q as int)) by (nonlinear_arith)
            requires q as int >= 0, i as int >= 0;
        assert((num_threads as int) * (q as int) == (num_threads as int) * (q as int));
    }
    let start: usize = i * q;
    if i == num_threads - 1 {
        proof {
            vstd::arithmetic::mul::lemma_mul_inequality(i as int, num_threads as int, q as int);
            assert((i as int) * (q as int) <= height as int);
        }
        (start, height)
    } else {
        let end: usize = (i + 1) * q;
        (start, end)
    }
}

/// Every image row lies in exactly one band.
pub proof fn lemma_bands_partition(height: usize, num_threads: usize, y: int)
    requires
        num_threads >= 1,
        0 <= y < height,
    ensures
        exists|i: int|
            0 <= i < num_threads && #[trigger] spec_band_contains(height, num_threads, i, y),
        forall|i1: int, i2: int|
            0 <= i1 < num_threads && 0 <= i2 < num_threads && #[trigger] spec_band_contains(
                height,
                num_threads,
                i1,
                y,
            ) && #[trigger] spec_band_contains(height, num_threads, i2, y) ==> i1 == i2,
{
    let q = height as int / num_threads as int;
    vstd::arithmetic::div_mod::lemma_div_pos_is_pos(height as int, num_threads as int);
    if q == 0 {
        assert(spec_band_contains(height, num_threads, num_threads - 1, y)) by {
            assert((num_threads - 1) * 0 == 0) by (nonlinear_arith);
        }
    } else {
        let i0 = y / q;
        vstd::arithmetic::div_mod::lemma_fundamental_div_mod(y, q);
        vstd::arithmetic::div_mod::lemma_div_pos_is_pos(y, q);
        assert(q * i0 == i0 * q) by (nonlinear_arith);
        assert(i0 * q <= y < (i0 + 1) * q) by (nonlinear_arith)
            requires y == q * i0 + y % q, 0 <= y % q < q, q * i0 == i0 * q;
        if i0 >= num_threads - 1 {
            assert((num_threads - 1) * q <= i0 * q) by (nonlinear_arith)
                requires num_threads - 1 <= i0, q >= 0;
            assert(spec_band_contains(height, num_threads, num_threads - 1, y));
        } else {
            assert(spec_band_contains(height, num_threads, i0, y));
        }
    }
    assert forall|i1: int, i2: int|
        0 <= i1 < num_threads && 0 <= i2 < num_threads && #[trigger] spec_band_contains(
            height,
            num_threads,
            i1,
            y,
        ) && #[trigger] spec_band_contains(height, num_threads, i2, y) implies i1 == i2 by {
        if i1 < i2 {
            lemma_bands_ordered(height, num_threads, i1, i2, y);
        }
        if i2 < i1 {
            lemma_bands_ordered(height, num_threads, i2, i1, y);
        }
    }
}

/// A row below the end of an earlier band lies below the start of every
/// later band.
proof fn lemma_bands_ordered(height: usize, num_threads: usize, i1: int, i2: int, y: int)
    requires
        num_threads >= 1,
        0 <= i1 < i2 < num_threads,
        spec_band_contains(height, num_threads, i1, y),
    ensures
        !spec_band_contains(height, num_threads, i2, y),
{
    let q = height as int / num_threads as int;
    vstd::arithmetic::div_mod::lemma_div_pos_is_pos(height as int, num_threads as int);
    assert((i1 + 1) * q <= i2 * q) by (nonlinear_arith)
        requires i1 + 1 <= i2, q >= 0;
}

/// How many of the points address pixel `(x, y)`.
pub open spec fn spec_point_count(points: Seq<SamplePoint>, x: int, y: int) -> nat
    decreases points.len(),
{
    if points.len() == 0 {
        0
    } else {
        spec_point_count(points.drop_last(), x, y) + if points.last().x == x && points.last().y
            == y {
            1nat
        } else {
            0nat
        }
    }
}

/// Appending one point raises exactly its own pixel's count.
pub proof fn lemma_point_count_push(points: Seq<SamplePoint>, p: SamplePoint, x: int, y: int)
    ensures
        spec_point_count(points.push(p), x, y) == spec_point_count(points, x, y) + if p.x == x
            && p.y == y {
            1nat
        } else {
            0nat
        },
{
    assert(points.push(p).drop_last() =~= points);
    assert(points.push(p).last() == p);
}

impl SamplePointGenerator {
    pub fn new(descriptor: SamplePointGeneratorDescriptor) -> (r: SamplePointGenerator)
        ensures
            r.descriptor == descriptor,
    {
        SamplePointGenerator { descriptor }
    }
}

/// The screen coordinate of a pixel index under a jitter draw: the
/// index plus the jitter, normalized by the last index of the extent.
pub open spec fn spec_screen_coord(pix: int, jitter: i64, extent: usize) -> i64 {
    spec_div(spec_add(spec_from_int(pix as i64), jitter), spec_from_int((extent as i64 - 1) as i64))
}

/// One jittered primary point for a pixel: the screen coordinates are
/// the pixel coordinates plus a uniform draw, normalized by the last
/// pixel index.
pub fn generate_point(camera: &Camera, x: usize, y: usize, width: usize, height: usize) -> (r:
    SamplePoint)
    requires
        x < width,
        y < height,
        width as int <= i64::MAX,
        height as int <= i64::MAX,
    ensures
        r.x == x,
        r.y == y,
        exists|jx: i64, jy: i64, p: crate::vec3::Vec3|
            {
                &&& 0 <= jx < FP_ONE
                &&& 0 <= jy < FP_ONE
                &&& p.spec_squared_length() < FP_ONE
                &&& p.z == 0
                &&& r.ray == #[trigger] camera.spec_ray_for(
                    spec_screen_coord(x as int, jx, width),
                    spec_screen_coord(y as int, jy, height),
                    p,
                )
            },
{
    let jx: i64 = random_float();
    let jy: i64 = random_float();
    let u: i64 = fp_div(fp_add(fp_from_int(x as i64), jx), fp_from_int(width as i64 - 1));
    let v: i64 = fp_div(fp_add(fp_from_int(y as i64), jy), fp_from_int(height as i64 - 1));
    let ray = camera.get_ray(u, v);
    proof {
        let p = choose|p: crate::vec3::Vec3|
            p.spec_squared_length() < FP_ONE && p.z == 0 && ray == camera.spec_ray_for(u, v, p);
        assert(0 <= jx < FP_ONE && 0 <= jy < FP_ONE && p.spec_squared_length() < FP_ONE && p.z == 0
            && ray == camera.spec_ray_for(
            spec_screen_coord(x as int, jx, width),
            spec_screen_coord(y as int, jy, height),
            p,
        ));
    }
    SamplePoint { x, y, ray }
}

/// All primary points for the rows `[y0, y1)`: every pixel of the band
/// receives exactly `samples_per_pixel` points, and no point addresses a
/// pixel outside the band.
pub fn generate_band(
    camera: &Camera,
    width: usize,
    height: usize,
    samples_per_pixel: usize,
    y0: usize,
    y1: usize,
) -> (r: Vec<SamplePoint>)
    requires
        y0 <= y1 <= height,
        width >= 1,
        width as int <= i64::MAX,
        height as int <= i64::MAX,
    ensures
        forall|a: int, b: int|
            0 <= a < width && y0 <= b < y1 ==> #[trigger] spec_point_count(r@, a, b)
                == samples_per_pixel,
        forall|a: int, b: int|
            !(0 <= a < width && y0 <= b < y1) ==> #[trigger] spec_point_count(r@, a, b) == 0,
        forall|k: int|
            0 <= k < r@.len() ==> (#[trigger] r@[k]).x < width && y0 <= r@[k].y < y1,
{
    let mut points: Vec<SamplePoint> = Vec::new();
    let mut y: usize = y0;
    while y < y1
        invariant
            y0 <= y <= y1 <= height,
            width >= 1,
            width as int <= i64::MAX,
            height as int <= i64::MAX,
            forall|a: int, b: int|
                0 <= a < width && y0 <= b < y ==> #[trigger] spec_point_count(points@, a, b)
                    == samples_per_pixel,
            forall|a: int, b: int|
                !(0 <= a < width && y0 <= b < y) ==> #[trigger] spec_point_count(points@, a, b)
                    == 0,
            forall|k: int|
                0 <= k < points@.len() ==> (#[trigger] points@[k]).x < width && y0 <= points@[k].y
                    < y,
        decreases y1 - y,
    {
        let mut x: usize = 0;
        while x < width
            invariant
                y0 <= y < y1 <= height,
                x <= width,
                width >= 1,
                width as int <= i64::MAX,
                height as int <= i64::MAX,
                forall|a: int, b: int|
                    0 <= a < width && y0 <= b < y ==> #[trigger] spec_point_count(points@, a, b)
                        == samples_per_pixel,
                forall|a: int| 0 <= a < x ==> #[trigger] spec_point_count(points@, a, y as int)
                    == samples_per_pixel,
                forall|a: int, b: int|
                    !(0 <= a < width && y0 <= b < y) && b != y ==> #[trigger] spec_point_count(
                        points@,
                        a,
                        b,
                    ) == 0,
                forall|a: int|
                    !(0 <= a < x) ==> #[trigger] spec_point_count(points@, a, y as int) == 0,
                forall|k: int|
                    0 <= k < points@.len() ==> (#[trigger] points@[k]).x < width && y0
                        <= points@[k].y <= y,
            decreases width - x,
        {
            let mut s: usize = 0;
            while s < samples_per_pixel
                invariant
                    y0 <= y < y1 <= height,
                    x < width,
                    s <= samples_per_pixel,
                    width >= 1,
                    width as int <= i64::MAX,
                    height as int <= i64::MAX,
                    forall|a: int, b: int|
                        0 <= a < width && y0 <= b < y ==> #[trigger] spec_point_count(
                            points@,
                            a,
                            b,
                        ) == samples_per_pixel,
                    forall|a: int| 0 <= a < x ==> #[trigger] spec_point_count(points@, a, y as int)
                        == samples_per_pixel,
                    spec_point_count(points@, x as int, y as int) == s,
                    forall|a: int, b: int|
                        !(0 <= a < width && y0 <= b < y) && b != y ==> #[trigger] spec_point_count(
                            points@,
                            a,
                            b,
                        ) == 0,
                    forall|a: int|
                        !(0 <= a <= x) ==> #[trigger] spec_point_count(points@, a, y as int) == 0,
                    forall|k: int|
                        0 <= k < points@.len() ==> (#[trigger] points@[k]).x < width && y0
                            <= points@[k].y <= y,
                decreases samples_per_pixel - s,
            {
                let p: SamplePoint = generate_point(camera, x, y, width, height);
                let ghost before: Seq<SamplePoint> = points@;
                points.push(p);
                proof {
                    assert forall|a: int, b: int|
                        spec_point_count(points@, a, b) == spec_point_count(before, a, b) + (
                        if a == x && b == y {
                            1nat
                        } else {
                            0nat
                        }) by {
                        lemma_point_count_push(before, p, a, b);
                    }
                }
                s = s + 1;
            }
            x = x + 1;
        }
        y = y + 1;
    }
    points
}

} // verus!
