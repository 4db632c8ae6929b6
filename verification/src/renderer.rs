//! Renderers: the synchronous brute-force renderer, and the
//! configuration record of the pipelined renderer whose stages run
//! outside the library.

use vstd::prelude::*;
use crate::bvh::{Node, BVH};
use crate::camera::Camera;
use crate::colorsampler::ColorSampler;
use crate::fixed::{fp_add, fp_div, fp_from_int, spec_from_int, FP_ONE};
use crate::image::{Color, Image};
use crate::pointgen::spec_screen_coord;
use crate::random::random_float;
use crate::vec3::Vec3;

verus! {

#[derive(Clone, Copy, PartialEq, Eq, Structural, Debug)]
pub struct ImageOptions {
    pub width: usize,
    pub height: usize,
}

impl ImageOptions {
    pub fn new(width: usize, height: usize) -> (r: ImageOptions)
        ensures
            r.width == width,
            r.height == height,
    {
        ImageOptions { width, height }
    }
}

/// Configuration of the pipelined renderer; the channel and worker
/// plumbing that consumes it lives outside the library.
#[derive(Clone, Copy, PartialEq, Eq, Structural, Debug)]
pub struct Renderer {
    pub samples_per_pixel: usize,
    pub num_sampler_threads: usize,
    pub max_bounces: usize,
    pub progressbar: bool,
    pub background_color: Vec3,
}

impl Renderer {
    pub fn new(
        samples_per_pixel: usize,
        num_sampler_threads: usize,
        max_bounces: usize,
        progressbar: bool,
        background_color: Option<Vec3>,
    ) -> (r: Renderer)
        ensures
            r.samples_per_pixel == samples_per_pixel,
            r.num_sampler_threads == num_sampler_threads,
            r.max_bounces == max_bounces,
            r.progressbar == progressbar,
            r.background_color == match background_color {
                Some(c) => c,
                None => Vec3::spec_zero(),
            },
    {
        Renderer {
            samples_per_pixel,
            num_sampler_threads,
            max_bounces,
            progressbar,
            background_color: match background_color {
                Some(c) => c,
                None => Vec3::zero(),
            },
        }
    }
}

/// Renders every pixel in place with a fixed sample budget, without any
/// pipeline: the synchronous reference renderer.
pub struct BruteForceRenderer {
    pub color_sampler: ColorSampler,
    pub samples_per_pixel: u32,
    pub max_depth: u32,
    pub verbose: bool,
}

impl BruteForceRenderer {
    pub fn new(color_sampler: ColorSampler, samples_per_pixel: u32, max_depth: u32) -> (r:
        BruteForceRenderer)
        ensures
            r.color_sampler == color_sampler,
            r.samples_per_pixel == samples_per_pixel,
            r.max_depth == max_depth,
            r.verbose == true,
    {
        BruteForceRenderer { color_sampler, samples_per_pixel, max_depth, verbose: true }
    }

    pub fn set_verbose(&mut self, verbose: bool)
        ensures
            *final(self) == (BruteForceRenderer { verbose, ..*old(self) }),
    {
        self.verbose = verbose;
    }

    /// Estimate every pixel with the configured number of jittered
    /// samples, each scaled by the per-sample divisor, and commit it:
    /// every pixel of the result carries a committed possible pixel
    /// value.
    #[verifier::rlimit(100)]
    pub fn render(&self, camera: &Camera, world: &BVH, image_options: ImageOptions) -> (r: Image)
        requires
            world.root.wf(),
            image_options.width * image_options.height <= usize::MAX,
            1 <= image_options.width && image_options.width as int <= i64::MAX,
            1 <= image_options.height && image_options.height as int <= i64::MAX,
            self.samples_per_pixel >= 1,
        ensures
            r.wf(),
            r.width == image_options.width,
            r.height == image_options.height,
            forall|x: int, y: int|
                0 <= x < image_options.width && 0 <= y < image_options.height
                    ==> #[trigger] spec_pixel_committed(
                    *self,
                    *camera,
                    world.root,
                    r,
                    x,
                    y,
                    image_options.width,
                    image_options.height,
                ),
    {
        let width: usize = image_options.width;
        let height: usize = image_options.height;
        let mut image: Image = Image::new_with_gamma_correction(width, height);
        let spp_fp: i64 = fp_from_int(self.samples_per_pixel as i64);
        let mut j: usize = 0;
        while j < height
            invariant
                j <= height,
                image.wf(),
                image.width == width,
                image.height == height,
                image.gamma == true,
                width >= 1,
                height >= 1,
                width as int <= i64::MAX,
                height as int <= i64::MAX,
                self.samples_per_pixel >= 1,
                spp_fp == spec_from_int(self.samples_per_pixel as i64),
                world.root.wf(),
                forall|x: int, y: int|
                    0 <= x < width && 0 <= y < j ==> #[trigger] spec_pixel_committed(
                        *self,
                        *camera,
                        world.root,
                        image,
                        x,
                        y,
                        width,
                        height,
                    ),
            decreases height - j,
        {
            let mut i: usize = 0;
            while i < width
                invariant
                    j < height,
                    i <= width,
                    image.wf(),
                    image.width == width,
                    image.height == height,
                    image.gamma == true,
                    width >= 1,
                    height >= 1,
                    width as int <= i64::MAX,
                    height as int <= i64::MAX,
                    self.samples_per_pixel >= 1,
                    spp_fp == spec_from_int(self.samples_per_pixel as i64),
                    world.root.wf(),
                    forall|x: int, y: int|
                        0 <= x < width && 0 <= y < j ==> #[trigger] spec_pixel_committed(
                            *self,
                            *camera,
                            world.root,
                            image,
                            x,
                            y,
                            width,
                            height,
                        ),
                    forall|x: int|
                        0 <= x < i ==> #[trigger] spec_pixel_committed(
                            *self,
                            *camera,
                            world.root,
                            image,
                            x,
                            j as int,
                            width,
                            height,
                        ),
                decreases width - i,
            {
                let pixel_color: Vec3 = self.render_pixel(camera, world, i, j, width, height, spp_fp);
                let ghost before: Image = image;
                image.set_pixel(i, j, Color::from_vec(pixel_color));
                proof {
                    assert forall|x: int, y: int|
                        0 <= x < width && (0 <= y < j || (y == j && 0 <= x <= i)) implies #[trigger] spec_pixel_committed(
                        *self,
                        *camera,
                        world.root,
                        image,
                        x,
                        y,
                        width,
                        height,
                    ) by {
                        lemma_pixel_committed_after_set(
                            *self,
                            *camera,
                            world.root,
                            before,
                            image,
                            pixel_color,
                            i as int,
                            j as int,
                            x,
                            y,
                            width,
                            height,
                        );
                    }
                }
                i = i + 1;
            }
            j = j + 1;
        }
        image
    }

    /// One pixel's estimate: the configured number of jittered samples,
    /// each divided by the per-pixel sample count and accumulated in
    /// order. The result is a possible pixel value.
    fn render_pixel(
        &self,
        camera: &Camera,
        world: &BVH,
        i: usize,
        j: usize,
        width: usize,
        height: usize,
        spp_fp: i64,
    ) -> (r: Vec3)
        requires
            world.root.wf(),
            width >= 1,
            height >= 1,
            width as int <= i64::MAX,
            height as int <= i64::MAX,
            spp_fp == spec_from_int(self.samples_per_pixel as i64),
        ensures
            spec_possible_pixel(*self, *camera, world.root, i as int, j as int, width, height, r),
    {
        let mut pixel_color: Vec3 = Vec3::zero();
        let ghost mut vals: Seq<Vec3> = Seq::empty();
        let mut s: u32 = 0;
        while s < self.samples_per_pixel
            invariant
                s <= self.samples_per_pixel,
                vals.len() == s,
                world.root.wf(),
                width >= 1,
                height >= 1,
                width as int <= i64::MAX,
                height as int <= i64::MAX,
                spp_fp == spec_from_int(self.samples_per_pixel as i64),
                pixel_color == spec_accumulated(vals, spp_fp),
                forall|k: int|
                    0 <= k < vals.len() ==> spec_possible_contribution(
                        self.color_sampler,
                        *camera,
                        world.root,
                        i as int,
                        j as int,
                        width,
                        height,
                        self.max_depth,
                        #[trigger] vals[k],
                    ),
            decreases self.samples_per_pixel - s,
        {
            let jx: i64 = random_float();
            let jy: i64 = random_float();
            let u: i64 = fp_div(fp_add(fp_from_int(i as i64), jx), fp_from_int(width as i64 - 1));
            let v: i64 = fp_div(fp_add(fp_from_int(j as i64), jy), fp_from_int(height as i64 - 1));
            let ray = camera.get_ray(u, v);
            let sample: Vec3 = self.color_sampler.sample(ray, world, self.max_depth);
            pixel_color = pixel_color.add(sample.div(spp_fp));
            proof {
                let p = choose|p: Vec3|
                    p.spec_squared_length() < FP_ONE && p.z == 0 && ray == camera.spec_ray_for(
                        u,
                        v,
                        p,
                    );
                assert(u == spec_screen_coord(i as int, jx, width));
                assert(v == spec_screen_coord(j as int, jy, height));
                assert(self.color_sampler.spec_possible_sample(
                    world.root,
                    camera.spec_ray_for(
                        spec_screen_coord(i as int, jx, width),
                        spec_screen_coord(j as int, jy, height),
                        p,
                    ),
                    self.max_depth,
                    sample,
                ));
                assert(spec_possible_contribution(
                    self.color_sampler,
                    *camera,
                    world.root,
                    i as int,
                    j as int,
                    width,
                    height,
                    self.max_depth,
                    sample,
                ));
                let ghost prev = vals;
                vals = vals.push(sample);
                assert(vals.drop_last() =~= prev);
                assert(vals.last() == sample);
            }
            s = s + 1;
        }
        proof {
            assert(spec_possible_pixel(
                *self,
                *camera,
                world.root,
                i as int,
                j as int,
                width,
                height,
                pixel_color,
            ));
        }
        pixel_color
    }
}

/// A sample contribution the renderer can obtain for pixel `(x, y)`:
/// the sampler's estimate, for some jitter draws and defocus point, of
/// a primary ray through the jittered pixel coordinates.
pub open spec fn spec_possible_contribution(
    sampler: ColorSampler,
    camera: Camera,
    root: Node,
    x: int,
    y: int,
    width: usize,
    height: usize,
    depth: u32,
    v: Vec3,
) -> bool {
    exists|jx: i64, jy: i64, p: Vec3|
        0 <= jx < FP_ONE && 0 <= jy < FP_ONE && p.spec_squared_length() < FP_ONE && p.z == 0
            && #[trigger] sampler.spec_possible_sample(
            root,
            camera.spec_ray_for(
                spec_screen_coord(x, jx, width),
                spec_screen_coord(y, jy, height),
                p,
            ),
            depth,
            v,
        )
}

/// The in-order accumulation of per-sample contributions, each divided
/// by the per-pixel sample count.
pub open spec fn spec_accumulated(vals: Seq<Vec3>, spp_fp: i64) -> Vec3
    decreases vals.len(),
{
    if vals.len() == 0 {
        Vec3::spec_zero()
    } else {
        spec_accumulated(vals.drop_last(), spp_fp).spec_add_v(
            vals.last().spec_div_scalar(spp_fp),
        )
    }
}

/// A value the renderer can compute for pixel `(x, y)`: the accumulation
/// of `samples_per_pixel` possible contributions.
pub open spec fn spec_possible_pixel(
    renderer: BruteForceRenderer,
    camera: Camera,
    root: Node,
    x: int,
    y: int,
    width: usize,
    height: usize,
    v: Vec3,
) -> bool {
    exists|vals: Seq<Vec3>|
        vals.len() == renderer.samples_per_pixel && (forall|k: int|
            0 <= k < vals.len() ==> spec_possible_contribution(
                renderer.color_sampler,
                camera,
                root,
                x,
                y,
                width,
                height,
                renderer.max_depth,
                #[trigger] vals[k],
            )) && v == #[trigger] spec_accumulated(
            vals,
            spec_from_int(renderer.samples_per_pixel as i64),
        )
}

/// Pixel `(x, y)` of the image holds a committed possible pixel value.
pub open spec fn spec_pixel_committed(
    renderer: BruteForceRenderer,
    camera: Camera,
    root: Node,
    img: Image,
    x: int,
    y: int,
    width: usize,
    height: usize,
) -> bool {
    exists|v: Vec3|
        #[trigger] spec_possible_pixel(renderer, camera, root, x, y, width, height, v)
            && img.data@[y * width + x] == img.spec_committed(Color::spec_from_vec(v))
}


/// Committing one pixel leaves every other pixel's committed value in
/// place, and the committed pixel holds the given possible value.
proof fn lemma_pixel_committed_after_set(
    renderer: BruteForceRenderer,
    camera: Camera,
    root: Node,
    before: Image,
    after: Image,
    v: Vec3,
    i: int,
    j: int,
    x: int,
    y: int,
    width: usize,
    height: usize,
)
    requires
        0 <= x < width,
        0 <= y < height,
        0 <= i < width,
        0 <= j < height,
        before.wf(),
        before.width == width,
        before.height == height,
        after.gamma == before.gamma,
        after.data@ == before.data@.update(
            j * width + i,
            before.spec_committed(Color::spec_from_vec(v)),
        ),
        x == i && y == j ==> spec_possible_pixel(renderer, camera, root, x, y, width, height, v),
        !(x == i && y == j) ==> spec_pixel_committed(
            renderer,
            camera,
            root,
            before,
            x,
            y,
            width,
            height,
        ),
    ensures
        spec_pixel_committed(renderer, camera, root, after, x, y, width, height),
{
    vstd::arithmetic::mul::lemma_mul_inequality(y + 1, height as int, width as int);
    assert((y + 1) * width == y * width + width) by (nonlinear_arith);
    assert(height as int * width as int == width as int * height as int) by (nonlinear_arith);
    assert(y * width >= 0) by (nonlinear_arith)
        requires y >= 0, width as int >= 0;
    vstd::arithmetic::mul::lemma_mul_inequality(j + 1, height as int, width as int);
    assert((j + 1) * width == j * width + width) by (nonlinear_arith);
    assert(j * width >= 0) by (nonlinear_arith)
        requires j >= 0, width as int >= 0;
    if x == i && y == j {
        assert(after.data@[y * width + x] == after.spec_committed(Color::spec_from_vec(v)));
    } else {
        if y * width + x == j * width + i {
            crate::imager::lemma_rowmajor_injective(width as int, x, y, i, j);
        }
        let w = choose|w: Vec3|
            spec_possible_pixel(renderer, camera, root, x, y, width, height, w)
                && before.data@[y * width + x] == before.spec_committed(Color::spec_from_vec(w));
        assert(after.data@[y * width + x] == before.data@[y * width + x]);
        assert(after.data@[y * width + x] == after.spec_committed(Color::spec_from_vec(w)));
    }
}

} // verus!

