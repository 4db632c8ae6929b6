//! The imager: per-pixel accumulation of sample colors, with each pixel
//! committed to the image exactly once, when it has received its full
//! sample quota.

use vstd::prelude::*;
use crate::descriptor::ImageDescriptor;
use crate::dto::SampledColor;
use crate::fixed::{fp_div, fp_from_int, spec_div, spec_from_int, FP_ONE};
use crate::image::{Color, Image};
use crate::vec3::Vec3;

verus! {

/// How many of the samples address pixel `(x, y)`.
pub open spec fn spec_pixel_count(samples: Seq<SampledColor>, x: int, y: int) -> nat
    decreases samples.len(),
{
    if samples.len() == 0 {
        0
    } else {
        spec_pixel_count(samples.drop_last(), x, y) + if samples.last().x == x
            && samples.last().y == y {
            1nat
        } else {
            0nat
        }
    }
}

/// The running sum for pixel `(x, y)`: every matching color is scaled by
/// the per-sample divisor and added in arrival order.
pub open spec fn spec_pixel_sum(samples: Seq<SampledColor>, x: int, y: int, divisor: i64) -> Vec3
    decreases samples.len(),
{
    if samples.len() == 0 {
        Vec3::spec_zero()
    } else {
        let prev = spec_pixel_sum(samples.drop_last(), x, y, divisor);
        if samples.last().x == x && samples.last().y == y {
            prev.spec_add_v(samples.last().color.spec_scale(divisor))
        } else {
            prev
        }
    }
}

/// Appending one sample raises exactly its own pixel's count and sum.
pub proof fn lemma_accum_push(samples: Seq<SampledColor>, c: SampledColor, x: int, y: int, divisor: i64)
    ensures
        spec_pixel_count(samples.push(c), x, y) == spec_pixel_count(samples, x, y) + if c.x == x
            && c.y == y {
            1nat
        } else {
            0nat
        },
        spec_pixel_sum(samples.push(c), x, y, divisor) == if c.x == x && c.y == y {
            spec_pixel_sum(samples, x, y, divisor).spec_add_v(c.color.spec_scale(divisor))
        } else {
            spec_pixel_sum(samples, x, y, divisor)
        },
{
    assert(samples.push(c).drop_last() =~= samples);
    assert(samples.push(c).last() == c);
}

/// Prefix counts never exceed later prefix counts.
pub proof fn lemma_count_prefix_mono(samples: Seq<SampledColor>, i: int, j: int, x: int, y: int)
    requires
        0 <= i <= j <= samples.len(),
    ensures
        spec_pixel_count(samples.take(i), x, y) <= spec_pixel_count(samples.take(j), x, y),
    decreases j - i,
{
    if i < j {
        lemma_count_prefix_mono(samples, i, j - 1, x, y);
        assert(samples.take(j).drop_last() =~= samples.take(j - 1));
    }
}

/// Distinct pixels have distinct row-major indices.
pub proof fn lemma_rowmajor_injective(w: int, x1: int, y1: int, x2: int, y2: int)
    requires
        0 <= x1 < w,
        0 <= x2 < w,
        0 <= y1,
        0 <= y2,
        y1 * w + x1 == y2 * w + x2,
    ensures
        x1 == x2 && y1 == y2,
{
    assert(x1 == x2 && y1 == y2) by (nonlinear_arith)
        requires 0 <= x1 < w, 0 <= x2 < w, 0 <= y1, 0 <= y2, y1 * w + x1 == y2 * w + x2;
}

pub struct Imager {
    pub image_descriptor: ImageDescriptor,
}

/// The accumulation state: per-pixel running sums and received counts,
/// and the image that finished pixels are committed to.
pub struct ImagerState {
    pub width: usize,
    pub height: usize,
    pub samples_per_pixel: usize,
    pub color_divisor: i64,
    pub pixels: Vec<Vec3>,
    pub counts: Vec<usize>,
    pub image: Image,
    pub received: Ghost<Seq<SampledColor>>,
}

impl ImagerState {
    /// Every pixel's count and sum are those of the received samples, no
    /// count exceeds the quota, and the image holds the finalized color
    /// exactly where the quota is reached.
    pub open spec fn wf(self) -> bool {
        &&& self.pixels@.len() == self.width * self.height
        &&& self.counts@.len() == self.width * self.height
        &&& self.image.wf()
        &&& self.image.width == self.width
        &&& self.image.height == self.height
        &&& self.image.gamma == true
        &&& self.samples_per_pixel >= 1
        &&& self.samples_per_pixel as int <= i64::MAX
        &&& self.color_divisor == spec_div(FP_ONE, spec_from_int(self.samples_per_pixel as i64))
        &&& forall|k: int|
            0 <= k < self.received@.len() ==> (#[trigger] self.received@[k]).x < self.width
                && self.received@[k].y < self.height
        &&& forall|x: int, y: int|
            0 <= x < self.width && 0 <= y < self.height ==> #[trigger] spec_pixel_count(
                self.received@,
                x,
                y,
            ) == self.counts@[y * self.width + x]
        &&& forall|x: int, y: int|
            0 <= x < self.width && 0 <= y < self.height ==> spec_pixel_count(self.received@, x, y)
                <= self.samples_per_pixel
        &&& forall|x: int, y: int|
            0 <= x < self.width && 0 <= y < self.height ==> #[trigger] self.pixels@[y * self.width
                + x] == spec_pixel_sum(self.received@, x, y, self.color_divisor)
        &&& forall|x: int, y: int|
            0 <= x < self.width && 0 <= y < self.height ==> #[trigger] self.image.data@[y
                * self.width + x] == if spec_pixel_count(self.received@, x, y)
                == self.samples_per_pixel {
                self.image.spec_committed(
                    Color::spec_from_vec(spec_pixel_sum(self.received@, x, y, self.color_divisor)),
                )
            } else {
                Color::spec_new_grey(0)
            }
    }

    /// A fresh accumulator with nothing received.
    pub fn new(descriptor: ImageDescriptor) -> (r: ImagerState)
        requires
            descriptor.width * descriptor.height <= usize::MAX,
            1 <= descriptor.samples_per_pixel && descriptor.samples_per_pixel as int <= i64::MAX,
        ensures
            r.wf(),
            r.received@.len() == 0,
            r.width == descriptor.width,
            r.height == descriptor.height,
            r.samples_per_pixel == descriptor.samples_per_pixel,
    {
        let n: usize = descriptor.width * descriptor.height;
        let mut pixels: Vec<Vec3> = Vec::new();
        let mut counts: Vec<usize> = Vec::new();
        let mut i: usize = 0;
        while i < n
            invariant
                i <= n,
                pixels@.len() == i,
                counts@.len() == i,
                forall|k: int| 0 <= k < i ==> pixels@[k] == Vec3::spec_zero(),
                forall|k: int| 0 <= k < i ==> counts@[k] == 0usize,
            decreases n - i,
        {
            pixels.push(Vec3::zero());
            counts.push(0);
            i = i + 1;
        }
        let image: Image = Image::new_with_gamma_correction(descriptor.width, descriptor.height);
        let r: ImagerState = ImagerState {
            width: descriptor.width,
            height: descriptor.height,
            samples_per_pixel: descriptor.samples_per_pixel,
            color_divisor: fp_div(FP_ONE, fp_from_int(descriptor.samples_per_pixel as i64)),
            pixels,
            counts,
            image,
            received: Ghost(Seq::empty()),
        };
        proof {
            let w = r.width as int;
            let h = r.height as int;
            assert forall|x: int, y: int| 0 <= x < w && 0 <= y < h implies #[trigger] spec_pixel_count(
                r.received@,
                x,
                y,
            ) == r.counts@[y * w + x] && spec_pixel_count(r.received@, x, y)
                <= r.samples_per_pixel by {
                vstd::arithmetic::mul::lemma_mul_inequality(y + 1, h, w);
                assert((y + 1) * w == y * w + w) by (nonlinear_arith);
                assert(h * w == w * h) by (nonlinear_arith);
                assert(y * w >= 0) by (nonlinear_arith)
                    requires y >= 0, w >= 0;
                assert(0 <= y * w + x < w * h);
            }
            assert forall|x: int, y: int| 0 <= x < w && 0 <= y < h implies #[trigger] r.pixels@[y * w
                + x] == spec_pixel_sum(r.received@, x, y, r.color_divisor) by {
                vstd::arithmetic::mul::lemma_mul_inequality(y + 1, h, w);
                assert((y + 1) * w == y * w + w) by (nonlinear_arith);
                assert(h * w == w * h) by (nonlinear_arith);
                assert(y * w >= 0) by (nonlinear_arith)
                    requires y >= 0, w >= 0;
                assert(0 <= y * w + x < w * h);
            }
            assert forall|x: int, y: int| 0 <= x < w && 0 <= y < h implies #[trigger] r.image.data@[y
                * w + x] == Color::spec_new_grey(0) by {
                vstd::arithmetic::mul::lemma_mul_inequality(y + 1, h, w);
                assert((y + 1) * w == y * w + w) by (nonlinear_arith);
                assert(h * w == w * h) by (nonlinear_arith);
                assert(y * w >= 0) by (nonlinear_arith)
                    requires y >= 0, w >= 0;
                assert(0 <= y * w + x < w * h);
            }
        }
        r
    }

    /// Fold one sample in: add its scaled color to the pixel's sum, bump
    /// the count, and commit the pixel when the count reaches the quota.
    pub fn process(&mut self, c: SampledColor)
        requires
            old(self).wf(),
            c.x < old(self).width,
            c.y < old(self).height,
            spec_pixel_count(old(self).received@, c.x as int, c.y as int) < old(
                self,
            ).samples_per_pixel,
        ensures
            final(self).wf(),
            final(self).received@ == old(self).received@.push(c),
            final(self).width == old(self).width,
            final(self).height == old(self).height,
            final(self).samples_per_pixel == old(self).samples_per_pixel,
    {
        let n: usize = self.counts.len();
        proof {
            vstd::arithmetic::mul::lemma_mul_inequality(
                c.y as int + 1,
                self.height as int,
                self.width as int,
            );
            assert((c.y + 1) * self.width == c.y * self.width + c.x + (self.width - c.x))
                by (nonlinear_arith);
            assert(self.height * self.width == self.width * self.height) by (nonlinear_arith);
            assert(c.y * self.width + c.x < n);
        }
        let idx: usize = c.y * self.width + c.x;
        let new_sum: Vec3 = self.pixels[idx].add(c.color.scale(self.color_divisor));
        self.pixels.set(idx, new_sum);
        let new_count: usize = self.counts[idx] + 1;
        self.counts.set(idx, new_count);
        if new_count == self.samples_per_pixel {
            self.image.set_pixel(c.x, c.y, Color::from_vec(new_sum));
        }
        proof {
            self.received@ = old(self).received@.push(c);
        }
        proof {
            let w = self.width as int;
            let h = self.height as int;
            let div = self.color_divisor;
            let idx = c.y * old(self).width + c.x;
            assert forall|x: int, y: int| 0 <= x < w && 0 <= y < h implies #[trigger] spec_pixel_count(
                self.received@,
                x,
                y,
            ) == self.counts@[y * w + x] && spec_pixel_count(self.received@, x, y)
                <= self.samples_per_pixel by {
                vstd::arithmetic::mul::lemma_mul_inequality(y + 1, h, w);
                assert((y + 1) * w == y * w + w) by (nonlinear_arith);
                assert(h * w == w * h) by (nonlinear_arith);
                assert(y * w >= 0) by (nonlinear_arith)
                    requires y >= 0, w >= 0;
                assert(0 <= y * w + x < w * h);
                lemma_accum_push(old(self).received@, c, x, y, div);
                if c.x == x && c.y == y {
                    assert(y * w + x == idx);
                } else {
                    if y * w + x == idx {
                        lemma_rowmajor_injective(w, x, y, c.x as int, c.y as int);
                    }
                }
            }
            assert forall|x: int, y: int| 0 <= x < w && 0 <= y < h implies #[trigger] self.pixels@[y
                * w + x] == spec_pixel_sum(self.received@, x, y, div) by {
                vstd::arithmetic::mul::lemma_mul_inequality(y + 1, h, w);
                assert((y + 1) * w == y * w + w) by (nonlinear_arith);
                assert(h * w == w * h) by (nonlinear_arith);
                assert(y * w >= 0) by (nonlinear_arith)
                    requires y >= 0, w >= 0;
                assert(0 <= y * w + x < w * h);
                lemma_accum_push(old(self).received@, c, x, y, div);
                if c.x == x && c.y == y {
                    assert(y * w + x == idx);
                } else {
                    if y * w + x == idx {
                        lemma_rowmajor_injective(w, x, y, c.x as int, c.y as int);
                    }
                }
            }
            assert forall|x: int, y: int| 0 <= x < w && 0 <= y < h implies #[trigger] self.image.data@[y
                * w + x] == (if spec_pixel_count(self.received@, x, y) == self.samples_per_pixel {
                self.image.spec_committed(
                    Color::spec_from_vec(spec_pixel_sum(self.received@, x, y, div)),
                )
            } else {
                Color::spec_new_grey(0)
            }) by {
                vstd::arithmetic::mul::lemma_mul_inequality(y + 1, h, w);
                assert((y + 1) * w == y * w + w) by (nonlinear_arith);
                assert(h * w == w * h) by (nonlinear_arith);
                assert(y * w >= 0) by (nonlinear_arith)
                    requires y >= 0, w >= 0;
                assert(0 <= y * w + x < w * h);
                lemma_accum_push(old(self).received@, c, x, y, div);
                if c.x == x && c.y == y {
                    assert(y * w + x == idx);
                } else {
                    if y * w + x == idx {
                        lemma_rowmajor_injective(w, x, y, c.x as int, c.y as int);
                    }
                }
            }
        }
    }

    /// The number of samples pixel `(x, y)` has received so far.
    pub fn count_at(&self, x: usize, y: usize) -> (r: usize)
        requires
            self.wf(),
            x < self.width,
            y < self.height,
        ensures
            r == spec_pixel_count(self.received@, x as int, y as int),
    {
        let n: usize = self.counts.len();
        proof {
            vstd::arithmetic::mul::lemma_mul_inequality(
                y as int + 1,
                self.height as int,
                self.width as int,
            );
            assert((y + 1) * self.width == y * self.width + x + (self.width - x))
                by (nonlinear_arith);
            assert(self.height * self.width == self.width * self.height) by (nonlinear_arith);
            assert(y * self.width + x < n);
        }
        self.counts[y * self.width + x]
    }

    /// Hand the image out.
    pub fn finish(self) -> (r: Image)
        ensures
            r == self.image,
    {
        self.image
    }
}

/// Sample conservation: once every pixel has received exactly its quota
/// of samples, every count stands at the quota and every pixel of the
/// image has been finalized with its accumulated color — committed
/// exactly once, at the step its quota was reached.
pub proof fn lemma_sample_conservation(st: ImagerState)
    requires
        st.wf(),
        forall|x: int, y: int|
            0 <= x < st.width && 0 <= y < st.height ==> #[trigger] spec_pixel_count(
                st.received@,
                x,
                y,
            ) == st.samples_per_pixel,
    ensures
        forall|x: int, y: int|
            0 <= x < st.width && 0 <= y < st.height ==> #[trigger] st.counts@[y * st.width + x]
                == st.samples_per_pixel,
        forall|x: int, y: int|
            0 <= x < st.width && 0 <= y < st.height ==> #[trigger] st.image.data@[y * st.width + x]
                == st.image.spec_committed(
                Color::spec_from_vec(spec_pixel_sum(st.received@, x, y, st.color_divisor)),
            ),
{
    assert forall|x: int, y: int| 0 <= x < st.width && 0 <= y < st.height implies #[trigger] st.counts@[y
        * st.width + x] == st.samples_per_pixel by {
        assert(spec_pixel_count(st.received@, x, y) == st.samples_per_pixel);
    }
    assert forall|x: int, y: int| 0 <= x < st.width && 0 <= y < st.height implies #[trigger] st.image.data@[y
        * st.width + x] == st.image.spec_committed(
        Color::spec_from_vec(spec_pixel_sum(st.received@, x, y, st.color_divisor)),
    ) by {
        assert(spec_pixel_count(st.received@, x, y) == st.samples_per_pixel);
    }
}

impl Imager {
    pub fn new(image_descriptor: ImageDescriptor) -> (r: Imager)
        ensures
            r.image_descriptor == image_descriptor,
    {
        Imager { image_descriptor }
    }

    /// Accumulate a drained stream of samples into an image. The stream
    /// must stay within the image and within the per-pixel quota; the
    /// pipeline's generator produces exactly the quota for every pixel.
    pub fn collect(&self, samples: &Vec<SampledColor>) -> (r: Image)
        requires
            self.image_descriptor.width * self.image_descriptor.height <= usize::MAX,
            1 <= self.image_descriptor.samples_per_pixel && self.image_descriptor.samples_per_pixel as int <= i64::MAX,
            forall|k: int|
                0 <= k < samples@.len() ==> (#[trigger] samples@[k]).x
                    < self.image_descriptor.width && samples@[k].y < self.image_descriptor.height,
            forall|x: int, y: int|
                0 <= x < self.image_descriptor.width && 0 <= y < self.image_descriptor.height
                    ==> #[trigger] spec_pixel_count(samples@, x, y)
                    <= self.image_descriptor.samples_per_pixel,
        ensures
            exists|st: ImagerState|
                st.wf() && st.received@ == samples@ && st.width == self.image_descriptor.width
                    && st.height == self.image_descriptor.height && st.samples_per_pixel
                    == self.image_descriptor.samples_per_pixel && r == st.image,
    {
        let mut st: ImagerState = ImagerState::new(self.image_descriptor);
        proof {
            assert(st.received@ =~= samples@.take(0));
        }
        let mut i: usize = 0;
        while i < samples.len()
            invariant
                i <= samples@.len(),
                st.wf(),
                st.received@ == samples@.take(i as int),
                st.width == self.image_descriptor.width,
                st.height == self.image_descriptor.height,
                st.samples_per_pixel == self.image_descriptor.samples_per_pixel,
                forall|k: int|
                    0 <= k < samples@.len() ==> (#[trigger] samples@[k]).x < st.width
                        && samples@[k].y < st.height,
                forall|x: int, y: int|
                    0 <= x < st.width && 0 <= y < st.height ==> #[trigger] spec_pixel_count(
                        samples@,
                        x,
                        y,
                    ) <= st.samples_per_pixel,
            decreases samples@.len() - i,
        {
            let c: SampledColor = samples[i];
            proof {
                assert(samples@.take(i as int + 1).drop_last() =~= samples@.take(i as int));
                assert(samples@.take(i as int + 1).last() == c);
                lemma_accum_push(samples@.take(i as int), c, c.x as int, c.y as int, st.color_divisor);
                lemma_count_prefix_mono(
                    samples@,
                    i as int + 1,
                    samples@.len() as int,
                    c.x as int,
                    c.y as int,
                );
                assert(samples@.take(samples@.len() as int) =~= samples@);
            }
            st.process(c);
            proof {
                assert(st.received@ =~= samples@.take(i as int + 1));
            }
            i = i + 1;
        }
        proof {
            assert(samples@.take(samples@.len() as int) =~= samples@);
            let ghost final_st = st;
            assert(final_st.wf() && final_st.received@ == samples@);
        }
        let r: Image = st.finish();
        r
    }
}

} // verus!
