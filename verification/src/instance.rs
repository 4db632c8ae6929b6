//! A whole render in one place: generation, the sampling feedback loop
//! and accumulation, run to completion in-process. The concurrent
//! pipeline distributes exactly these transitions over worker tasks and
//! channels; here they run serially, which makes the two global
//! guarantees provable: the loop terminates because the total remaining
//! bounce budget shrinks with every step, and on exit every pixel has
//! received exactly its quota of samples.

use vstd::prelude::*;
use crate::bvh::BVH;
use crate::colorsampler::Background;
use crate::descriptor::InstanceDescriptor;
use crate::dto::{SamplePoint, SamplerInput};
use crate::imager::{spec_pixel_count, ImagerState};
use crate::image::Image;
use crate::pointgen::{generate_band, spec_point_count};
use crate::sampler::{spec_sample, Sampler, SamplingOutput};
use crate::material::ScatterRng;
use crate::world::{World, WorldError};

verus! {

/// How many of the in-flight samples address pixel `(x, y)`.
pub open spec fn spec_inflight_count(q: Seq<SamplerInput>, x: int, y: int) -> nat
    decreases q.len(),
{
    if q.len() == 0 {
        0
    } else {
        spec_inflight_count(q.drop_last(), x, y) + if q.last().x == x && q.last().y == y {
            1nat
        } else {
            0nat
        }
    }
}

/// The total remaining work: every in-flight sample counts for its
/// remaining bounces plus the one step that retires it.
pub open spec fn spec_total_budget(q: Seq<SamplerInput>) -> nat
    decreases q.len(),
{
    if q.len() == 0 {
        0
    } else {
        (spec_total_budget(q.drop_last()) + q.last().remain_bounces + 1) as nat
    }
}

/// Appending one in-flight sample raises its own pixel's count and adds
/// its budget.
pub proof fn lemma_inflight_push(q: Seq<SamplerInput>, u: SamplerInput, x: int, y: int)
    ensures
        spec_inflight_count(q.push(u), x, y) == spec_inflight_count(q, x, y) + if u.x == x && u.y
            == y {
            1nat
        } else {
            0nat
        },
        spec_total_budget(q.push(u)) == spec_total_budget(q) + u.remain_bounces + 1nat,
{
    assert(q.push(u).drop_last() =~= q);
    assert(q.push(u).last() == u);
}

pub struct Instance {
    pub descriptor: InstanceDescriptor,
}

impl Instance {
    pub fn new(descriptor: InstanceDescriptor) -> (r: Instance)
        ensures
            r.descriptor == descriptor,
    {
        Instance { descriptor }
    }

    /// Run the whole pipeline to completion: emit every primary point,
    /// bounce every in-flight sample until it terminates, and accumulate
    /// every terminal color. The returned accumulation is complete:
    /// every pixel of the image was finalized with exactly
    /// `samples_per_pixel` contributions.
    pub fn render_blocking(&self, world: &World, background: Background) -> (r: Result<
        Image,
        WorldError,
    >)
        requires
            world.wf(),
            self.descriptor.point_generator_descriptor.image.width
                * self.descriptor.point_generator_descriptor.image.height <= usize::MAX,
            1 <= self.descriptor.point_generator_descriptor.image.width && self.descriptor.point_generator_descriptor.image.width as int <= i64::MAX,
            1 <= self.descriptor.point_generator_descriptor.image.height && self.descriptor.point_generator_descriptor.image.height as int <= i64::MAX,
            1 <= self.descriptor.point_generator_descriptor.image.samples_per_pixel
                && self.descriptor.point_generator_descriptor.image.samples_per_pixel as int <= i64::MAX,
        ensures
            match r {
                Ok(image) => exists|st: ImagerState|
                    {
                        &&& st.wf()
                        &&& st.width == self.descriptor.point_generator_descriptor.image.width
                        &&& st.height == self.descriptor.point_generator_descriptor.image.height
                        &&& st.samples_per_pixel
                            == self.descriptor.point_generator_descriptor.image.samples_per_pixel
                        &&& forall|x: int, y: int|
                            0 <= x < st.width && 0 <= y < st.height
                                ==> #[trigger] spec_pixel_count(st.received@, x, y)
                                == st.samples_per_pixel
                        &&& image == st.image
                    },
                Err(e) => e == WorldError::EmptyScene && world.geometries@.len() == 0,
            },
    {
        let desc = self.descriptor.point_generator_descriptor.image;
        let width: usize = desc.width;
        let height: usize = desc.height;
        let spp: usize = desc.samples_per_pixel;
        let max_bounces: usize = self.descriptor.sampler_descriptor.max_bounces;
        let bvh: BVH = match world.get_bvh() {
            Ok(b) => b,
            Err(e) => {
                return Err(e);
            },
        };
        let camera = &self.descriptor.point_generator_descriptor.camera;
        let points: Vec<SamplePoint> = generate_band(camera, width, height, spp, 0, height);

        let mut queue: Vec<SamplerInput> = Vec::new();
        let mut i: usize = 0;
        while i < points.len()
            invariant
                i <= points@.len(),
                forall|x: int, y: int|
                    #![trigger spec_inflight_count(queue@, x, y)]
                    spec_inflight_count(queue@, x, y) == spec_point_count(
                        points@.take(i as int),
                        x,
                        y,
                    ),
                forall|k: int|
                    0 <= k < queue@.len() ==> (#[trigger] queue@[k]).x < width && queue@[k].y
                        < height,
                forall|k: int|
                    0 <= k < points@.len() ==> (#[trigger] points@[k]).x < width && points@[k].y
                        < height,
            decreases points@.len() - i,
        {
            let ghost before: Seq<SamplerInput> = queue@;
            let u: SamplerInput = Sampler::convert(points[i], max_bounces);
            queue.push(u);
            proof {
                assert forall|x: int, y: int|
                    #![trigger spec_inflight_count(queue@, x, y)]
                    spec_inflight_count(queue@, x, y) == spec_point_count(
                        points@.take(i as int + 1),
                        x,
                        y,
                    ) by {
                    lemma_inflight_push(before, u, x, y);
                    assert(points@.take(i as int + 1).drop_last() =~= points@.take(i as int));
                    assert(points@.take(i as int + 1).last() == points@[i as int]);
                }
            }
            i = i + 1;
        }
        proof {
            assert(points@.take(points@.len() as int) =~= points@);
        }

        let mut st: ImagerState = ImagerState::new(desc);
        proof {
            assert(st.received@ =~= Seq::<crate::dto::SampledColor>::empty());
        }
        while queue.len() > 0
            invariant
                st.wf(),
                st.width == width,
                st.height == height,
                st.samples_per_pixel == spp,
                bvh.root.wf(),
                forall|x: int, y: int|
                    0 <= x < width && 0 <= y < height ==> #[trigger] spec_pixel_count(
                        st.received@,
                        x,
                        y,
                    ) + spec_inflight_count(queue@, x, y) == spp,
                forall|k: int|
                    0 <= k < queue@.len() ==> (#[trigger] queue@[k]).x < width && queue@[k].y
                        < height,
            decreases spec_total_budget(queue@),
        {
            let ghost before: Seq<SamplerInput> = queue@;
            let input: SamplerInput = match queue.pop() {
                Some(u) => u,
                None => {
                    proof {
                        assert(false);
                    }
                    return Err(WorldError::EmptyScene);
                },
            };
            proof {
                assert(queue@ =~= before.drop_last());
                assert(input == before.last());
            }
            let out: SamplingOutput = Sampler::sample(&bvh, background, input);
            proof {
                let rng = choose|rng: ScatterRng|
                    rng.wf() && out == spec_sample(bvh.root, background, input, rng);
                crate::sampler::lemma_step_attenuation(bvh.root, background, input, rng);
            }
            match out {
                SamplingOutput::Continue(next) => {
                    let ghost mid: Seq<SamplerInput> = queue@;
                    queue.push(next);
                    proof {
                        assert forall|x: int, y: int|
                            0 <= x < width && 0 <= y < height implies #[trigger] spec_pixel_count(
                            st.received@,
                            x,
                            y,
                        ) + spec_inflight_count(queue@, x, y) == spp by {
                            lemma_inflight_push(mid, next, x, y);
                        }
                        lemma_inflight_push(mid, next, 0, 0);
                    }
                },
                SamplingOutput::Done(c) => {
                    proof {
                        assert(spec_inflight_count(before, c.x as int, c.y as int) >= 1);
                        assert(spec_pixel_count(st.received@, c.x as int, c.y as int) < spp);
                    }
                    let ghost prev_rec: Seq<crate::dto::SampledColor> = st.received@;
                    let ghost div: i64 = st.color_divisor;
                    st.process(c);
                    proof {
                        assert forall|x: int, y: int|
                            0 <= x < width && 0 <= y < height implies #[trigger] spec_pixel_count(
                            st.received@,
                            x,
                            y,
                        ) + spec_inflight_count(queue@, x, y) == spp by {
                            crate::imager::lemma_accum_push(prev_rec, c, x, y, div);
                        }
                    }
                },
            }
        }
        proof {
            assert forall|x: int, y: int|
                0 <= x < st.width && 0 <= y < st.height implies #[trigger] spec_pixel_count(
                st.received@,
                x,
                y,
            ) == st.samples_per_pixel by {
                assert(spec_inflight_count(queue@, x, y) == 0);
            }
            let ghost witness = st;
            assert(witness.wf());
        }
        Ok(st.finish())
    }
}

} // verus!
