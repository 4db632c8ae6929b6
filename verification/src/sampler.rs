//! The sampling stage's state machine: one dequeued in-flight sample is
//! turned into either a terminal color or a continuation that re-enters
//! the stage through the feedback queue. The transition itself is a pure
//! function of the scene, the sample and the random draws, so the whole
//! path trace is an iterative expansion of it.

use vstd::prelude::*;
use crate::bvh::{Node, BVH};
use crate::colorsampler::{Background, T_EPSILON};
use crate::descriptor::SamplerDescriptor;
use crate::dto::{SamplePoint, SampledColor, SamplerInput};
use crate::material::ScatterRng;
use crate::ray::TRange;
use crate::vec3::{lemma_mul_v_unit, Vec3};

verus! {

pub struct Sampler {
    pub descriptor: SamplerDescriptor,
}

/// What one transition produces: another in-flight sample, or a color
/// for the imager.
#[derive(Clone, Copy, PartialEq, Eq, Structural, Debug)]
pub enum SamplingOutput {
    Continue(SamplerInput),
    Done(SampledColor),
}

/// The transition rule, as a pure function. An exhausted budget yields
/// black. A hit that scatters continues with the budget decremented, the
/// attenuation filtered by the albedo and the scattered ray. A hit that
/// does not scatter yields the attenuated emission. A miss yields the
/// attenuated background radiance.
pub open spec fn spec_sample(
    root: Node,
    background: Background,
    input: SamplerInput,
    rng: ScatterRng,
) -> SamplingOutput {
    if input.remain_bounces == 0 {
        SamplingOutput::Done(
            SampledColor { x: input.x, y: input.y, color: Vec3::spec_zero() },
        )
    } else {
        match root.spec_query(input.ray, TRange { start: T_EPSILON, end: i64::MAX }) {
            Some(rec) => match rec.material.spec_scatter(input.ray, rec, rng) {
                Some(scattered) => SamplingOutput::Continue(
                    SamplerInput {
                        x: input.x,
                        y: input.y,
                        ray: scattered.0,
                        remain_bounces: (input.remain_bounces - 1) as usize,
                        attenuation: input.attenuation.spec_mul_v(scattered.1),
                    },
                ),
                None => SamplingOutput::Done(
                    SampledColor {
                        x: input.x,
                        y: input.y,
                        color: input.attenuation.spec_mul_v(
                            match rec.material.spec_emitted() {
                                Some(e) => e,
                                None => Vec3::spec_zero(),
                            },
                        ),
                    },
                ),
            },
            None => SamplingOutput::Done(
                SampledColor {
                    x: input.x,
                    y: input.y,
                    color: input.attenuation.spec_mul_v(
                        background.spec_radiance(input.ray.spec_direction()),
                    ),
                },
            ),
        }
    }
}

/// The albedo a continuing transition multiplies into the attenuation.
pub open spec fn spec_step_albedo(
    root: Node,
    background: Background,
    input: SamplerInput,
    rng: ScatterRng,
) -> Option<Vec3> {
    if input.remain_bounces == 0 {
        None
    } else {
        match root.spec_query(input.ray, TRange { start: T_EPSILON, end: i64::MAX }) {
            Some(rec) => match rec.material.spec_scatter(input.ray, rec, rng) {
                Some(scattered) => Some(scattered.1),
                None => None,
            },
            None => None,
        }
    }
}

/// The radiance a terminal transition attenuates: zero for an exhausted
/// budget, the emission at an absorbing hit, the background at a miss.
pub open spec fn spec_terminal_radiance(
    root: Node,
    background: Background,
    input: SamplerInput,
    rng: ScatterRng,
) -> Option<Vec3> {
    if input.remain_bounces == 0 {
        Some(Vec3::spec_zero())
    } else {
        match root.spec_query(input.ray, TRange { start: T_EPSILON, end: i64::MAX }) {
            Some(rec) => match rec.material.spec_scatter(input.ray, rec, rng) {
                Some(_) => None,
                None => Some(
                    match rec.material.spec_emitted() {
                        Some(e) => e,
                        None => Vec3::spec_zero(),
                    },
                ),
            },
            None => Some(background.spec_radiance(input.ray.spec_direction())),
        }
    }
}

/// Every transition either continues with the attenuation multiplied by
/// the step's albedo and the budget decremented, or terminates with the
/// current attenuation times the terminal radiance; the pixel is kept
/// either way.
pub proof fn lemma_step_attenuation(
    root: Node,
    background: Background,
    input: SamplerInput,
    rng: ScatterRng,
)
    ensures
        match spec_sample(root, background, input, rng) {
            SamplingOutput::Continue(next) => {
                &&& spec_step_albedo(root, background, input, rng) is Some
                &&& next.attenuation == input.attenuation.spec_mul_v(
                    spec_step_albedo(root, background, input, rng)->0,
                )
                &&& next.remain_bounces + 1 == input.remain_bounces
                &&& next.x == input.x
                &&& next.y == input.y
            },
            SamplingOutput::Done(c) => {
                &&& spec_terminal_radiance(root, background, input, rng) is Some
                &&& c.color == input.attenuation.spec_mul_v(
                    spec_terminal_radiance(root, background, input, rng)->0,
                )
                &&& c.x == input.x
                &&& c.y == input.y
            },
        },
{
    lemma_mul_v_unit(input.attenuation);
}

/// The component-wise product of a sequence of attenuations, starting
/// from the unit.
pub open spec fn spec_atten_product(albedos: Seq<Vec3>) -> Vec3
    decreases albedos.len(),
{
    if albedos.len() == 0 {
        Vec3::spec_one()
    } else {
        spec_atten_product(albedos.drop_last()).spec_mul_v(albedos.last())
    }
}

/// Along a chain of transitions that starts at unit attenuation, the
/// in-flight attenuation is the running product of the albedos.
pub proof fn lemma_chain_attenuation(
    root: Node,
    background: Background,
    inputs: Seq<SamplerInput>,
    rngs: Seq<ScatterRng>,
    albedos: Seq<Vec3>,
    j: int,
)
    requires
        inputs.len() == albedos.len() + 1,
        rngs.len() == inputs.len(),
        inputs[0].attenuation == Vec3::spec_one(),
        forall|i: int|
            0 <= i < albedos.len() ==> spec_sample(root, background, #[trigger] inputs[i], rngs[i])
                == SamplingOutput::Continue(inputs[i + 1]) && spec_step_albedo(
                root,
                background,
                inputs[i],
                rngs[i],
            ) == Some(albedos[i]),
        0 <= j < inputs.len(),
    ensures
        inputs[j].attenuation == spec_atten_product(albedos.take(j)),
    decreases j,
{
    if j == 0 {
        assert(albedos.take(0) =~= Seq::<Vec3>::empty());
    } else {
        lemma_chain_attenuation(root, background, inputs, rngs, albedos, j - 1);
        lemma_step_attenuation(root, background, inputs[j - 1], rngs[j - 1]);
        assert(albedos.take(j).drop_last() =~= albedos.take(j - 1));
        assert(albedos.take(j).last() == albedos[j - 1]);
    }
}

/// Attenuation multiplicativity: a path that bounces through albedos
/// `a_1 .. a_k` and terminates with radiance `L` delivers exactly
/// `a_1 * a_2 * ... * a_k * L`, component-wise, to the imager.
pub proof fn lemma_attenuation_multiplicative(
    root: Node,
    background: Background,
    inputs: Seq<SamplerInput>,
    rngs: Seq<ScatterRng>,
    albedos: Seq<Vec3>,
    c: SampledColor,
    radiance: Vec3,
)
    requires
        inputs.len() == albedos.len() + 1,
        rngs.len() == inputs.len(),
        inputs[0].attenuation == Vec3::spec_one(),
        forall|i: int|
            0 <= i < albedos.len() ==> spec_sample(root, background, #[trigger] inputs[i], rngs[i])
                == SamplingOutput::Continue(inputs[i + 1]) && spec_step_albedo(
                root,
                background,
                inputs[i],
                rngs[i],
            ) == Some(albedos[i]),
        spec_sample(root, background, inputs.last(), rngs.last()) == SamplingOutput::Done(c),
        spec_terminal_radiance(root, background, inputs.last(), rngs.last()) == Some(radiance),
    ensures
        c.color == spec_atten_product(albedos).spec_mul_v(radiance),
{
    let k = inputs.len() - 1;
    lemma_chain_attenuation(root, background, inputs, rngs, albedos, k);
    assert(albedos.take(k) =~= albedos);
    assert(inputs[k] == inputs.last());
    lemma_step_attenuation(root, background, inputs.last(), rngs.last());
}

impl Sampler {
    pub fn new(descriptor: SamplerDescriptor) -> (r: Sampler)
        ensures
            r.descriptor == descriptor,
    {
        Sampler { descriptor }
    }

    /// A fresh in-flight sample for a primary point: full budget, unit
    /// attenuation.
    pub fn convert(sample_point: SamplePoint, max_bounces: usize) -> (r: SamplerInput)
        ensures
            r.x == sample_point.x,
            r.y == sample_point.y,
            r.ray == sample_point.ray,
            r.remain_bounces == max_bounces,
            r.attenuation == Vec3::spec_one(),
    {
        SamplerInput {
            x: sample_point.x,
            y: sample_point.y,
            ray: sample_point.ray,
            remain_bounces: max_bounces,
            attenuation: Vec3::one(),
        }
    }

    /// One transition against the given random draws.
    pub fn sample_with(
        world: &BVH,
        background: Background,
        input: SamplerInput,
        rng: ScatterRng,
    ) -> (r: SamplingOutput)
        requires
            world.root.wf(),
        ensures
            r == spec_sample(world.root, background, input, rng),
    {
        if input.remain_bounces == 0 {
            return SamplingOutput::Done(
                SampledColor { x: input.x, y: input.y, color: Vec3::zero() },
            );
        }
        match world.hit(input.ray, TRange { start: T_EPSILON, end: i64::MAX }) {
            Some(rec) => match rec.material.scatter_with(input.ray, rec, rng) {
                Some((scattered, attenuation)) => SamplingOutput::Continue(
                    SamplerInput {
                        x: input.x,
                        y: input.y,
                        ray: scattered,
                        remain_bounces: input.remain_bounces - 1,
                        attenuation: input.attenuation.mul(attenuation),
                    },
                ),
                None => {
                    let emitted: Vec3 = match rec.material.emitted() {
                        Some(e) => e,
                        None => Vec3::zero(),
                    };
                    SamplingOutput::Done(
                        SampledColor {
                            x: input.x,
                            y: input.y,
                            color: input.attenuation.mul(emitted),
                        },
                    )
                },
            },
            None => SamplingOutput::Done(
                SampledColor {
                    x: input.x,
                    y: input.y,
                    color: input.attenuation.mul(background.radiance(input.ray.direction())),
                },
            ),
        }
    }

    /// One transition with fresh randomness: whatever was drawn, the
    /// result follows the transition rule for some well-formed draw.
    pub fn sample(world: &BVH, background: Background, input: SamplerInput) -> (r: SamplingOutput)
        requires
            world.root.wf(),
        ensures
            exists|rng: ScatterRng|
                rng.wf() && r == spec_sample(world.root, background, input, rng),
    {
        let rng: ScatterRng = ScatterRng::draw();
        let r: SamplingOutput = Sampler::sample_with(world, background, input, rng);
        proof {
            assert(rng.wf() && r == spec_sample(world.root, background, input, rng));
        }
        r
    }
}


/// What a sampler worker should do next. Feedback work is preferred so
/// that in-flight paths finish and the backlog stays bounded; the stage
/// is finished only when the generator has signaled completion and both
/// queues are empty, all three together.
#[derive(Clone, Copy, PartialEq, Eq, Structural, Debug)]
pub enum StageAction {
    DrainFeedback,
    DrainPrimary,
    Finish,
    Wait,
}

/// The worker scheduling rule of the sampling stage.
pub fn next_action(feedback_empty: bool, primary_empty: bool, generator_done: bool) -> (r:
    StageAction)
    ensures
        !feedback_empty ==> r == StageAction::DrainFeedback,
        feedback_empty && !primary_empty ==> r == StageAction::DrainPrimary,
        feedback_empty && primary_empty && generator_done ==> r == StageAction::Finish,
        feedback_empty && primary_empty && !generator_done ==> r == StageAction::Wait,
{
    if !feedback_empty {
        StageAction::DrainFeedback
    } else if !primary_empty {
        StageAction::DrainPrimary
    } else if generator_done {
        StageAction::Finish
    } else {
        StageAction::Wait
    }
}

} // verus!

