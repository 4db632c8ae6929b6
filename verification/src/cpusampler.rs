//! The whole-path sampler: one in-flight sample is traced to
//! termination, accumulating attenuated emission along the way — the
//! per-sample body of the non-feedback sampling stage.

use vstd::prelude::*;
use crate::bvh::{Node, BVH};
use crate::colorsampler::{spec_idle_rng, T_EPSILON};
use crate::dto::{SamplePoint, SampledColor};
use crate::material::ScatterRng;
use crate::ray::{Ray, TRange};
use crate::vec3::Vec3;

verus! {

/// The color a path delivers, against a given sequence of per-bounce
/// random draws, carrying the running attenuation and the radiance
/// collected so far: each hit adds its attenuated emission; a scattering
/// hit filters the attenuation by the albedo and follows the scattered
/// ray with one bounce less; an absorbing hit ends the path; a miss adds
/// the attenuated background and ends the path; an exhausted budget
/// delivers what was collected.
pub open spec fn spec_path_color(
    root: Node,
    ray: Ray,
    remain: usize,
    background_color: Vec3,
    attenuation: Vec3,
    color: Vec3,
    rngs: Seq<ScatterRng>,
) -> Vec3
    decreases remain,
{
    if remain == 0 {
        color
    } else {
        match root.spec_query(ray, TRange { start: T_EPSILON, end: i64::MAX }) {
            Some(rec) => {
                let collected = color.spec_add_v(
                    attenuation.spec_mul_v(
                        match rec.material.spec_emitted() {
                            Some(e) => e,
                            None => Vec3::spec_zero(),
                        },
                    ),
                );
                match rec.material.spec_scatter(ray, rec, rngs.first()) {
                    Some(s) => spec_path_color(
                        root,
                        s.0,
                        (remain - 1) as usize,
                        background_color,
                        attenuation.spec_mul_v(s.1),
                        collected,
                        rngs.drop_first(),
                    ),
                    None => collected,
                }
            },
            None => color.spec_add_v(attenuation.spec_mul_v(background_color)),
        }
    }
}

pub struct CpuSampler {
    pub num_threads: usize,
    pub max_bounces: usize,
    pub background_color: Vec3,
}

/// Trace a path to termination from the given in-flight state. Whatever
/// was drawn, the result is the path color for some well-formed draws.
fn path_color(
    world: &BVH,
    background_color: Vec3,
    ray: Ray,
    remain: usize,
    attenuation: Vec3,
    color: Vec3,
) -> (r: Vec3)
    requires
        world.root.wf(),
    ensures
        exists|rngs: Seq<ScatterRng>|
            rngs.len() == remain && (forall|i: int|
                0 <= i < rngs.len() ==> (#[trigger] rngs[i]).wf()) && r == #[trigger] spec_path_color(
                world.root,
                ray,
                remain,
                background_color,
                attenuation,
                color,
                rngs,
            ),
    decreases remain,
{
    proof {
        crate::fixed::lemma_mul_unit(0i64);
        assert(spec_idle_rng().wf());
    }
    if remain == 0 {
        proof {
            let rngs = Seq::<ScatterRng>::empty();
            assert(color == spec_path_color(
                world.root,
                ray,
                remain,
                background_color,
                attenuation,
                color,
                rngs,
            ));
        }
        return color;
    }
    let ghost idle: Seq<ScatterRng> = Seq::new(remain as nat, |i: int| spec_idle_rng());
    match world.hit(ray, TRange { start: T_EPSILON, end: i64::MAX }) {
        Some(rec) => {
            let emission: Vec3 = match rec.material.emitted() {
                Some(e) => e,
                None => Vec3::zero(),
            };
            let collected: Vec3 = color.add(attenuation.mul(emission));
            match rec.material.scatter(ray, rec) {
                Some((new_ray, albedo)) => {
                    let r: Vec3 = path_color(
                        world,
                        background_color,
                        new_ray,
                        remain - 1,
                        attenuation.mul(albedo),
                        collected,
                    );
                    proof {
                        let rng = choose|rng: ScatterRng|
                            rng.wf() && Some((new_ray, albedo)) == rec.material.spec_scatter(
                                ray,
                                rec,
                                rng,
                            );
                        let tail = choose|tail: Seq<ScatterRng>|
                            tail.len() == remain - 1 && (forall|i: int|
                                0 <= i < tail.len() ==> (#[trigger] tail[i]).wf()) && r
                                == #[trigger] spec_path_color(
                                world.root,
                                new_ray,
                                (remain - 1) as usize,
                                background_color,
                                attenuation.spec_mul_v(albedo),
                                collected,
                                tail,
                            );
                        let rngs = seq![rng] + tail;
                        assert(rngs.first() == rng);
                        assert(rngs.drop_first() =~= tail);
                        assert(forall|i: int| 0 <= i < rngs.len() ==> (#[trigger] rngs[i]).wf());
                        assert(r == spec_path_color(
                            world.root,
                            ray,
                            remain,
                            background_color,
                            attenuation,
                            color,
                            rngs,
                        ));
                    }
                    r
                },
                None => {
                    proof {
                        let rng = choose|rng: ScatterRng|
                            rng.wf() && None::<(Ray, Vec3)> == rec.material.spec_scatter(
                                ray,
                                rec,
                                rng,
                            );
                        let rngs = seq![rng] + idle.drop_first();
                        assert(rngs.first() == rng);
                        assert(forall|i: int| 0 <= i < rngs.len() ==> (#[trigger] rngs[i]).wf());
                        assert(collected == spec_path_color(
                            world.root,
                            ray,
                            remain,
                            background_color,
                            attenuation,
                            color,
                            rngs,
                        ));
                    }
                    collected
                },
            }
        },
        None => {
            let r: Vec3 = color.add(attenuation.mul(background_color));
            proof {
                assert(forall|i: int| 0 <= i < idle.len() ==> (#[trigger] idle[i]).wf());
                assert(r == spec_path_color(
                    world.root,
                    ray,
                    remain,
                    background_color,
                    attenuation,
                    color,
                    idle,
                ));
            }
            r
        },
    }
}

impl CpuSampler {
    pub fn new(num_threads: usize, max_bounces: usize, background_color: Vec3) -> (r: CpuSampler)
        ensures
            r.num_threads == num_threads,
            r.max_bounces == max_bounces,
            r.background_color == background_color,
    {
        CpuSampler { num_threads, max_bounces, background_color }
    }

    /// Trace one primary sample to termination, starting from unit
    /// attenuation and no collected radiance. The pixel is kept, and the
    /// color is the path color for some well-formed per-bounce draws.
    pub fn single_point_sampling(&self, world: &BVH, sample_point: SamplePoint) -> (r:
        SampledColor)
        requires
            world.root.wf(),
        ensures
            r.x == sample_point.x,
            r.y == sample_point.y,
            exists|rngs: Seq<ScatterRng>|
                rngs.len() == self.max_bounces && (forall|i: int|
                    0 <= i < rngs.len() ==> (#[trigger] rngs[i]).wf()) && r.color
                    == #[trigger] spec_path_color(
                    world.root,
                    sample_point.ray,
                    self.max_bounces,
                    self.background_color,
                    Vec3::spec_one(),
                    Vec3::spec_zero(),
                    rngs,
                ),
    {
        let color: Vec3 = path_color(
            world,
            self.background_color,
            sample_point.ray,
            self.max_bounces,
            Vec3::one(),
            Vec3::zero(),
        );
        SampledColor { x: sample_point.x, y: sample_point.y, color }
    }
}

} // verus!
