//! Whole-path color estimation against a built tree: the normal
//! visualizer and the recursive reference sampler, plus the background
//! radiance that rays escaping the scene receive.

use vstd::prelude::*;
use crate::bvh::{Node, BVH};
use crate::fixed::{fp_add, fp_mul, spec_add, spec_mul, FP_HALF, FP_ONE};
use crate::material::ScatterRng;
use crate::ray::{Ray, TRange};
use crate::vec3::Vec3;

verus! {

/// Hit searches start at this parameter (one thousandth), so a scattered
/// ray does not immediately re-hit the surface it left.
pub const T_EPSILON: i64 = 16777;

/// The green channel of the sky color, seven tenths.
pub const SKY_G: i64 = 11744051;

/// The sky gradient: a blend from white at the horizon to light blue
/// upward, driven by the y component of the ray direction.
pub open spec fn spec_background(dir: Vec3) -> Vec3 {
    let a = spec_mul(FP_HALF, spec_add(dir.y, FP_ONE));
    Vec3::spec_one().spec_scale(crate::fixed::spec_sub(FP_ONE, a)).spec_add_v(
        Vec3::spec_new(FP_HALF, SKY_G, FP_ONE).spec_scale(a),
    )
}

#[verifier::when_used_as_spec(spec_background)]
pub fn background(dir: Vec3) -> (r: Vec3)
    ensures
        r == spec_background(dir),
{
    let a: i64 = fp_mul(FP_HALF, fp_add(dir.y, FP_ONE));
    Vec3::one().scale(crate::fixed::fp_sub(FP_ONE, a)).add(
        Vec3::new(FP_HALF, SKY_G, FP_ONE).scale(a),
    )
}

/// What a ray that escapes the scene contributes: the sky gradient, or a
/// configured constant color.
#[derive(Clone, Copy, PartialEq, Eq, Structural, Debug)]
pub enum Background {
    Sky,
    Solid(Vec3),
}

impl Background {
    pub open spec fn spec_radiance(self, dir: Vec3) -> Vec3 {
        match self {
            Background::Sky => spec_background(dir),
            Background::Solid(c) => c,
        }
    }

    #[verifier::when_used_as_spec(spec_radiance)]
    pub fn radiance(self, dir: Vec3) -> (r: Vec3)
        ensures
            r == self.spec_radiance(dir),
    {
        match self {
            Background::Sky => background(dir),
            Background::Solid(c) => c,
        }
    }
}

/// Colors each hit by its surface normal; rays that miss get the sky.
#[derive(Clone, Copy, PartialEq, Eq, Structural, Debug)]
pub struct NormalSampler {}

impl NormalSampler {
    pub fn new() -> (r: NormalSampler)
        ensures
            r == (NormalSampler {  }),
    {
        NormalSampler {  }
    }

    /// The color the normal visualizer assigns to a ray.
    pub open spec fn spec_sample(root: Node, ray: Ray) -> Vec3 {
        match root.spec_query(ray, TRange { start: 0, end: i64::MAX }) {
            Some(rec) => rec.normal.spec_add_v(Vec3::spec_one()).spec_scale(FP_HALF),
            None => spec_background(ray.spec_direction()),
        }
    }

    pub fn sample(&self, ray: Ray, world: &BVH, _depth: u32) -> (r: Vec3)
        requires
            world.root.wf(),
        ensures
            r == NormalSampler::spec_sample(world.root, ray),
    {
        match world.hit(ray, TRange { start: 0, end: i64::MAX }) {
            Some(rec) => rec.normal.add(Vec3::one()).scale(FP_HALF),
            None => background(ray.direction()),
        }
    }
}

/// The recursive reference sampler: one scatter per level until the
/// depth budget runs out. The concurrent pipeline unrolls exactly this
/// recursion into its feedback queue.
#[derive(Clone, Copy, PartialEq, Eq, Structural, Debug)]
pub struct GeneralSampler {}

/// The recursive estimate against a given sequence of per-level random
/// draws: black once the depth is exhausted, the sky at a miss; at a hit
/// the emitted radiance plus, where the material scatters, the
/// albedo-filtered estimate of the scattered ray.
pub open spec fn spec_general_sample(root: Node, ray: Ray, depth: u32, rngs: Seq<ScatterRng>) -> Vec3
    decreases depth,
{
    if depth == 0 {
        Vec3::spec_zero()
    } else {
        match root.spec_query(ray, TRange { start: T_EPSILON, end: i64::MAX }) {
            Some(rec) => {
                let emitted = match rec.material.spec_emitted() {
                    Some(e) => e,
                    None => Vec3::spec_zero(),
                };
                match rec.material.spec_scatter(ray, rec, rngs.first()) {
                    Some(s) => emitted.spec_add_v(
                        s.1.spec_mul_v(
                            spec_general_sample(root, s.0, (depth - 1) as u32, rngs.drop_first()),
                        ),
                    ),
                    None => emitted,
                }
            },
            None => spec_background(ray.spec_direction()),
        }
    }
}

/// A placeholder draw for the levels a terminated path never reaches.
pub open spec fn spec_idle_rng() -> ScatterRng {
    ScatterRng { unit: Vec3::spec_zero(), in_sphere: Vec3::spec_zero(), uniform: 0 }
}

impl GeneralSampler {
    pub fn new() -> (r: GeneralSampler)
        ensures
            r == (GeneralSampler {  }),
    {
        GeneralSampler {  }
    }

    /// An exhausted depth budget contributes black; otherwise the hit's
    /// emission is collected and one bounce is taken with fresh
    /// randomness, the recursive estimate filtered by the scatter albedo.
    /// Whatever was drawn, the result is the recursive estimate for some
    /// well-formed draws.
    pub fn sample(&self, ray: Ray, world: &BVH, depth: u32) -> (r: Vec3)
        requires
            world.root.wf(),
        ensures
            depth == 0 ==> r == Vec3::spec_zero(),
            exists|rngs: Seq<ScatterRng>|
                rngs.len() == depth && (forall|i: int|
                    0 <= i < rngs.len() ==> (#[trigger] rngs[i]).wf()) && r
                    == #[trigger] spec_general_sample(world.root, ray, depth, rngs),
        decreases depth,
    {
        proof {
            crate::fixed::lemma_mul_unit(0i64);
            assert(spec_idle_rng().wf());
        }
        if depth == 0 {
            let r: Vec3 = Vec3::zero();
            proof {
                let rngs = Seq::<ScatterRng>::empty();
                assert(r == spec_general_sample(world.root, ray, depth, rngs));
            }
            return r;
        }
        let ghost idle: Seq<ScatterRng> = Seq::new(depth as nat, |i: int| spec_idle_rng());
        match world.hit(ray, TRange { start: T_EPSILON, end: i64::MAX }) {
            Some(rec) => {
                let emitted: Vec3 = match rec.material.emitted() {
                    Some(e) => e,
                    None => Vec3::zero(),
                };
                match rec.material.scatter(ray, rec) {
                Some((scattered, attenuation)) => {
                    let sub: Vec3 = self.sample(scattered, world, depth - 1);
                    let r: Vec3 = emitted.add(attenuation.mul(sub));
                    proof {
                        let rng = choose|rng: ScatterRng|
                            rng.wf() && Some((scattered, attenuation)) == rec.material.spec_scatter(
                                ray,
                                rec,
                                rng,
                            );
                        let tail = choose|tail: Seq<ScatterRng>|
                            tail.len() == depth - 1 && (forall|i: int|
                                0 <= i < tail.len() ==> (#[trigger] tail[i]).wf()) && sub
                                == #[trigger] spec_general_sample(
                                world.root,
                                scattered,
                                (depth - 1) as u32,
                                tail,
                            );
                        let rngs = seq![rng] + tail;
                        assert(rngs.first() == rng);
                        assert(rngs.drop_first() =~= tail);
                        assert(forall|i: int| 0 <= i < rngs.len() ==> (#[trigger] rngs[i]).wf());
                        assert(r == spec_general_sample(world.root, ray, depth, rngs));
                    }
                    r
                },
                None => {
                    let r: Vec3 = emitted;
                    proof {
                        let rng = choose|rng: ScatterRng|
                            rng.wf() && None::<(Ray, Vec3)> == rec.material.spec_scatter(
                                ray,
                                rec,
                                rng,
                            );
                        let rngs = seq![rng] + idle.drop_first();
                        assert(rngs.first() == rng);
                        assert(forall|i: int| 0 <= i < rngs.len() ==> (#[trigger] rngs[i]).wf());
                        assert(r == spec_general_sample(world.root, ray, depth, rngs));
                    }
                    r
                },
            }},
            None => {
                let r: Vec3 = background(ray.direction());
                proof {
                    assert(forall|i: int| 0 <= i < idle.len() ==> (#[trigger] idle[i]).wf());
                    assert(r == spec_general_sample(world.root, ray, depth, idle));
                }
                r
            },
        }
    }
}

/// The closed set of color samplers, for static dispatch.
#[derive(Clone, Copy, PartialEq, Eq, Structural, Debug)]
pub enum ColorSampler {
    Normal(NormalSampler),
    General(GeneralSampler),
}

impl ColorSampler {
    /// A value the sampler can report for a ray: the normal visualizer
    /// pins it exactly, the recursive sampler up to its random draws.
    pub open spec fn spec_possible_sample(self, root: Node, ray: Ray, depth: u32, v: Vec3) -> bool {
        match self {
            ColorSampler::Normal(_) => v == NormalSampler::spec_sample(root, ray),
            ColorSampler::General(_) => exists|rngs: Seq<ScatterRng>|
                rngs.len() == depth && (forall|i: int|
                    0 <= i < rngs.len() ==> (#[trigger] rngs[i]).wf()) && v
                    == #[trigger] spec_general_sample(root, ray, depth, rngs),
        }
    }

    pub fn sample(&self, ray: Ray, world: &BVH, depth: u32) -> (r: Vec3)
        requires
            world.root.wf(),
        ensures
            self.spec_possible_sample(world.root, ray, depth, r),
    {
        match self {
            ColorSampler::Normal(s) => s.sample(ray, world, depth),
            ColorSampler::General(s) => s.sample(ray, world, depth),
        }
    }
}

} // verus!
