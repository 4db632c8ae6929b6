//! Randomness for jittered sampling and scattering, drawn through a single
//! trusted wrapper around the `rand` crate and shaped into the fixed-point
//! vectors the materials and the camera need.

use vstd::prelude::*;
use rand::Rng;
use crate::fixed::FP_ONE;
use crate::vec3::Vec3;

verus! {

/// How many rejection draws the point-in-sphere and point-in-disk samplers
/// make before they settle for the origin.
pub const REJECTION_TRIES: u32 = 64;

/// Relies on `rand::Rng::gen_range` via the thread-local generator: the
/// result of `gen_range(lo..hi)` lies in the half-open range `[lo, hi)`.
#[verifier::external_body]
fn rand_in_range(lo: i64, hi: i64) -> (r: i64)
    requires
        lo < hi,
    ensures
        lo <= r < hi,
{
    rand::thread_rng().gen_range(lo..hi)
}

/// A uniform fixed-point draw from `[0, 1)`.
pub fn random_float() -> (r: i64)
    ensures
        0 <= r < FP_ONE,
{
    rand_in_range(0, FP_ONE)
}

/// A uniform fixed-point draw from `[lo, hi)`.
pub fn random_float_range(lo: i64, hi: i64) -> (r: i64)
    requires
        lo < hi,
    ensures
        lo <= r < hi,
{
    rand_in_range(lo, hi)
}

impl Vec3 {
    /// A vector whose components are independent draws from `[lo, hi)`.
    pub fn new_random_range(lo: i64, hi: i64) -> (r: Vec3)
        requires
            lo < hi,
        ensures
            lo <= r.x < hi,
            lo <= r.y < hi,
            lo <= r.z < hi,
    {
        Vec3 {
            x: random_float_range(lo, hi),
            y: random_float_range(lo, hi),
            z: random_float_range(lo, hi),
        }
    }

    /// A point strictly inside the unit sphere, by bounded rejection
    /// sampling; after `REJECTION_TRIES` misses it settles for the origin.
    pub fn new_random_in_unit_sphere() -> (r: Vec3)
        ensures
            r.spec_squared_length() < FP_ONE,
    {
        let mut tries: u32 = 0;
        while tries < REJECTION_TRIES
            invariant
                true,
            decreases REJECTION_TRIES - tries,
        {
            let p: Vec3 = Vec3::new_random_range(-FP_ONE, FP_ONE);
            if p.squared_length() < FP_ONE {
                return p;
            }
            tries = tries + 1;
        }
        proof {
            crate::vec3::lemma_square_nonneg(0i64);
        }
        Vec3::zero()
    }

    /// The normalization of a point drawn from the unit sphere.
    pub fn new_random_unit_vector() -> (r: Vec3)
        ensures
            exists|v: Vec3| v.spec_squared_length() < FP_ONE && r == v.spec_normalized(),
    {
        let v: Vec3 = Vec3::new_random_in_unit_sphere();
        let r: Vec3 = v.normalized();
        proof {
            assert(v.spec_squared_length() < FP_ONE && r == v.spec_normalized());
        }
        r
    }

    /// A random unit vector, flipped onto the side of the given normal.
    pub fn new_random_on_hemisphere(normal: Vec3) -> (r: Vec3)
        ensures
            exists|v: Vec3|
                v.spec_squared_length() < FP_ONE && (r == v.spec_normalized() || r
                    == v.spec_normalized().spec_neg_v()),
    {
        let on_unit_sphere: Vec3 = Vec3::new_random_in_unit_sphere();
        let u: Vec3 = on_unit_sphere.normalized();
        let r: Vec3 = if u.dot(normal) > 0 {
            u
        } else {
            u.neg()
        };
        proof {
            assert(on_unit_sphere.spec_squared_length() < FP_ONE && (r
                == on_unit_sphere.spec_normalized() || r
                == on_unit_sphere.spec_normalized().spec_neg_v()));
        }
        r
    }

    /// A point strictly inside the unit disk of the xy-plane, by bounded
    /// rejection sampling with the same fallback as the sphere sampler.
    pub fn new_random_in_unit_disk() -> (r: Vec3)
        ensures
            r.spec_squared_length() < FP_ONE,
            r.z == 0,
    {
        let mut tries: u32 = 0;
        while tries < REJECTION_TRIES
            invariant
                true,
            decreases REJECTION_TRIES - tries,
        {
            let p: Vec3 = Vec3 {
                x: random_float_range(-FP_ONE, FP_ONE),
                y: random_float_range(-FP_ONE, FP_ONE),
                z: 0,
            };
            if p.squared_length() < FP_ONE {
                return p;
            }
            tries = tries + 1;
        }
        proof {
            crate::vec3::lemma_square_nonneg(0i64);
        }
        Vec3::zero()
    }

    /// A vector whose components are independent draws from `[0, 1)`.
    pub fn new_random() -> (r: Vec3)
        ensures
            0 <= r.x < FP_ONE,
            0 <= r.y < FP_ONE,
            0 <= r.z < FP_ONE,
    {
        Vec3::new_random_range(0, FP_ONE)
    }
}

} // verus!
