//! The record produced by a successful ray/primitive intersection.

use vstd::prelude::*;
use crate::material::Material;
use crate::ray::Ray;
use crate::vec3::Vec3;

verus! {

#[derive(Clone, Copy, PartialEq, Eq, Structural, Debug)]
pub struct HitRecord {
    /// Ray parameter of the hit.
    pub t: i64,
    /// World-space hit point.
    pub point: Vec3,
    /// Unit normal, flipped so that it always opposes the incoming ray.
    pub normal: Vec3,
    /// Whether the outward normal already opposed the ray (no flip).
    pub front_face: bool,
    /// Material of the primitive that was hit.
    pub material: Material,
}

impl HitRecord {
    /// The record for a hit of `ray` at parameter `t` with the given
    /// outward normal: the stored normal is the normalized outward normal,
    /// negated when the ray strikes the back face.
    pub open spec fn spec_new(ray: Ray, t: i64, outward_normal: Vec3, material: Material) -> HitRecord {
        let front_face = ray.spec_direction().spec_dot(outward_normal) < 0;
        HitRecord {
            t,
            point: ray.spec_at(t),
            normal: if front_face {
                outward_normal.spec_normalized()
            } else {
                outward_normal.spec_normalized().spec_neg_v()
            },
            front_face,
            material,
        }
    }

    #[verifier::when_used_as_spec(spec_new)]
    pub fn new(ray: Ray, t: i64, outward_normal: Vec3, material: Material) -> (r: HitRecord)
        ensures
            r == HitRecord::spec_new(ray, t, outward_normal, material),
    {
        let front_face: bool = ray.direction().dot(outward_normal) < 0;
        let n: Vec3 = outward_normal.normalized();
        HitRecord {
            t,
            point: ray.at(t),
            normal: if front_face {
                n
            } else {
                n.neg()
            },
            front_face,
            material,
        }
    }
}

} // verus!
