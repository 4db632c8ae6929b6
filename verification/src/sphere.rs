//! Spheres: the quadratic ray intersection test and its bounding box.

use vstd::prelude::*;
use crate::aabb::AABB;
use crate::fixed::{fp_add, fp_div, fp_mul, fp_neg, fp_sqrt, fp_sub, lemma_div_mono_num,
    lemma_spec_sqrt_bounds, spec_add, spec_div, spec_mul, spec_neg, spec_sqrt, spec_sub};
use crate::hittable::HitRecord;
use crate::material::Material;
use crate::ray::{Ray, TRange};
use crate::vec3::Vec3;

verus! {

#[derive(Clone, Copy, PartialEq, Eq, Structural, Debug)]
pub struct Sphere {
    pub center: Vec3,
    pub radius: i64,
    pub bbox: AABB,
    pub material: Material,
}

impl Sphere {
    /// The box of a sphere spans `center - radius` to `center + radius`
    /// in every axis (plus the box padding).
    pub open spec fn spec_bbox_of(center: Vec3, radius: i64) -> AABB {
        AABB::spec_new(
            center.spec_sub_v(Vec3::spec_diagonal(radius)),
            center.spec_add_v(Vec3::spec_diagonal(radius)),
        )
    }

    pub fn new(center: Vec3, radius: i64, material: Material) -> (r: Sphere)
        ensures
            r.center == center,
            r.radius == radius,
            r.material == material,
            r.bbox == Sphere::spec_bbox_of(center, radius),
            r.bbox.wf(),
    {
        proof {
            crate::aabb::lemma_new_wf(
                center.spec_sub_v(Vec3::spec_diagonal(radius)),
                center.spec_add_v(Vec3::spec_diagonal(radius)),
            );
        }
        let radius_vec: Vec3 = Vec3::new_diagonal(radius);
        let bbox: AABB = AABB::new(center.sub(radius_vec), center.add(radius_vec));
        Sphere { center, radius, bbox, material }
    }

    /// The discriminant of the intersection quadratic.
    pub open spec fn spec_discriminant(self, ray: Ray) -> i64 {
        let oc = ray.spec_origin().spec_sub_v(self.center);
        let a = ray.spec_direction().spec_squared_length();
        let half_b = oc.spec_dot(ray.spec_direction());
        let c = spec_sub(oc.spec_squared_length(), spec_mul(self.radius, self.radius));
        spec_sub(spec_mul(half_b, half_b), spec_mul(a, c))
    }

    /// The nearer intersection parameter `(-half_b - sqrt(disc)) / a`.
    pub open spec fn spec_t_near(self, ray: Ray) -> i64 {
        let oc = ray.spec_origin().spec_sub_v(self.center);
        let a = ray.spec_direction().spec_squared_length();
        let half_b = oc.spec_dot(ray.spec_direction());
        spec_div(spec_sub(spec_neg(half_b), spec_sqrt(self.spec_discriminant(ray))), a)
    }

    /// The farther intersection parameter `(-half_b + sqrt(disc)) / a`.
    pub open spec fn spec_t_far(self, ray: Ray) -> i64 {
        let oc = ray.spec_origin().spec_sub_v(self.center);
        let a = ray.spec_direction().spec_squared_length();
        let half_b = oc.spec_dot(ray.spec_direction());
        spec_div(spec_add(spec_neg(half_b), spec_sqrt(self.spec_discriminant(ray))), a)
    }

    /// The hit parameter reported for a ray and a range: no hit when the
    /// discriminant is negative; otherwise the nearer root if the range
    /// contains it, else the farther root if the range contains that.
    pub open spec fn spec_hit_t(self, ray: Ray, t_range: TRange) -> Option<i64> {
        if self.spec_discriminant(ray) < 0 {
            None
        } else if t_range.spec_contains(self.spec_t_near(ray)) {
            Some(self.spec_t_near(ray))
        } else if t_range.spec_contains(self.spec_t_far(ray)) {
            Some(self.spec_t_far(ray))
        } else {
            None
        }
    }

    /// The full record for a hit at parameter `t`: the outward normal
    /// points from the center to the hit point.
    pub open spec fn spec_record_at(self, ray: Ray, t: i64) -> HitRecord {
        HitRecord::spec_new(ray, t, ray.spec_at(t).spec_sub_v(self.center), self.material)
    }

    pub fn hit(&self, ray: Ray, t_range: TRange) -> (r: Option<HitRecord>)
        ensures
            match r {
                None => self.spec_hit_t(ray, t_range) is None,
                Some(rec) => self.spec_hit_t(ray, t_range) == Some(rec.t) && rec
                    == self.spec_record_at(ray, rec.t),
            },
    {
        let oc: Vec3 = ray.origin().sub(self.center);
        let a: i64 = ray.direction().squared_length();
        let half_b: i64 = oc.dot(ray.direction());
        let c: i64 = fp_sub(oc.squared_length(), fp_mul(self.radius, self.radius));
        let discriminant: i64 = fp_sub(fp_mul(half_b, half_b), fp_mul(a, c));
        if discriminant < 0 {
            return None;
        }
        let sqrtd: i64 = fp_sqrt(discriminant);
        let mut t: i64 = fp_div(fp_sub(fp_neg(half_b), sqrtd), a);
        if !t_range.contains(t) {
            t = fp_div(fp_add(fp_neg(half_b), sqrtd), a);
            if !t_range.contains(t) {
                return None;
            }
        }
        let p: Vec3 = ray.at(t);
        Some(HitRecord::new(ray, t, p.sub(self.center), self.material))
    }

    pub fn bounding_box(&self) -> (r: AABB)
        ensures
            r == self.bbox,
    {
        self.bbox
    }
}

/// The nearer root never lies beyond the farther root.
pub proof fn lemma_sphere_roots_ordered(s: Sphere, ray: Ray)
    requires
        s.spec_discriminant(ray) >= 0,
    ensures
        s.spec_t_near(ray) <= s.spec_t_far(ray),
{
    let oc = ray.spec_origin().spec_sub_v(s.center);
    let a = ray.spec_direction().spec_squared_length();
    let half_b = oc.spec_dot(ray.spec_direction());
    let sq = spec_sqrt(s.spec_discriminant(ray));
    lemma_spec_sqrt_bounds(s.spec_discriminant(ray));
    crate::vec3::lemma_squared_length_nonneg(ray.spec_direction());
    lemma_div_mono_num(spec_sub(spec_neg(half_b), sq), spec_add(spec_neg(half_b), sq), a);
}

/// Narrowing the end of the range keeps exactly the hits below the new
/// end, and reports the same parameter for them.
pub proof fn lemma_sphere_hit_narrow(s: Sphere, ray: Ray, wide: TRange, narrow: TRange)
    requires
        narrow.start == wide.start,
        narrow.end <= wide.end,
    ensures
        s.spec_hit_t(ray, narrow) == match s.spec_hit_t(ray, wide) {
            Some(t) => if t < narrow.end {
                Some(t)
            } else {
                None::<i64>
            },
            None => None::<i64>,
        },
{
    if s.spec_discriminant(ray) >= 0 {
        lemma_sphere_roots_ordered(s, ray);
    }
}

} // verus!
