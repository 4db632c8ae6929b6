//! Planar quadrilaterals: a plane intersection followed by a membership
//! test in the basis spanned by the two edge vectors.

use vstd::prelude::*;
use crate::aabb::AABB;
use crate::fixed::{fp_div, fp_sub, spec_div, spec_sub, FP_ONE};
use crate::hittable::HitRecord;
use crate::material::Material;
use crate::ray::{Ray, TRange};
use crate::vec3::Vec3;

verus! {

#[derive(Clone, Copy, PartialEq, Eq, Structural, Debug)]
pub struct Quad {
    /// One corner of the quad.
    pub corner: Vec3,
    /// First edge vector out of the corner.
    pub u: Vec3,
    /// Second edge vector out of the corner.
    pub v: Vec3,
    /// The (unnormalized) plane normal `u x v`.
    pub n: Vec3,
    /// `n / (n . n)`, the dual used for the planar coordinates.
    pub w: Vec3,
    /// The plane offset `n . corner`.
    pub d: i64,
    pub bbox: AABB,
    pub material: Material,
}

impl Quad {
    /// The box of a quad covers both diagonals of its four corners.
    pub open spec fn spec_bbox_of(corner: Vec3, u: Vec3, v: Vec3) -> AABB {
        AABB::spec_merge(
            AABB::spec_new(corner, corner.spec_add_v(u).spec_add_v(v)),
            AABB::spec_new(corner.spec_add_v(u), corner.spec_add_v(v)),
        )
    }

    pub fn new(corner: Vec3, u: Vec3, v: Vec3, material: Material) -> (r: Quad)
        ensures
            r.corner == corner,
            r.u == u,
            r.v == v,
            r.n == u.spec_cross(v),
            r.w == u.spec_cross(v).spec_div_scalar(u.spec_cross(v).spec_dot(u.spec_cross(v))),
            r.d == u.spec_cross(v).spec_dot(corner),
            r.bbox == Quad::spec_bbox_of(corner, u, v),
            r.bbox.wf(),
            r.material == material,
    {
        proof {
            let b1 = AABB::spec_new(corner, corner.spec_add_v(u).spec_add_v(v));
            let b2 = AABB::spec_new(corner.spec_add_v(u), corner.spec_add_v(v));
            crate::aabb::lemma_new_wf(corner, corner.spec_add_v(u).spec_add_v(v));
            crate::aabb::lemma_new_wf(corner.spec_add_v(u), corner.spec_add_v(v));
            crate::aabb::lemma_merge_contains(b1, b2);
        }
        let bbox: AABB = AABB::merge(
            AABB::new(corner, corner.add(u).add(v)),
            AABB::new(corner.add(u), corner.add(v)),
        );
        let n: Vec3 = u.cross(v);
        let w: Vec3 = n.div(n.dot(n));
        let d: i64 = n.dot(corner);
        Quad { corner, u, v, n, w, d, bbox, material }
    }

    /// The parameter at which the ray meets the quad's plane.
    pub open spec fn spec_plane_t(self, ray: Ray) -> i64 {
        spec_div(
            spec_sub(self.d, ray.spec_origin().spec_dot(self.n)),
            ray.spec_direction().spec_dot(self.n),
        )
    }

    /// Planar coordinates of a point relative to the corner, in the basis
    /// of the two edges.
    pub open spec fn spec_planar_x(self, p: Vec3) -> i64 {
        p.spec_cross(self.v).spec_dot(self.w)
    }

    pub open spec fn spec_planar_y(self, p: Vec3) -> i64 {
        self.u.spec_cross(p).spec_dot(self.w)
    }

    /// The hit parameter reported for a ray and a range: the plane
    /// parameter, if the range contains it and the planar coordinates of
    /// the hit point fall inside `[0, 1) x [0, 1)`.
    pub open spec fn spec_hit_t(self, ray: Ray, t_range: TRange) -> Option<i64> {
        let t = self.spec_plane_t(ray);
        if t_range.spec_contains(t) {
            let p = ray.spec_at(t).spec_sub_v(self.corner);
            if 0 <= self.spec_planar_x(p) < FP_ONE && 0 <= self.spec_planar_y(p) < FP_ONE {
                Some(t)
            } else {
                None
            }
        } else {
            None
        }
    }

    /// The full record for a hit at parameter `t`: the outward normal is
    /// the plane normal.
    pub open spec fn spec_record_at(self, ray: Ray, t: i64) -> HitRecord {
        HitRecord::spec_new(ray, t, self.n, self.material)
    }

    pub fn hit(&self, ray: Ray, t_range: TRange) -> (r: Option<HitRecord>)
        ensures
            match r {
                None => self.spec_hit_t(ray, t_range) is None,
                Some(rec) => self.spec_hit_t(ray, t_range) == Some(rec.t) && rec
                    == self.spec_record_at(ray, rec.t),
            },
    {
        let dir_norm: i64 = ray.direction().dot(self.n);
        let t: i64 = fp_div(fp_sub(self.d, ray.origin().dot(self.n)), dir_norm);
        if t_range.contains(t) {
            let p: Vec3 = ray.at(t).sub(self.corner);
            let planar_x: i64 = p.cross(self.v).dot(self.w);
            let planar_y: i64 = self.u.cross(p).dot(self.w);
            if 0 <= planar_x && planar_x < FP_ONE && 0 <= planar_y && planar_y < FP_ONE {
                Some(HitRecord::new(ray, t, self.n, self.material))
            } else {
                None
            }
        } else {
            None
        }
    }

    pub fn bounding_box(&self) -> (r: AABB)
        ensures
            r == self.bbox,
    {
        self.bbox
    }
}

/// Narrowing the end of the range keeps exactly the hits below the new
/// end, and reports the same parameter for them.
pub proof fn lemma_quad_hit_narrow(q: Quad, ray: Ray, wide: TRange, narrow: TRange)
    requires
        narrow.start == wide.start,
        narrow.end <= wide.end,
    ensures
        q.spec_hit_t(ray, narrow) == match q.spec_hit_t(ray, wide) {
            Some(t) => if t < narrow.end {
                Some(t)
            } else {
                None::<i64>
            },
            None => None::<i64>,
        },
{
}

} // verus!
