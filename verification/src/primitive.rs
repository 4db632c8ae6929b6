//! The closed set of geometric primitives, the flat list with its
//! brute-force nearest-hit scan, and the theory of minimum hits that the
//! scan and the tree query are both proved against.

use vstd::prelude::*;
use crate::aabb::AABB;
use crate::hittable::HitRecord;
use crate::quad::Quad;
use crate::ray::{Ray, TRange};
use crate::sphere::Sphere;
use crate::vec3::Vec3;

verus! {

#[derive(Clone, Copy, PartialEq, Eq, Structural, Debug)]
pub enum Primitive {
    Sphere(Sphere),
    Quad(Quad),
}

impl Primitive {
    pub open spec fn spec_bbox(self) -> AABB {
        match self {
            Primitive::Sphere(s) => s.bbox,
            Primitive::Quad(q) => q.bbox,
        }
    }

    pub open spec fn spec_hit_t(self, ray: Ray, t_range: TRange) -> Option<i64> {
        match self {
            Primitive::Sphere(s) => s.spec_hit_t(ray, t_range),
            Primitive::Quad(q) => q.spec_hit_t(ray, t_range),
        }
    }

    pub open spec fn spec_record_at(self, ray: Ray, t: i64) -> HitRecord {
        match self {
            Primitive::Sphere(s) => s.spec_record_at(ray, t),
            Primitive::Quad(q) => q.spec_record_at(ray, t),
        }
    }

    pub fn hit(&self, ray: Ray, t_range: TRange) -> (r: Option<HitRecord>)
        ensures
            match r {
                None => self.spec_hit_t(ray, t_range) is None,
                Some(rec) => self.spec_hit_t(ray, t_range) == Some(rec.t) && rec
                    == self.spec_record_at(ray, rec.t),
            },
    {
        match self {
            Primitive::Sphere(s) => s.hit(ray, t_range),
            Primitive::Quad(q) => q.hit(ray, t_range),
        }
    }

    pub fn bounding_box(&self) -> (r: AABB)
        ensures
            r == self.spec_bbox(),
    {
        match self {
            Primitive::Sphere(s) => s.bounding_box(),
            Primitive::Quad(q) => q.bounding_box(),
        }
    }
}

/// The pruning premise of the tree query: whenever the primitive reports
/// a hit for some range, the slab test of its own bounding box passes for
/// that range. Exact arithmetic can violate this only when a hit point
/// lands within a rounding error of the padded box surface.
pub open spec fn hit_covered(p: Primitive, ray: Ray) -> bool {
    forall|r: TRange| #[trigger] p.spec_hit_t(ray, r) is Some ==> p.spec_bbox().spec_intersect(
        ray,
        r,
    )
}

/// A reported hit parameter always lies in the probed range.
pub proof fn lemma_hit_t_in_range(p: Primitive, ray: Ray, t_range: TRange, t: i64)
    requires
        p.spec_hit_t(ray, t_range) == Some(t),
    ensures
        t_range.spec_contains(t),
{
    match p {
        Primitive::Sphere(s) => {},
        Primitive::Quad(q) => {},
    }
}

/// Narrowing the end of the range keeps exactly the hits below the new
/// end, and reports the same parameter for them.
pub proof fn lemma_primitive_hit_narrow(p: Primitive, ray: Ray, wide: TRange, narrow: TRange)
    requires
        narrow.start == wide.start,
        narrow.end <= wide.end,
    ensures
        p.spec_hit_t(ray, narrow) == match p.spec_hit_t(ray, wide) {
            Some(t) => if t < narrow.end {
                Some(t)
            } else {
                None::<i64>
            },
            None => None::<i64>,
        },
{
    match p {
        Primitive::Sphere(s) => crate::sphere::lemma_sphere_hit_narrow(s, ray, wide, narrow),
        Primitive::Quad(q) => crate::quad::lemma_quad_hit_narrow(q, ray, wide, narrow),
    }
}

/// The result of the left-to-right scan: each primitive is probed with
/// the range ending at the best parameter found so far, and a hit
/// replaces the running best.
pub open spec fn spec_scan_hit(objs: Seq<Primitive>, ray: Ray, t_range: TRange) -> Option<
    (Primitive, i64),
>
    decreases objs.len(),
{
    if objs.len() == 0 {
        None
    } else {
        let prev = spec_scan_hit(objs.drop_last(), ray, t_range);
        let cur_end = match prev {
            Some(pt) => pt.1,
            None => t_range.end,
        };
        match objs.last().spec_hit_t(ray, TRange { start: t_range.start, end: cur_end }) {
            Some(t) => Some((objs.last(), t)),
            None => prev,
        }
    }
}

/// The least hit parameter over all primitives, each probed with the
/// whole range.
pub open spec fn spec_min_hit(objs: Seq<Primitive>, ray: Ray, t_range: TRange) -> Option<i64>
    decreases objs.len(),
{
    if objs.len() == 0 {
        None
    } else {
        let prev = spec_min_hit(objs.drop_last(), ray, t_range);
        match objs.last().spec_hit_t(ray, t_range) {
            Some(t) => match prev {
                Some(pt) => if t < pt {
                    Some(t)
                } else {
                    Some(pt)
                },
                None => Some(t),
            },
            None => prev,
        }
    }
}

/// Some primitive of the sequence reports a hit at `t` for this range.
pub open spec fn spec_some_hit(objs: Seq<Primitive>, ray: Ray, t_range: TRange, t: i64) -> bool {
    exists|k: int| 0 <= k < objs.len() && #[trigger] objs[k].spec_hit_t(ray, t_range) == Some(t)
}

/// The minimum hit is a hit, and no hit is smaller; no minimum means no
/// hit at all.
pub proof fn lemma_min_hit_characterization(objs: Seq<Primitive>, ray: Ray, t_range: TRange)
    ensures
        match spec_min_hit(objs, ray, t_range) {
            Some(t) => spec_some_hit(objs, ray, t_range, t) && forall|t2: i64|
                #[trigger] spec_some_hit(objs, ray, t_range, t2) ==> t <= t2,
            None => forall|t2: i64| !#[trigger] spec_some_hit(objs, ray, t_range, t2),
        },
    decreases objs.len(),
{
    if objs.len() > 0 {
        let prefix = objs.drop_last();
        lemma_min_hit_characterization(prefix, ray, t_range);
        assert forall|t2: i64| #[trigger] spec_some_hit(objs, ray, t_range, t2) && !(
        objs.last().spec_hit_t(ray, t_range) == Some(t2)) implies spec_some_hit(
            prefix,
            ray,
            t_range,
            t2,
        ) by {
            let k = choose|k: int|
                0 <= k < objs.len() && #[trigger] objs[k].spec_hit_t(ray, t_range) == Some(t2);
            assert(k < objs.len() - 1);
            assert(prefix[k] == objs[k]);
        }
        assert forall|t2: i64| spec_some_hit(prefix, ray, t_range, t2) implies spec_some_hit(
            objs,
            ray,
            t_range,
            t2,
        ) by {
            let k = choose|k: int|
                0 <= k < prefix.len() && #[trigger] prefix[k].spec_hit_t(ray, t_range) == Some(t2);
            assert(objs[k] == prefix[k]);
            assert(objs[k].spec_hit_t(ray, t_range) == Some(t2));
        }
        match objs.last().spec_hit_t(ray, t_range) {
            Some(t) => {
                assert(objs[objs.len() - 1] == objs.last());
                assert(spec_some_hit(objs, ray, t_range, t));
            },
            None => {},
        }
    }
}

/// Sequences with the same elements have the same minimum hit.
#[verifier::rlimit(100)]
pub proof fn lemma_min_hit_permutation(a: Seq<Primitive>, b: Seq<Primitive>, ray: Ray, t_range: TRange)
    requires
        a.to_multiset() == b.to_multiset(),
    ensures
        spec_min_hit(a, ray, t_range) == spec_min_hit(b, ray, t_range),
{
    broadcast use vstd::seq_lib::group_to_multiset_ensures;

    lemma_min_hit_characterization(a, ray, t_range);
    lemma_min_hit_characterization(b, ray, t_range);
    assert forall|t2: i64| #[trigger] spec_some_hit(a, ray, t_range, t2) implies spec_some_hit(
        b,
        ray,
        t_range,
        t2,
    ) by {
        let k = choose|k: int|
            0 <= k < a.len() && #[trigger] a[k].spec_hit_t(ray, t_range) == Some(t2);
        assert(a.contains(a[k]));
        assert(a.to_multiset().count(a[k]) > 0);
        assert(b.to_multiset().count(a[k]) > 0);
        assert(b.contains(a[k]));
        let j = choose|j: int| 0 <= j < b.len() && b[j] == a[k];
        assert(b[j].spec_hit_t(ray, t_range) == Some(t2));
    }
    assert forall|t2: i64| #[trigger] spec_some_hit(b, ray, t_range, t2) implies spec_some_hit(
        a,
        ray,
        t_range,
        t2,
    ) by {
        let k = choose|k: int|
            0 <= k < b.len() && #[trigger] b[k].spec_hit_t(ray, t_range) == Some(t2);
        assert(b.contains(b[k]));
        assert(b.to_multiset().count(b[k]) > 0);
        assert(a.to_multiset().count(b[k]) > 0);
        assert(a.contains(b[k]));
        let j = choose|j: int| 0 <= j < a.len() && a[j] == b[k];
        assert(a[j].spec_hit_t(ray, t_range) == Some(t2));
    }
    match spec_min_hit(a, ray, t_range) {
        Some(ta) => {
            match spec_min_hit(b, ray, t_range) {
                Some(tb) => {
                    assert(spec_some_hit(b, ray, t_range, ta));
                    assert(spec_some_hit(a, ray, t_range, tb));
                },
                None => {
                    assert(spec_some_hit(b, ray, t_range, ta));
                },
            }
        },
        None => {
            match spec_min_hit(b, ray, t_range) {
                Some(tb) => {
                    assert(spec_some_hit(a, ray, t_range, tb));
                },
                None => {},
            }
        },
    }
}

/// The minimum hit of a concatenation is the smaller of the two minima.
pub proof fn lemma_min_hit_append(a: Seq<Primitive>, b: Seq<Primitive>, ray: Ray, t_range: TRange)
    ensures
        spec_min_hit(a + b, ray, t_range) == match (spec_min_hit(a, ray, t_range), spec_min_hit(
            b,
            ray,
            t_range,
        )) {
            (Some(ta), Some(tb)) => if tb < ta {
                Some(tb)
            } else {
                Some(ta)
            },
            (Some(ta), None) => Some(ta),
            (None, Some(tb)) => Some(tb),
            (None, None) => None::<i64>,
        },
    decreases b.len(),
{
    if b.len() == 0 {
        assert(a + b =~= a);
    } else {
        lemma_min_hit_append(a, b.drop_last(), ray, t_range);
        assert((a + b).drop_last() =~= a + b.drop_last());
        assert((a + b).last() == b.last());
    }
}

/// Narrowing the end of the range keeps exactly the minimum hits below
/// the new end.
pub proof fn lemma_min_hit_narrow(objs: Seq<Primitive>, ray: Ray, wide: TRange, narrow: TRange)
    requires
        narrow.start == wide.start,
        narrow.end <= wide.end,
    ensures
        spec_min_hit(objs, ray, narrow) == match spec_min_hit(objs, ray, wide) {
            Some(t) => if t < narrow.end {
                Some(t)
            } else {
                None::<i64>
            },
            None => None::<i64>,
        },
    decreases objs.len(),
{
    if objs.len() > 0 {
        lemma_min_hit_narrow(objs.drop_last(), ray, wide, narrow);
        lemma_primitive_hit_narrow(objs.last(), ray, wide, narrow);
    }
}

/// The scan finds the minimum hit: the reported parameter is the least
/// one, reported by a scene primitive whose own full-range test reports
/// exactly it, and the scan fails exactly when nothing hits.
pub proof fn lemma_scan_is_min(objs: Seq<Primitive>, ray: Ray, t_range: TRange)
    ensures
        match spec_scan_hit(objs, ray, t_range) {
            Some(pt) => spec_min_hit(objs, ray, t_range) == Some(pt.1) && t_range.spec_contains(
                pt.1,
            ) && objs.contains(pt.0) && pt.0.spec_hit_t(ray, t_range) == Some(pt.1),
            None => spec_min_hit(objs, ray, t_range) is None,
        },
    decreases objs.len(),
{
    if objs.len() > 0 {
        let prefix = objs.drop_last();
        lemma_scan_is_min(prefix, ray, t_range);
        let prev = spec_scan_hit(prefix, ray, t_range);
        let cur_end = match prev {
            Some(pt) => pt.1,
            None => t_range.end,
        };
        let cur = TRange { start: t_range.start, end: cur_end };
        lemma_primitive_hit_narrow(objs.last(), ray, t_range, cur);
        match objs.last().spec_hit_t(ray, cur) {
            Some(t) => {
                lemma_hit_t_in_range(objs.last(), ray, cur, t);
                assert(objs[objs.len() - 1] == objs.last());
                assert(objs.contains(objs.last()));
            },
            None => {
                match prev {
                    Some(pt) => {
                        let k = choose|k: int| 0 <= k < prefix.len() && prefix[k] == pt.0;
                        assert(objs[k] == pt.0);
                        assert(objs.contains(pt.0));
                    },
                    None => {},
                }
            },
        }
    }
}

/// A list of primitives and the running merge of their boxes.
pub struct HittableList {
    pub objects: Vec<Primitive>,
    pub bbox: Option<AABB>,
}

impl HittableList {
    pub fn new() -> (r: HittableList)
        ensures
            r.objects@.len() == 0,
            r.bbox is None,
    {
        HittableList { objects: Vec::new(), bbox: None }
    }

    /// Append a primitive; the running box becomes the merge of the old
    /// one with the primitive's box.
    pub fn push(&mut self, object: Primitive)
        ensures
            final(self).objects@ == old(self).objects@.push(object),
            final(self).bbox == Some(
                match old(self).bbox {
                    Some(b) => AABB::spec_merge(b, object.spec_bbox()),
                    None => object.spec_bbox(),
                },
            ),
    {
        let obox: AABB = object.bounding_box();
        let merged: AABB = match self.bbox {
            Some(b) => AABB::merge(b, obox),
            None => obox,
        };
        self.bbox = Some(merged);
        self.objects.push(object);
    }

    /// Brute-force nearest hit: probe every primitive in order, always
    /// with the range ending at the best parameter found so far.
    pub fn hit(&self, ray: Ray, t_range: TRange) -> (r: Option<HitRecord>)
        ensures
            match r {
                None => spec_scan_hit(self.objects@, ray, t_range) is None,
                Some(rec) => match spec_scan_hit(self.objects@, ray, t_range) {
                    Some(pt) => rec.t == pt.1 && rec == pt.0.spec_record_at(ray, pt.1),
                    None => false,
                },
            },
    {
        let objs: &Vec<Primitive> = &self.objects;
        let ghost all: Seq<Primitive> = objs@;
        let mut hit_record: Option<HitRecord> = None;
        let mut end: i64 = t_range.end;
        let mut i: usize = 0;
        while i < objs.len()
            invariant
                i <= all.len(),
                objs@ == all,
                match spec_scan_hit(all.take(i as int), ray, t_range) {
                    None => hit_record is None && end == t_range.end,
                    Some(pt) => match hit_record {
                        Some(rec) => rec.t == pt.1 && end == pt.1 && rec == pt.0.spec_record_at(
                            ray,
                            pt.1,
                        ),
                        None => false,
                    },
                },
            decreases all.len() - i,
        {
            let cur: TRange = TRange { start: t_range.start, end };
            let this_hit: Option<HitRecord> = objs[i].hit(ray, cur);
            proof {
                assert(all.take(i as int + 1).drop_last() =~= all.take(i as int));
                assert(all.take(i as int + 1).last() == all[i as int]);
            }
            match this_hit {
                Some(rec) => {
                    end = rec.t;
                    hit_record = Some(rec);
                },
                None => {},
            }
            i = i + 1;
        }
        proof {
            assert(all.take(all.len() as int) =~= all);
        }
        hit_record
    }

    /// The merged box of everything pushed so far; an empty list has the
    /// degenerate box at the origin.
    pub fn bounding_box(&self) -> (r: AABB)
        ensures
            r == match self.bbox {
                Some(b) => b,
                None => AABB { min: Vec3::spec_zero(), max: Vec3::spec_zero() },
            },
    {
        match self.bbox {
            Some(b) => b,
            None => AABB { min: Vec3::zero(), max: Vec3::zero() },
        }
    }
}

} // verus!
