//! The bounding-volume hierarchy: a binary tree of boxes built once by
//! median split, queried for the nearest hit with box pruning and range
//! narrowing. The query is proved to agree with the brute-force scan.

use vstd::prelude::*;
use crate::aabb::{lemma_contains_antisym, lemma_contains_merge, lemma_contains_trans,
    lemma_intersect_widen, lemma_merge_assoc, lemma_merge_contains, AABB};
use crate::hittable::HitRecord;
use crate::primitive::{hit_covered, lemma_min_hit_append, lemma_min_hit_characterization,
    lemma_min_hit_narrow, lemma_min_hit_permutation, lemma_scan_is_min, spec_min_hit,
    spec_scan_hit, spec_some_hit, HittableList, Primitive};
use crate::ray::{Ray, TRange};

verus! {

pub struct Node {
    pub left: Option<Box<Node>>,
    pub right: Option<Box<Node>>,
    pub prim: Option<Primitive>,
    pub bbox: AABB,
}

impl Node {
    /// A leaf holds one primitive and its exact box; an internal node has
    /// two children whose boxes its own box contains.
    pub open spec fn wf(self) -> bool
        decreases self,
    {
        match self.prim {
            Some(p) => {
                &&& self.left is None
                &&& self.right is None
                &&& self.bbox == p.spec_bbox()
                &&& self.bbox.wf()
            },
            None => match (self.left, self.right) {
                (Some(l), Some(r)) => {
                    &&& l.wf()
                    &&& r.wf()
                    &&& self.bbox.wf()
                    &&& self.bbox.spec_contains_box(l.bbox)
                    &&& self.bbox.spec_contains_box(r.bbox)
                },
                _ => false,
            },
        }
    }

    /// The primitives stored under this node, left subtree first.
    pub open spec fn prims(self) -> Seq<Primitive>
        decreases self,
    {
        match self.prim {
            Some(p) => seq![p],
            None => match (self.left, self.right) {
                (Some(l), Some(r)) => l.prims() + r.prims(),
                _ => Seq::empty(),
            },
        }
    }

    /// The query algorithm: prune by the node's box; at a leaf delegate
    /// to the primitive; at an internal node query the left child first
    /// and re-query the right child with the range ending at the left
    /// hit, so the nearer of the two wins.
    pub open spec fn spec_hit(self, ray: Ray, t_range: TRange) -> Option<(Primitive, i64)>
        decreases self,
    {
        if !self.bbox.spec_intersect(ray, t_range) {
            None
        } else {
            match self.prim {
                Some(p) => match p.spec_hit_t(ray, t_range) {
                    Some(t) => Some((p, t)),
                    None => None,
                },
                None => match (self.left, self.right) {
                    (Some(l), Some(r)) => match l.spec_hit(ray, t_range) {
                        Some(pl) => match r.spec_hit(
                            ray,
                            TRange { start: t_range.start, end: pl.1 },
                        ) {
                            Some(pr) => Some(pr),
                            None => Some(pl),
                        },
                        None => r.spec_hit(ray, t_range),
                    },
                    _ => None,
                },
            }
        }
    }

    /// The query result as a full record.
    pub open spec fn spec_query(self, ray: Ray, t_range: TRange) -> Option<HitRecord> {
        match self.spec_hit(ray, t_range) {
            Some(pt) => Some(pt.0.spec_record_at(ray, pt.1)),
            None => None,
        }
    }

    pub fn hit(&self, ray: Ray, t_range: TRange) -> (r: Option<HitRecord>)
        requires
            self.wf(),
        ensures
            r == self.spec_query(ray, t_range),
        decreases *self,
    {
        if !self.bbox.intersect(ray, t_range) {
            return None;
        }
        match &self.prim {
            Some(p) => p.hit(ray, t_range),
            None => match (&self.left, &self.right) {
                (Some(l), Some(r)) => match l.hit(ray, t_range) {
                    Some(lrec) => match r.hit(ray, TRange { start: t_range.start, end: lrec.t }) {
                        Some(rrec) => Some(rrec),
                        None => Some(lrec),
                    },
                    None => r.hit(ray, t_range),
                },
                _ => None,
            },
        }
    }

    pub fn bounding_box(&self) -> (r: AABB)
        ensures
            r == self.bbox,
    {
        self.bbox
    }
}

/// Every primitive under a well-formed node has a well-formed box that
/// the node's own box contains.
pub proof fn lemma_node_covers_prim_boxes(n: Node)
    requires
        n.wf(),
    ensures
        forall|k: int| 0 <= k < n.prims().len() ==> (#[trigger] n.prims()[k]).spec_bbox().wf()
            && n.bbox.spec_contains_box(n.prims()[k].spec_bbox()),
    decreases n,
{
    match n.prim {
        Some(p) => {
            assert(n.prims() =~= seq![p]);
        },
        None => {
            let l = n.left->0;
            let r = n.right->0;
            lemma_node_covers_prim_boxes(*l);
            lemma_node_covers_prim_boxes(*r);
            assert forall|k: int| 0 <= k < n.prims().len() implies (
            #[trigger] n.prims()[k]).spec_bbox().wf() && n.bbox.spec_contains_box(
                n.prims()[k].spec_bbox(),
            ) by {
                if k < l.prims().len() {
                    assert(n.prims()[k] == l.prims()[k]);
                    lemma_contains_trans(n.bbox, l.bbox, l.prims()[k].spec_bbox());
                } else {
                    assert(n.prims()[k] == r.prims()[k - l.prims().len()]);
                    lemma_contains_trans(
                        n.bbox,
                        r.bbox,
                        r.prims()[k - l.prims().len()].spec_bbox(),
                    );
                }
            }
        },
    }
}

/// The heart of BVH correctness: under the coverage premise, the pruned,
/// narrowed tree query reports exactly the least hit parameter of the
/// primitives stored under the node, and misses exactly when they all
/// miss.
pub proof fn lemma_node_hit_is_min(n: Node, ray: Ray, t_range: TRange)
    requires
        n.wf(),
        forall|k: int| 0 <= k < n.prims().len() ==> hit_covered(#[trigger] n.prims()[k], ray),
    ensures
        match n.spec_hit(ray, t_range) {
            Some(pt) => spec_min_hit(n.prims(), ray, t_range) == Some(pt.1)
                && t_range.spec_contains(pt.1),
            None => spec_min_hit(n.prims(), ray, t_range) is None,
        },
    decreases n,
{
    lemma_min_hit_characterization(n.prims(), ray, t_range);
    if !n.bbox.spec_intersect(ray, t_range) {
        // No primitive below can hit: a hit would force the node's box to
        // pass the slab test through coverage and containment.
        match spec_min_hit(n.prims(), ray, t_range) {
            Some(t) => {
                assert(spec_some_hit(n.prims(), ray, t_range, t));
                let k = choose|k: int|
                    0 <= k < n.prims().len() && #[trigger] n.prims()[k].spec_hit_t(ray, t_range)
                        == Some(t);
                lemma_node_covers_prim_boxes(n);
                assert(n.prims()[k].spec_bbox().spec_intersect(ray, t_range));
                lemma_intersect_widen(n.prims()[k].spec_bbox(), n.bbox, ray, t_range);
                assert(false);
            },
            None => {},
        }
    } else {
        match n.prim {
            Some(p) => {
                assert(n.prims() =~= seq![p]);
                assert(n.prims().drop_last() =~= Seq::<Primitive>::empty());
                match p.spec_hit_t(ray, t_range) {
                    Some(t) => {
                        crate::primitive::lemma_hit_t_in_range(p, ray, t_range, t);
                    },
                    None => {},
                }
            },
            None => {
                let l = n.left->0;
                let r = n.right->0;
                assert(n.prims() =~= l.prims() + r.prims());
                assert forall|k: int| 0 <= k < l.prims().len() implies hit_covered(
                    #[trigger] l.prims()[k],
                    ray,
                ) by {
                    assert(l.prims()[k] == n.prims()[k]);
                }
                assert forall|k: int| 0 <= k < r.prims().len() implies hit_covered(
                    #[trigger] r.prims()[k],
                    ray,
                ) by {
                    assert(r.prims()[k] == n.prims()[k + l.prims().len()]);
                }
                lemma_node_hit_is_min(*l, ray, t_range);
                lemma_min_hit_append(l.prims(), r.prims(), ray, t_range);
                match l.spec_hit(ray, t_range) {
                    Some(pl) => {
                        let narrow = TRange { start: t_range.start, end: pl.1 };
                        lemma_node_hit_is_min(*r, ray, narrow);
                        lemma_min_hit_narrow(r.prims(), ray, t_range, narrow);
                    },
                    None => {
                        lemma_node_hit_is_min(*r, ray, t_range);
                    },
                }
            },
        }
    }
}

/// An immutable tree over a set of primitives.
pub struct BVH {
    pub root: Node,
}

/// The box minimum of a primitive on the split axis, the key the build
/// sorts by.
pub open spec fn spec_axis_key(p: Primitive, axis: int) -> i64 {
    p.spec_bbox().spec_min().spec_axis(axis)
}

fn axis_key(p: &Primitive, axis: usize) -> (r: i64)
    requires
        axis < 3,
    ensures
        r == spec_axis_key(*p, axis as int),
{
    let b: AABB = p.bounding_box();
    b.min().axis(axis)
}

/// Insertion sort by box minimum on the given axis: the elements are
/// preserved as a multiset and come out ordered by the key.
#[verifier::rlimit(50)]
fn sort_by_axis(objects: &mut Vec<Primitive>, axis: usize)
    requires
        axis < 3,
    ensures
        final(objects)@.to_multiset() == old(objects)@.to_multiset(),
        final(objects)@.len() == old(objects)@.len(),
        forall|k1: int, k2: int|
            0 <= k1 < k2 < final(objects)@.len() ==> spec_axis_key(
                #[trigger] final(objects)@[k1],
                axis as int,
            ) <= spec_axis_key(#[trigger] final(objects)@[k2], axis as int),
{
    broadcast use vstd::seq_lib::group_to_multiset_ensures;
    broadcast use vstd::multiset::group_multiset_axioms;

    let mut i: usize = 1;
    while i < objects.len()
        invariant
            1 <= i,
            axis < 3,
            objects@.to_multiset() == old(objects)@.to_multiset(),
            objects@.len() == old(objects)@.len(),
            forall|k1: int, k2: int|
                0 <= k1 < k2 < i && k2 < objects@.len() ==> spec_axis_key(
                    #[trigger] objects@[k1],
                    axis as int,
                ) <= spec_axis_key(#[trigger] objects@[k2], axis as int),
        decreases objects@.len() - i,
    {
        let ghost pre: Seq<Primitive> = objects@;
        let x: Primitive = objects.remove(i);
        let ghost removed: Seq<Primitive> = objects@;
        proof {
            assert forall|m: int| 0 <= m < i implies removed[m] == pre[m] by {
            }
        }
        let mut j: usize = i;
        while j > 0 && axis_key(&objects[j - 1], axis) > axis_key(&x, axis)
            invariant
                axis < 3,
                j <= i,
                i <= objects@.len(),
                objects@ == removed,
                forall|m: int|
                    j <= m < i ==> spec_axis_key(#[trigger] removed[m], axis as int)
                        > spec_axis_key(x, axis as int),
            decreases j,
        {
            j = j - 1;
        }
        objects.insert(j, x);
        proof {
            assert(x == pre[i as int]);
            assert(removed == pre.remove(i as int));
            vstd::seq_lib::to_multiset_remove(pre, i as int);
            vstd::seq_lib::to_multiset_insert(removed, j as int, x);
            assert(pre.contains(x));
            vstd::seq_lib::to_multiset_contains(pre, x);
            assert(pre.to_multiset().count(x) > 0);
            assert(objects@.to_multiset() =~= pre.to_multiset());
            removed.insert_ensures(j as int, x);
            let cur = objects@;
            assert(cur == removed.insert(j as int, x));
            assert forall|k1: int, k2: int|
                0 <= k1 < k2 < i + 1 && k2 < cur.len() implies spec_axis_key(
                #[trigger] cur[k1],
                axis as int,
            ) <= spec_axis_key(#[trigger] cur[k2], axis as int) by {
                let kx = spec_axis_key(x, axis as int);
                if k1 < j {
                    assert(cur[k1] == removed[k1]);
                }
                if j < k1 {
                    assert(cur[k1] == removed[k1 - 1]);
                }
                if k2 < j {
                    assert(cur[k2] == removed[k2]);
                }
                if j < k2 {
                    assert(cur[k2] == removed[k2 - 1]);
                }
                if k1 == j as int {
                    assert(cur[k1] == x);
                }
                if k2 == j as int {
                    assert(cur[k2] == x);
                    assert(k1 < j);
                    if k1 < j - 1 {
                        assert(spec_axis_key(removed[k1], axis as int) <= spec_axis_key(
                            removed[j - 1],
                            axis as int,
                        ));
                    }
                    assert(spec_axis_key(removed[j - 1], axis as int) <= kx);
                }
                if k1 < j && j < k2 {
                    if k1 < j - 1 {
                        assert(spec_axis_key(removed[k1], axis as int) <= spec_axis_key(
                            removed[j - 1],
                            axis as int,
                        ));
                    }
                    assert(spec_axis_key(removed[j - 1], axis as int) <= kx);
                    assert(spec_axis_key(removed[k2 - 1], axis as int) > kx);
                }
                if k1 == j as int && j < k2 {
                    assert(spec_axis_key(removed[k2 - 1], axis as int) > kx);
                }
            }
        }
        i = i + 1;
    }
}

/// Build a leaf for one primitive.
fn leaf(p: Primitive) -> (r: Node)
    requires
        p.spec_bbox().wf(),
    ensures
        r.wf(),
        r.prims() =~= seq![p],
        r.bbox == p.spec_bbox(),
{
    Node { left: None, right: None, prim: Some(p), bbox: p.bounding_box() }
}

/// Build a tree over the given primitives: one or two become leaves, more
/// are sorted by box minimum on the longest axis of their merged box and
/// split at the middle.
fn build_node(objects: Vec<Primitive>) -> (r: Node)
    requires
        objects@.len() >= 1,
        forall|k: int| 0 <= k < objects@.len() ==> (#[trigger] objects@[k]).spec_bbox().wf(),
    ensures
        r.wf(),
        r.prims().to_multiset() == objects@.to_multiset(),
        r.bbox == spec_merged_boxes(objects@),
    decreases objects@.len(),
{
    broadcast use vstd::seq_lib::group_to_multiset_ensures;
    broadcast use vstd::seq_lib::lemma_multiset_commutative;

    let ghost orig: Seq<Primitive> = objects@;
    let mut bbox: AABB = objects[0].bounding_box();
    let mut i: usize = 1;
    while i < objects.len()
        invariant
            1 <= i <= objects@.len(),
            objects@ == orig,
            orig.len() >= 1,
        decreases objects@.len() - i,
    {
        bbox = AABB::merge(bbox, objects[i].bounding_box());
        i = i + 1;
    }
    let axis: usize = bbox.longest_axis();
    if objects.len() == 1 {
        let n: Node = leaf(objects[0]);
        proof {
            assert(orig =~= seq![orig[0]]);
            assert(n.bbox == spec_merged_boxes(orig));
        }
        n
    } else if objects.len() == 2 {
        let l: Node = leaf(objects[0]);
        let r: Node = leaf(objects[1]);
        let merged: AABB = AABB::merge(l.bounding_box(), r.bounding_box());
        proof {
            lemma_merge_contains(l.bbox, r.bbox);
            assert(orig =~= seq![orig[0]] + seq![orig[1]]);
            assert(orig.drop_last() =~= seq![orig[0]]);
            assert(orig.last() == orig[1]);
            assert(spec_merged_boxes(seq![orig[0]]) == orig[0].spec_bbox());
            assert(merged == spec_merged_boxes(orig));
        }
        Node { left: Some(Box::new(l)), right: Some(Box::new(r)), prim: None, bbox: merged }
    } else {
        let mut objects = objects;
        sort_by_axis(&mut objects, axis);
        proof {
            assert forall|k: int| 0 <= k < objects@.len() implies (
            #[trigger] objects@[k]).spec_bbox().wf() by {
                assert(objects@.to_multiset().contains(objects@[k]));
                assert(orig.to_multiset().contains(objects@[k]));
                assert(orig.contains(objects@[k]));
                let j = choose|j: int| 0 <= j < orig.len() && orig[j] == objects@[k];
                assert(orig[j].spec_bbox().wf());
            }
        }
        let ghost sorted: Seq<Primitive> = objects@;
        let mid: usize = objects.len() / 2;
        let right_vec: Vec<Primitive> = objects.split_off(mid);
        proof {
            assert(sorted =~= objects@ + right_vec@);
        }
        let l: Node = build_node(objects);
        let r: Node = build_node(right_vec);
        let merged: AABB = AABB::merge(l.bounding_box(), r.bounding_box());
        proof {
            lemma_merge_contains(l.bbox, r.bbox);
            assert((l.prims() + r.prims()).to_multiset() == l.prims().to_multiset().add(
                r.prims().to_multiset(),
            ));
            assert(sorted.to_multiset() == objects@.to_multiset().add(right_vec@.to_multiset()));
            lemma_merged_boxes_append(objects@, right_vec@);
            lemma_merged_boxes_permutation(orig, sorted);
            assert(l.bbox == spec_merged_boxes(objects@));
            assert(r.bbox == spec_merged_boxes(right_vec@));
            assert(sorted == objects@ + right_vec@);
            assert(spec_merged_boxes(sorted) == AABB::spec_merge(l.bbox, r.bbox));
            assert(merged == spec_merged_boxes(orig));
        }
        Node { left: Some(Box::new(l)), right: Some(Box::new(r)), prim: None, bbox: merged }
    }
}

impl BVH {
    /// Build the tree over the primitives of a list. The scene must not
    /// be empty, and every box must be well-formed.
    pub fn new(list: &HittableList) -> (r: BVH)
        requires
            list.objects@.len() >= 1,
            forall|k: int| 0 <= k < list.objects@.len() ==> (
            #[trigger] list.objects@[k]).spec_bbox().wf(),
        ensures
            r.root.wf(),
            r.root.prims().to_multiset() == list.objects@.to_multiset(),
            r.root.bbox == spec_merged_boxes(list.objects@),
            forall|k: int|
                0 <= k < list.objects@.len() ==> r.root.bbox.spec_contains_box(
                    (#[trigger] list.objects@[k]).spec_bbox(),
                ),
    {
        let mut objects: Vec<Primitive> = Vec::new();
        let mut i: usize = 0;
        while i < list.objects.len()
            invariant
                i <= list.objects@.len(),
                objects@ == list.objects@.take(i as int),
            decreases list.objects@.len() - i,
        {
            objects.push(list.objects[i]);
            proof {
                assert(list.objects@.take(i as int + 1) =~= list.objects@.take(i as int).push(
                    list.objects@[i as int],
                ));
            }
            i = i + 1;
        }
        proof {
            assert(list.objects@.take(list.objects@.len() as int) =~= list.objects@);
            lemma_merged_boxes_lub(list.objects@);
        }
        BVH { root: build_node(objects) }
    }

    /// Nearest-hit query. The tree is immutable, and the result is a
    /// function of the tree, the ray and the range alone, so repeated
    /// queries with equal arguments give equal results.
    pub fn hit(&self, ray: Ray, t_range: TRange) -> (r: Option<HitRecord>)
        requires
            self.root.wf(),
        ensures
            r == self.root.spec_query(ray, t_range),
    {
        self.root.hit(ray, t_range)
    }

    pub fn bounding_box(&self) -> (r: AABB)
        ensures
            r == self.root.bbox,
    {
        self.root.bounding_box()
    }
}

/// BVH correctness: for primitives whose hits their own boxes cover, the
/// tree query and the brute-force scan of the flat list agree — both
/// miss, or both report the same nearest hit parameter.
pub proof fn lemma_bvh_matches_scan(bvh: BVH, objs: Seq<Primitive>, ray: Ray, t_range: TRange)
    requires
        bvh.root.wf(),
        bvh.root.prims().to_multiset() == objs.to_multiset(),
        forall|k: int| 0 <= k < objs.len() ==> hit_covered(#[trigger] objs[k], ray),
    ensures
        match (bvh.root.spec_hit(ray, t_range), spec_scan_hit(objs, ray, t_range)) {
            (Some(pb), Some(ps)) => pb.1 == ps.1,
            (None, None) => true,
            _ => false,
        },
{
    broadcast use vstd::seq_lib::group_to_multiset_ensures;

    let prims = bvh.root.prims();
    assert forall|k: int| 0 <= k < prims.len() implies hit_covered(#[trigger] prims[k], ray) by {
        assert(prims.to_multiset().contains(prims[k]));
        assert(objs.to_multiset().contains(prims[k]));
        assert(objs.contains(prims[k]));
        let j = choose|j: int| 0 <= j < objs.len() && objs[j] == prims[k];
        assert(hit_covered(objs[j], ray));
    }
    lemma_node_hit_is_min(bvh.root, ray, t_range);
    lemma_scan_is_min(objs, ray, t_range);
    lemma_min_hit_permutation(prims, objs, ray, t_range);
}


/// Idempotent queries: the tree is immutable and the query result is a
/// function of the tree, the ray and the range alone, so any two results
/// of the same query are equal.
pub proof fn lemma_query_idempotent(
    b: BVH,
    ray: Ray,
    t_range: TRange,
    r1: Option<HitRecord>,
    r2: Option<HitRecord>,
)
    requires
        r1 == b.root.spec_query(ray, t_range),
        r2 == b.root.spec_query(ray, t_range),
    ensures
        r1 == r2,
{
}


/// Unconditionally, pruning never invents hits: whatever the tree query
/// reports is a primitive stored under the node, and that primitive's
/// own test over the full queried range reports exactly that parameter.
pub proof fn lemma_node_hit_is_genuine(n: Node, ray: Ray, t_range: TRange)
    requires
        n.wf(),
    ensures
        match n.spec_hit(ray, t_range) {
            Some(pt) => n.prims().contains(pt.0) && pt.0.spec_hit_t(ray, t_range) == Some(pt.1),
            None => true,
        },
    decreases n,
{
    if n.bbox.spec_intersect(ray, t_range) {
        match n.prim {
            Some(p) => {
                assert(n.prims() =~= seq![p]);
                assert(n.prims()[0] == p);
            },
            None => {
                let l = n.left->0;
                let r = n.right->0;
                lemma_node_hit_is_genuine(*l, ray, t_range);
                assert forall|x: Primitive| l.prims().contains(x) || r.prims().contains(
                    x,
                ) implies n.prims().contains(x) by {
                    if l.prims().contains(x) {
                        let k = choose|k: int| 0 <= k < l.prims().len() && l.prims()[k] == x;
                        assert(n.prims()[k] == x);
                    } else {
                        let k = choose|k: int| 0 <= k < r.prims().len() && r.prims()[k] == x;
                        assert(n.prims()[k + l.prims().len()] == x);
                    }
                }
                match l.spec_hit(ray, t_range) {
                    Some(pl) => {
                        let narrow = TRange { start: t_range.start, end: pl.1 };
                        lemma_node_hit_is_genuine(*r, ray, narrow);
                        match r.spec_hit(ray, narrow) {
                            Some(pr) => {
                                crate::primitive::lemma_primitive_hit_narrow(
                                    pr.0,
                                    ray,
                                    t_range,
                                    narrow,
                                );
                            },
                            None => {},
                        }
                    },
                    None => {
                        lemma_node_hit_is_genuine(*r, ray, t_range);
                    },
                }
            },
        }
    }
}

/// The unconditional half of tree correctness: a tree hit is a genuine
/// hit of some scene primitive at exactly the reported parameter, and
/// the brute-force scan then reports a hit no farther than it.
pub proof fn lemma_bvh_hit_genuine(bvh: BVH, objs: Seq<Primitive>, ray: Ray, t_range: TRange)
    requires
        bvh.root.wf(),
        bvh.root.prims().to_multiset() == objs.to_multiset(),
    ensures
        match bvh.root.spec_hit(ray, t_range) {
            Some(pt) => objs.contains(pt.0) && pt.0.spec_hit_t(ray, t_range) == Some(pt.1)
                && (match spec_scan_hit(objs, ray, t_range) {
                Some(ps) => ps.1 <= pt.1,
                None => false,
            }),
            None => true,
        },
{
    broadcast use vstd::seq_lib::group_to_multiset_ensures;

    lemma_node_hit_is_genuine(bvh.root, ray, t_range);
    lemma_scan_is_min(objs, ray, t_range);
    lemma_min_hit_characterization(objs, ray, t_range);
    match bvh.root.spec_hit(ray, t_range) {
        Some(pt) => {
            assert(bvh.root.prims().contains(pt.0));
            assert(bvh.root.prims().to_multiset().contains(pt.0));
            assert(objs.to_multiset().contains(pt.0));
            assert(objs.contains(pt.0));
            let k = choose|k: int| 0 <= k < objs.len() && objs[k] == pt.0;
            assert(objs[k].spec_hit_t(ray, t_range) == Some(pt.1));
            assert(spec_some_hit(objs, ray, t_range, pt.1));
        },
        None => {},
    }
}


/// The running merge of the primitives' boxes, in sequence order.
pub open spec fn spec_merged_boxes(objs: Seq<Primitive>) -> AABB
    recommends
        objs.len() >= 1,
    decreases objs.len(),
{
    if objs.len() <= 1 {
        objs[0].spec_bbox()
    } else {
        AABB::spec_merge(spec_merged_boxes(objs.drop_last()), objs.last().spec_bbox())
    }
}

/// The merge-fold is the least box containing every primitive's box.
pub proof fn lemma_merged_boxes_lub(objs: Seq<Primitive>)
    requires
        objs.len() >= 1,
    ensures
        forall|k: int|
            0 <= k < objs.len() ==> spec_merged_boxes(objs).spec_contains_box(
                (#[trigger] objs[k]).spec_bbox(),
            ),
        forall|b: AABB|
            (forall|k: int|
                0 <= k < objs.len() ==> b.spec_contains_box((#[trigger] objs[k]).spec_bbox()))
                ==> #[trigger] b.spec_contains_box(spec_merged_boxes(objs)),
    decreases objs.len(),
{
    let f = spec_merged_boxes(objs);
    if objs.len() == 1 {
        assert forall|b: AABB|
            (forall|k: int|
                0 <= k < objs.len() ==> b.spec_contains_box(
                    (#[trigger] objs[k]).spec_bbox(),
                )) implies #[trigger] b.spec_contains_box(f) by {
            assert(b.spec_contains_box(objs[0].spec_bbox()));
        }
    } else {
        let prefix = objs.drop_last();
        lemma_merged_boxes_lub(prefix);
        lemma_merge_contains(spec_merged_boxes(prefix), objs.last().spec_bbox());
        assert forall|k: int| 0 <= k < objs.len() implies f.spec_contains_box(
            (#[trigger] objs[k]).spec_bbox(),
        ) by {
            if k < objs.len() - 1 {
                assert(prefix[k] == objs[k]);
                lemma_contains_trans(f, spec_merged_boxes(prefix), objs[k].spec_bbox());
            } else {
                assert(objs[k] == objs.last());
            }
        }
        assert forall|b: AABB|
            (forall|k: int|
                0 <= k < objs.len() ==> b.spec_contains_box(
                    (#[trigger] objs[k]).spec_bbox(),
                )) implies #[trigger] b.spec_contains_box(f) by {
            assert forall|k: int| 0 <= k < prefix.len() implies b.spec_contains_box(
                (#[trigger] prefix[k]).spec_bbox(),
            ) by {
                assert(prefix[k] == objs[k]);
            }
            assert(b.spec_contains_box(spec_merged_boxes(prefix)));
            assert(b.spec_contains_box(objs.last().spec_bbox()));
            lemma_contains_merge(b, spec_merged_boxes(prefix), objs.last().spec_bbox());
        }
    }
}

/// Folding over a concatenation merges the two folds.
pub proof fn lemma_merged_boxes_append(a: Seq<Primitive>, b: Seq<Primitive>)
    requires
        a.len() >= 1,
        b.len() >= 1,
    ensures
        spec_merged_boxes(a + b) == AABB::spec_merge(spec_merged_boxes(a), spec_merged_boxes(b)),
    decreases b.len(),
{
    if b.len() == 1 {
        assert((a + b).drop_last() =~= a);
        assert((a + b).last() == b[0]);
        assert(spec_merged_boxes(b) == b[0].spec_bbox());
    } else {
        lemma_merged_boxes_append(a, b.drop_last());
        assert((a + b).drop_last() =~= a + b.drop_last());
        assert((a + b).last() == b.last());
        lemma_merge_assoc(
            spec_merged_boxes(a),
            spec_merged_boxes(b.drop_last()),
            b.last().spec_bbox(),
        );
    }
}

/// Sequences with the same primitives fold to the same box.
pub proof fn lemma_merged_boxes_permutation(a: Seq<Primitive>, b: Seq<Primitive>)
    requires
        a.len() >= 1,
        a.to_multiset() == b.to_multiset(),
    ensures
        spec_merged_boxes(a) == spec_merged_boxes(b),
{
    broadcast use vstd::seq_lib::group_to_multiset_ensures;

    vstd::seq_lib::to_multiset_len(a);
    vstd::seq_lib::to_multiset_len(b);
    assert(b.len() == a.len());
    lemma_merged_boxes_lub(a);
    lemma_merged_boxes_lub(b);
    assert forall|k: int| 0 <= k < b.len() implies spec_merged_boxes(a).spec_contains_box(
        (#[trigger] b[k]).spec_bbox(),
    ) by {
        assert(b.contains(b[k]));
        assert(b.to_multiset().contains(b[k]));
        assert(a.to_multiset().contains(b[k]));
        assert(a.contains(b[k]));
        let j = choose|j: int| 0 <= j < a.len() && a[j] == b[k];
        assert(spec_merged_boxes(a).spec_contains_box(a[j].spec_bbox()));
    }
    assert forall|k: int| 0 <= k < a.len() implies spec_merged_boxes(b).spec_contains_box(
        (#[trigger] a[k]).spec_bbox(),
    ) by {
        assert(a.contains(a[k]));
        assert(a.to_multiset().contains(a[k]));
        assert(b.to_multiset().contains(a[k]));
        assert(b.contains(a[k]));
        let j = choose|j: int| 0 <= j < b.len() && b[j] == a[k];
        assert(spec_merged_boxes(b).spec_contains_box(b[j].spec_bbox()));
    }
    assert(spec_merged_boxes(a).spec_contains_box(spec_merged_boxes(b)));
    assert(spec_merged_boxes(b).spec_contains_box(spec_merged_boxes(a)));
    lemma_contains_antisym(spec_merged_boxes(a), spec_merged_boxes(b));
}


/// At most one primitive of the sequence reports the parameter `t` over
/// this range.
pub open spec fn spec_unique_minimizer(objs: Seq<Primitive>, ray: Ray, t_range: TRange, t: i64) -> bool {
    forall|k1: int, k2: int|
        0 <= k1 < objs.len() && 0 <= k2 < objs.len() && (#[trigger] objs[k1]).spec_hit_t(
            ray,
            t_range,
        ) == Some(t) && (#[trigger] objs[k2]).spec_hit_t(ray, t_range) == Some(t) ==> objs[k1]
            == objs[k2]
}

/// Tree and scan agree on the whole hit, not only its parameter, as
/// soon as the nearest parameter is reported by a single primitive; on
/// a tie they may name different, equally near primitives.
pub proof fn lemma_bvh_matches_scan_record(bvh: BVH, objs: Seq<Primitive>, ray: Ray, t_range: TRange)
    requires
        bvh.root.wf(),
        bvh.root.prims().to_multiset() == objs.to_multiset(),
        forall|k: int| 0 <= k < objs.len() ==> hit_covered(#[trigger] objs[k], ray),
    ensures
        match (bvh.root.spec_hit(ray, t_range), spec_scan_hit(objs, ray, t_range)) {
            (Some(pb), Some(ps)) => pb.1 == ps.1 && (spec_unique_minimizer(
                objs,
                ray,
                t_range,
                ps.1,
            ) ==> pb.0 == ps.0),
            (None, None) => true,
            _ => false,
        },
{
    broadcast use vstd::seq_lib::group_to_multiset_ensures;

    lemma_bvh_matches_scan(bvh, objs, ray, t_range);
    lemma_node_hit_is_genuine(bvh.root, ray, t_range);
    lemma_scan_is_min(objs, ray, t_range);
    match (bvh.root.spec_hit(ray, t_range), spec_scan_hit(objs, ray, t_range)) {
        (Some(pb), Some(ps)) => {
            assert(bvh.root.prims().contains(pb.0));
            assert(bvh.root.prims().to_multiset().contains(pb.0));
            assert(objs.to_multiset().contains(pb.0));
            assert(objs.contains(pb.0));
            if spec_unique_minimizer(objs, ray, t_range, ps.1) {
                let k1 = choose|k: int| 0 <= k < objs.len() && objs[k] == pb.0;
                let k2 = choose|k: int| 0 <= k < objs.len() && objs[k] == ps.0;
                assert(objs[k1].spec_hit_t(ray, t_range) == Some(ps.1));
                assert(objs[k2].spec_hit_t(ray, t_range) == Some(ps.1));
            }
        },
        _ => {},
    }
}

} // verus!




