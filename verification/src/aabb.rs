//! Axis-aligned bounding boxes with a three-axis slab intersection test.

use vstd::prelude::*;
use crate::fixed::{fp_div, fp_sub, lemma_div_antimono_num, lemma_div_mono_num, spec_div, spec_sub};
use crate::ray::{Ray, TRange};
use crate::vec3::Vec3;

verus! {

/// Boxes are padded by this many fixed-point units on each side, so that
/// axis-aligned primitives never produce a zero-thickness box (about 5e-5
/// in real units, half of a total padding of 1e-4).
pub const AABB_PAD: i64 = 839;

#[derive(Clone, Copy, PartialEq, Eq, Structural, Debug)]
pub struct AABB {
    pub min: Vec3,
    pub max: Vec3,
}

impl AABB {
    /// The corner-wise minimum and maximum of the two points, padded
    /// outward by `AABB_PAD` on every side.
    pub open spec fn spec_new(a: Vec3, b: Vec3) -> AABB {
        AABB {
            min: Vec3::spec_min_v(a, b).spec_sub_v(Vec3::spec_diagonal(AABB_PAD)),
            max: Vec3::spec_max_v(a, b).spec_add_v(Vec3::spec_diagonal(AABB_PAD)),
        }
    }

    #[verifier::when_used_as_spec(spec_new)]
    pub fn new(a: Vec3, b: Vec3) -> (r: AABB)
        ensures
            r == AABB::spec_new(a, b),
    {
        let padding: Vec3 = Vec3::new_diagonal(AABB_PAD);
        AABB { min: Vec3::new_min(a, b).sub(padding), max: Vec3::new_max(a, b).add(padding) }
    }

    pub open spec fn spec_min(self) -> Vec3 {
        self.min
    }

    #[verifier::when_used_as_spec(spec_min)]
    pub fn min(self) -> (r: Vec3)
        ensures
            r == self.spec_min(),
    {
        self.min
    }

    pub open spec fn spec_max(self) -> Vec3 {
        self.max
    }

    #[verifier::when_used_as_spec(spec_max)]
    pub fn max(self) -> (r: Vec3)
        ensures
            r == self.spec_max(),
    {
        self.max
    }

    /// The smallest box containing both arguments: component-wise minimum
    /// of minima and maximum of maxima.
    pub open spec fn spec_merge(a: AABB, b: AABB) -> AABB {
        AABB { min: Vec3::spec_min_v(a.min, b.min), max: Vec3::spec_max_v(a.max, b.max) }
    }

    #[verifier::when_used_as_spec(spec_merge)]
    pub fn merge(a: AABB, b: AABB) -> (r: AABB)
        ensures
            r == AABB::spec_merge(a, b),
    {
        AABB { min: Vec3::new_min(a.min, b.min), max: Vec3::new_max(a.max, b.max) }
    }

    /// Entry and exit parameters of the ray against the two slab planes of
    /// axis `i`, in increasing order.
    pub open spec fn spec_axis_ts(self, ray: Ray, i: int) -> (i64, i64) {
        let o = ray.spec_origin().spec_axis(i);
        let d = ray.spec_direction().spec_axis(i);
        let t0 = spec_div(spec_sub(self.min.spec_axis(i), o), d);
        let t1 = spec_div(spec_sub(self.max.spec_axis(i), o), d);
        if t1 < t0 {
            (t1, t0)
        } else {
            (t0, t1)
        }
    }

    /// The given range narrowed by the slab intervals of the first `n` axes.
    pub open spec fn spec_narrowed(self, ray: Ray, r: TRange, n: int) -> TRange
        decreases n,
    {
        if n <= 0 {
            r
        } else {
            let prev = self.spec_narrowed(ray, r, n - 1);
            let (lo, hi) = self.spec_axis_ts(ray, n - 1);
            TRange {
                start: if prev.start >= lo { prev.start } else { lo },
                end: if prev.end <= hi { prev.end } else { hi },
            }
        }
    }

    /// The slab test holds exactly when the range narrowed by all three
    /// axes is nonempty.
    pub open spec fn spec_intersect(self, ray: Ray, t_range: TRange) -> bool {
        !self.spec_narrowed(ray, t_range, 3).spec_is_empty()
    }

    /// Three-axis slab test. Per axis the entry and exit parameters are
    /// `(min - origin) / d` and `(max - origin) / d`, swapped when the
    /// direction component is negative; a zero component saturates the
    /// quotients, which stands in for the infinities of the real-valued
    /// test. The walk stops as soon as the narrowed range becomes empty.
    #[verifier::when_used_as_spec(spec_intersect)]
    pub fn intersect(self, ray: Ray, t_range: TRange) -> (r: bool)
        ensures
            r == self.spec_intersect(ray, t_range),
    {
        if t_range.is_empty() {
            proof {
                lemma_narrowed_empty_stays_empty(self, ray, t_range, 0, 3);
            }
            return false;
        }
        let o: Vec3 = ray.origin();
        let d: Vec3 = ray.direction();
        let mut range: TRange = t_range;
        let mut i: usize = 0;
        while i < 3
            invariant
                i <= 3,
                range == self.spec_narrowed(ray, t_range, i as int),
                !range.spec_is_empty(),
                o == ray.spec_origin(),
                d == ray.spec_direction(),
            decreases 3 - i,
        {
            let min_i: i64 = self.min.axis(i);
            let max_i: i64 = self.max.axis(i);
            let mut t0: i64 = fp_div(fp_sub(min_i, o.axis(i)), d.axis(i));
            let mut t1: i64 = fp_div(fp_sub(max_i, o.axis(i)), d.axis(i));
            if t1 < t0 {
                let tmp: i64 = t0;
                t0 = t1;
                t1 = tmp;
            }
            if range.start < t0 {
                range.start = t0;
            }
            if t1 < range.end {
                range.end = t1;
            }
            if range.end <= range.start {
                proof {
                    lemma_narrowed_empty_stays_empty(self, ray, t_range, i as int + 1, 3);
                }
                return false;
            }
            i = i + 1;
        }
        true
    }

    /// The index of the axis with the greatest extent; on ties the later
    /// axis wins.
    pub open spec fn spec_longest_axis(self) -> int {
        let s0 = spec_sub(self.max.x, self.min.x);
        let s1 = spec_sub(self.max.y, self.min.y);
        let s2 = spec_sub(self.max.z, self.min.z);
        if s0 > s1 {
            if s0 > s2 {
                0
            } else {
                2
            }
        } else {
            if s1 > s2 {
                1
            } else {
                2
            }
        }
    }

    pub fn longest_axis(self) -> (r: usize)
        ensures
            r == self.spec_longest_axis(),
            r < 3,
    {
        let s0: i64 = fp_sub(self.max.x, self.min.x);
        let s1: i64 = fp_sub(self.max.y, self.min.y);
        let s2: i64 = fp_sub(self.max.z, self.min.z);
        if s0 > s1 {
            if s0 > s2 {
                0
            } else {
                2
            }
        } else {
            if s1 > s2 {
                1
            } else {
                2
            }
        }
    }
}

/// Narrowing only ever shrinks a range, so a range that has become empty
/// after some axes stays empty after the rest.
pub proof fn lemma_narrowed_empty_stays_empty(b: AABB, ray: Ray, r: TRange, n1: int, n2: int)
    requires
        0 <= n1 <= n2,
        b.spec_narrowed(ray, r, n1).spec_is_empty(),
    ensures
        b.spec_narrowed(ray, r, n2).spec_is_empty(),
    decreases n2 - n1,
{
    if n1 < n2 {
        lemma_narrowed_empty_stays_empty(b, ray, r, n1, n2 - 1);
    }
}


impl AABB {
    /// Well-formed boxes have their minimum corner below their maximum
    /// corner on every axis.
    pub open spec fn wf(self) -> bool {
        &&& self.min.x <= self.max.x
        &&& self.min.y <= self.max.y
        &&& self.min.z <= self.max.z
    }

    /// Exec check of well-formedness, for callers outside the proofs.
    pub fn is_wf(&self) -> (r: bool)
        ensures
            r == self.wf(),
    {
        self.min.x <= self.max.x && self.min.y <= self.max.y && self.min.z <= self.max.z
    }

    /// This box contains the other box on every axis.
    pub open spec fn spec_contains_box(self, inner: AABB) -> bool {
        &&& self.min.x <= inner.min.x && inner.max.x <= self.max.x
        &&& self.min.y <= inner.min.y && inner.max.y <= self.max.y
        &&& self.min.z <= inner.min.z && inner.max.z <= self.max.z
    }
}

/// Freshly built boxes are well-formed: padding only pushes the corners
/// apart.
pub proof fn lemma_new_wf(a: Vec3, b: Vec3)
    ensures
        AABB::spec_new(a, b).wf(),
{
}

/// A merge contains both arguments and preserves well-formedness.
pub proof fn lemma_merge_contains(a: AABB, b: AABB)
    ensures
        AABB::spec_merge(a, b).spec_contains_box(a),
        AABB::spec_merge(a, b).spec_contains_box(b),
        a.wf() || b.wf() ==> AABB::spec_merge(a, b).wf(),
{
}

/// Box containment is transitive.
pub proof fn lemma_contains_trans(a: AABB, b: AABB, c: AABB)
    requires
        a.spec_contains_box(b),
        b.spec_contains_box(c),
    ensures
        a.spec_contains_box(c),
{
}

/// On each axis, the slab interval of a containing box contains the slab
/// interval of the contained box.
proof fn lemma_axis_ts_widen(inner: AABB, outer: AABB, ray: Ray, i: int)
    requires
        inner.wf(),
        outer.wf(),
        outer.spec_contains_box(inner),
        0 <= i < 3,
    ensures
        outer.spec_axis_ts(ray, i).0 <= inner.spec_axis_ts(ray, i).0,
        inner.spec_axis_ts(ray, i).1 <= outer.spec_axis_ts(ray, i).1,
{
    let o = ray.spec_origin().spec_axis(i);
    let d = ray.spec_direction().spec_axis(i);
    let nm_in = spec_sub(inner.min.spec_axis(i), o);
    let nx_in = spec_sub(inner.max.spec_axis(i), o);
    let nm_out = spec_sub(outer.min.spec_axis(i), o);
    let nx_out = spec_sub(outer.max.spec_axis(i), o);
    if d > 0 {
        lemma_div_mono_num(nm_out, nm_in, d);
        lemma_div_mono_num(nx_in, nx_out, d);
        lemma_div_mono_num(nm_in, nx_in, d);
        lemma_div_mono_num(nm_out, nx_out, d);
    } else if d < 0 {
        lemma_div_antimono_num(nm_out, nm_in, d);
        lemma_div_antimono_num(nx_in, nx_out, d);
        lemma_div_antimono_num(nm_in, nx_in, d);
        lemma_div_antimono_num(nm_out, nx_out, d);
    }
}

/// Narrowing by the axes of a containing box narrows less.
proof fn lemma_narrowed_widen(inner: AABB, outer: AABB, ray: Ray, r: TRange, n: int)
    requires
        inner.wf(),
        outer.wf(),
        outer.spec_contains_box(inner),
        0 <= n <= 3,
    ensures
        outer.spec_narrowed(ray, r, n).start <= inner.spec_narrowed(ray, r, n).start,
        outer.spec_narrowed(ray, r, n).end >= inner.spec_narrowed(ray, r, n).end,
    decreases n,
{
    if n > 0 {
        lemma_narrowed_widen(inner, outer, ray, r, n - 1);
        lemma_axis_ts_widen(inner, outer, ray, n - 1);
    }
}

/// If a ray meets a box within a range, it also meets every box that
/// contains it, within the same range.
pub proof fn lemma_intersect_widen(inner: AABB, outer: AABB, ray: Ray, r: TRange)
    requires
        inner.wf(),
        outer.wf(),
        outer.spec_contains_box(inner),
        inner.spec_intersect(ray, r),
    ensures
        outer.spec_intersect(ray, r),
{
    lemma_narrowed_widen(inner, outer, ray, r, 3);
}


/// Per-axis narrowing keeps every parameter that all axis intervals and
/// the query range admit.
proof fn lemma_narrowed_keeps(b: AABB, ray: Ray, r: TRange, t: i64, n: int)
    requires
        r.spec_contains(t),
        0 <= n <= 3,
        forall|i: int|
            0 <= i < 3 ==> (#[trigger] b.spec_axis_ts(ray, i)).0 <= t < b.spec_axis_ts(ray, i).1,
    ensures
        b.spec_narrowed(ray, r, n).spec_contains(t),
    decreases n,
{
    if n > 0 {
        lemma_narrowed_keeps(b, ray, r, t, n - 1);
        assert((b.spec_axis_ts(ray, n - 1)).0 <= t < b.spec_axis_ts(ray, n - 1).1);
    }
}

/// Slab soundness: a parameter admitted by the computed entry/exit
/// interval of every axis and by the query range makes the test report a
/// hit, and the fully narrowed range still admits that parameter.
pub proof fn lemma_slab_soundness(b: AABB, ray: Ray, r: TRange, t: i64)
    requires
        r.spec_contains(t),
        forall|i: int|
            0 <= i < 3 ==> (#[trigger] b.spec_axis_ts(ray, i)).0 <= t < b.spec_axis_ts(ray, i).1,
    ensures
        b.spec_intersect(ray, r),
        b.spec_narrowed(ray, r, 3).spec_contains(t),
{
    lemma_narrowed_keeps(b, ray, r, t, 3);
}


impl Default for AABB {
    /// The degenerate box at the origin.
    fn default() -> (r: AABB)
        ensures
            r.min == Vec3::spec_zero(),
            r.max == Vec3::spec_zero(),
    {
        AABB { min: Vec3::zero(), max: Vec3::zero() }
    }
}


/// Boxes that contain each other are equal.
pub proof fn lemma_contains_antisym(a: AABB, b: AABB)
    requires
        a.spec_contains_box(b),
        b.spec_contains_box(a),
    ensures
        a == b,
{
    assert(a.min == b.min);
    assert(a.max == b.max);
}

/// A box containing two boxes contains their merge.
pub proof fn lemma_contains_merge(b: AABB, x: AABB, y: AABB)
    requires
        b.spec_contains_box(x),
        b.spec_contains_box(y),
    ensures
        b.spec_contains_box(AABB::spec_merge(x, y)),
{
}

/// Merging is associative.
pub proof fn lemma_merge_assoc(x: AABB, y: AABB, z: AABB)
    ensures
        AABB::spec_merge(AABB::spec_merge(x, y), z) == AABB::spec_merge(x, AABB::spec_merge(y, z)),
{
    assert(AABB::spec_merge(AABB::spec_merge(x, y), z).min == AABB::spec_merge(
        x,
        AABB::spec_merge(y, z),
    ).min);
    assert(AABB::spec_merge(AABB::spec_merge(x, y), z).max == AABB::spec_merge(
        x,
        AABB::spec_merge(y, z),
    ).max);
}

} // verus!




