//! The scene: a flat collection of primitives and a name-keyed material
//! table, mutable only while the scene is being described, queried
//! read-only afterwards.

use vstd::prelude::*;
use crate::bvh::BVH;
use crate::material::Material;
use crate::primitive::{HittableList, Primitive};

verus! {

/// Construction-time failures of the scene.
#[derive(Clone, Copy, PartialEq, Eq, Structural, Debug)]
pub enum WorldError {
    /// A material name was registered twice.
    DuplicateMaterial,
    /// A tree was requested for a scene with no primitives.
    EmptyScene,
}

/// First-match lookup of a name in the material table.
pub open spec fn spec_lookup(ms: Seq<(String, Material)>, name: Seq<char>) -> Option<Material>
    decreases ms.len(),
{
    if ms.len() == 0 {
        None
    } else if ms.first().0@ == name {
        Some(ms.first().1)
    } else {
        spec_lookup(ms.drop_first(), name)
    }
}

pub struct World {
    pub geometries: Vec<Primitive>,
    pub materials: Vec<(String, Material)>,
}

impl World {
    /// A name is registered in the table.
    pub open spec fn spec_has_material(self, name: Seq<char>) -> bool {
        exists|k: int| 0 <= k < self.materials@.len() && (#[trigger] self.materials@[k]).0@ == name
    }

    /// Material names are unique, and every primitive carries a
    /// well-formed bounding box.
    pub open spec fn wf(self) -> bool {
        &&& forall|k1: int, k2: int|
            0 <= k1 < k2 < self.materials@.len() ==> (#[trigger] self.materials@[k1]).0@ != (
            #[trigger] self.materials@[k2]).0@
        &&& forall|k: int|
            0 <= k < self.geometries@.len() ==> (#[trigger] self.geometries@[k]).spec_bbox().wf()
    }

    pub fn new() -> (r: World)
        ensures
            r.geometries@.len() == 0,
            r.materials@.len() == 0,
            r.wf(),
    {
        World { geometries: Vec::new(), materials: Vec::new() }
    }

    /// Add a primitive to the scene. Only primitives with a well-formed
    /// box are accepted, which the constructors of the primitive types
    /// guarantee.
    pub fn add_geometry(&mut self, geometry: Primitive)
        requires
            old(self).wf(),
            geometry.spec_bbox().wf(),
        ensures
            final(self).wf(),
            final(self).geometries@ == old(self).geometries@.push(geometry),
            final(self).materials@ == old(self).materials@,
    {
        self.geometries.push(geometry);
    }

    /// Register a material under a name; a second registration of the
    /// same name is refused and leaves the table unchanged.
    pub fn add_material(&mut self, name: &str, material: Material) -> (r: Result<(), WorldError>)
        requires
            old(self).wf(),
        ensures
            final(self).wf(),
            final(self).geometries@ == old(self).geometries@,
            match r {
                Ok(()) => {
                    let n = old(self).materials@.len() as int;
                    &&& !old(self).spec_has_material(name@)
                    &&& final(self).materials@.len() == n + 1
                    &&& final(self).materials@[n].0@ == name@
                    &&& final(self).materials@[n].1 == material
                    &&& final(self).materials@.take(n) == old(self).materials@
                },
                Err(e) => e == WorldError::DuplicateMaterial && old(self).spec_has_material(name@)
                    && final(self).materials@ == old(self).materials@,
            },
    {
        let key: String = name.to_owned();
        let mut k: usize = 0;
        while k < self.materials.len()
            invariant
                *self == *old(self),
                old(self).wf(),
                k <= self.materials@.len(),
                key@ == name@,
                forall|j: int| 0 <= j < k ==> (#[trigger] self.materials@[j]).0@ != name@,
            decreases self.materials@.len() - k,
        {
            if self.materials[k].0 == key {
                proof {
                    assert(self.materials@[k as int].0@ == name@);
                }
                return Err(WorldError::DuplicateMaterial);
            }
            k = k + 1;
        }
        let ghost before: Seq<(String, Material)> = self.materials@;
        self.materials.push((key, material));
        proof {
            let n = before.len() as int;
            assert(self.materials@.take(n) =~= before);
            assert forall|k1: int, k2: int| 0 <= k1 < k2 < self.materials@.len() implies (
            #[trigger] self.materials@[k1]).0@ != (#[trigger] self.materials@[k2]).0@ by {
                if k2 == n {
                    assert(before[k1].0@ != name@);
                } else {
                    assert(before[k1].0@ != before[k2].0@);
                }
            }
        }
        Ok(())
    }

    /// Look a material up by name.
    pub fn get_material(&self, name: &str) -> (r: Option<Material>)
        ensures
            r == spec_lookup(self.materials@, name@),
            r is Some <==> self.spec_has_material(name@),
    {
        proof {
            lemma_lookup_has(self.materials@, name@);
            assert(self.materials@.skip(0) =~= self.materials@);
        }
        let key: String = name.to_owned();
        let mut k: usize = 0;
        while k < self.materials.len()
            invariant
                k <= self.materials@.len(),
                key@ == name@,
                spec_lookup(self.materials@.skip(k as int), name@) == spec_lookup(
                    self.materials@,
                    name@,
                ),
                forall|j: int| 0 <= j < k ==> (#[trigger] self.materials@[j]).0@ != name@,
            decreases self.materials@.len() - k,
        {
            proof {
                assert(self.materials@.skip(k as int).first() == self.materials@[k as int]);
                assert(self.materials@.skip(k as int).drop_first() =~= self.materials@.skip(
                    k as int + 1,
                ));
            }
            if self.materials[k].0 == key {
                return Some(self.materials[k].1);
            }
            k = k + 1;
        }
        proof {
            assert(self.materials@.skip(self.materials@.len() as int) =~= Seq::<(
                String,
                Material,
            )>::empty());
        }
        None
    }

    /// Build the acceleration tree over the scene; an empty scene is a
    /// construction-time error, reported before any tree work starts.
    pub fn get_bvh(&self) -> (r: Result<BVH, WorldError>)
        requires
            self.wf(),
        ensures
            match r {
                Ok(b) => self.geometries@.len() >= 1 && b.root.wf()
                    && b.root.prims().to_multiset() == self.geometries@.to_multiset(),
                Err(e) => e == WorldError::EmptyScene && self.geometries@.len() == 0,
            },
    {
        if self.geometries.len() == 0 {
            return Err(WorldError::EmptyScene);
        }
        let mut list: HittableList = HittableList::new();
        let mut i: usize = 0;
        while i < self.geometries.len()
            invariant
                i <= self.geometries@.len(),
                list.objects@ == self.geometries@.take(i as int),
                self.wf(),
            decreases self.geometries@.len() - i,
        {
            proof {
                assert(self.geometries@.take(i as int + 1) =~= self.geometries@.take(
                    i as int,
                ).push(self.geometries@[i as int]));
            }
            list.push(self.geometries[i]);
            i = i + 1;
        }
        proof {
            assert(self.geometries@.take(self.geometries@.len() as int) =~= self.geometries@);
            assert forall|k: int| 0 <= k < list.objects@.len() implies (
            #[trigger] list.objects@[k]).spec_bbox().wf() by {
                assert(list.objects@[k] == self.geometries@[k]);
            }
        }
        Ok(BVH::new(&list))
    }

    /// Exec check of the scene invariant, for callers outside the
    /// proofs: unique material names and well-formed boxes.
    pub fn check_wf(&self) -> (r: bool)
        ensures
            r == self.wf(),
    {
        let mut i: usize = 0;
        while i < self.geometries.len()
            invariant
                i <= self.geometries@.len(),
                forall|k: int|
                    0 <= k < i ==> (#[trigger] self.geometries@[k]).spec_bbox().wf(),
            decreases self.geometries@.len() - i,
        {
            if !self.geometries[i].bounding_box().is_wf() {
                return false;
            }
            i = i + 1;
        }
        let mut a: usize = 0;
        while a < self.materials.len()
            invariant
                a <= self.materials@.len(),
                forall|k1: int, k2: int|
                    0 <= k1 < k2 < self.materials@.len() && k1 < a ==> (
                    #[trigger] self.materials@[k1]).0@ != (#[trigger] self.materials@[k2]).0@,
            decreases self.materials@.len() - a,
        {
            let mut b: usize = a + 1;
            while b < self.materials.len()
                invariant
                    a < b <= self.materials@.len(),
                    a < self.materials@.len(),
                    forall|k2: int|
                        a < k2 < b ==> (#[trigger] self.materials@[k2]).0@ != self.materials@[a as int].0@,
                decreases self.materials@.len() - b,
            {
                if self.materials[a].0 == self.materials[b].0 {
                    return false;
                }
                b = b + 1;
            }
            a = a + 1;
        }
        true
    }

    /// The flat list of primitives, for the brute-force reference path.
    pub fn get_geometries(&self) -> (r: &Vec<Primitive>)
        ensures
            r@ == self.geometries@,
    {
        &self.geometries
    }
}

/// The recursive lookup succeeds exactly on registered names.
pub proof fn lemma_lookup_has(ms: Seq<(String, Material)>, name: Seq<char>)
    ensures
        spec_lookup(ms, name) is Some <==> exists|k: int|
            0 <= k < ms.len() && (#[trigger] ms[k]).0@ == name,
    decreases ms.len(),
{
    if ms.len() > 0 {
        lemma_lookup_has(ms.drop_first(), name);
        if ms.first().0@ == name {
            assert(ms[0].0@ == name);
        } else {
            if spec_lookup(ms.drop_first(), name) is Some {
                let k = choose|k: int|
                    0 <= k < ms.drop_first().len() && (#[trigger] ms.drop_first()[k]).0@ == name;
                assert(ms[k + 1].0@ == name);
            }
            if exists|k: int| 0 <= k < ms.len() && (#[trigger] ms[k]).0@ == name {
                let k = choose|k: int| 0 <= k < ms.len() && (#[trigger] ms[k]).0@ == name;
                assert(k >= 1);
                assert(ms.drop_first()[k - 1].0@ == name);
            }
        }
    }
}

} // verus!
