//! Geometry kind masks for intersection dispatch tables.

use vstd::prelude::*;

verus! {

#[derive(Clone, Copy, PartialEq, Eq, Structural, Debug)]
pub enum MetalGeometryMasks {
    Quad,
    Sphere,
}

impl MetalGeometryMasks {
    /// The numeric mask of each geometry kind.
    pub fn mask(self) -> (r: u32)
        ensures
            self is Quad ==> r == 1,
            self is Sphere ==> r == 2,
    {
        match self {
            MetalGeometryMasks::Quad => 1,
            MetalGeometryMasks::Sphere => 2,
        }
    }
}

} // verus!
