//! Parametric rays and half-open parameter ranges along them.

use vstd::prelude::*;
use crate::vec3::Vec3;

verus! {

#[derive(Clone, Copy, PartialEq, Eq, Structural, Debug)]
pub struct Ray {
    pub origin: Vec3,
    pub direction: Vec3,
}

/// A half-open range `[start, end)` of ray parameters.
#[derive(Clone, Copy, PartialEq, Eq, Structural, Debug)]
pub struct TRange {
    pub start: i64,
    pub end: i64,
}

impl TRange {
    pub open spec fn spec_contains(self, t: i64) -> bool {
        self.start <= t < self.end
    }

    #[verifier::when_used_as_spec(spec_contains)]
    pub fn contains(self, t: i64) -> (r: bool)
        ensures
            r == self.spec_contains(t),
    {
        self.start <= t && t < self.end
    }

    pub open spec fn spec_is_empty(self) -> bool {
        self.end <= self.start
    }

    #[verifier::when_used_as_spec(spec_is_empty)]
    pub fn is_empty(self) -> (r: bool)
        ensures
            r == self.spec_is_empty(),
    {
        self.end <= self.start
    }
}

impl Ray {
    /// The stored direction is the normalization of the one given.
    pub open spec fn spec_new(origin: Vec3, direction: Vec3) -> Ray {
        Ray { origin, direction: direction.spec_normalized() }
    }

    #[verifier::when_used_as_spec(spec_new)]
    pub fn new(origin: Vec3, direction: Vec3) -> (r: Ray)
        ensures
            r == Ray::spec_new(origin, direction),
    {
        Ray { origin, direction: direction.normalized() }
    }

    pub open spec fn spec_origin(self) -> Vec3 {
        self.origin
    }

    #[verifier::when_used_as_spec(spec_origin)]
    pub fn origin(self) -> (r: Vec3)
        ensures
            r == self.spec_origin(),
    {
        self.origin
    }

    pub open spec fn spec_direction(self) -> Vec3 {
        self.direction
    }

    #[verifier::when_used_as_spec(spec_direction)]
    pub fn direction(self) -> (r: Vec3)
        ensures
            r == self.spec_direction(),
    {
        self.direction
    }

    /// The point reached after parameter `t`: `origin + t * direction`.
    pub open spec fn spec_at(self, t: i64) -> Vec3 {
        self.origin.spec_add_v(self.direction.spec_scale(t))
    }

    #[verifier::when_used_as_spec(spec_at)]
    pub fn at(self, t: i64) -> (r: Vec3)
        ensures
            r == self.spec_at(t),
    {
        self.origin.add(self.direction.scale(t))
    }
}

} // verus!
