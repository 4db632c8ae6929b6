//! The values that flow between the pipeline stages.

use vstd::prelude::*;
use crate::ray::Ray;
use crate::vec3::Vec3;

verus! {

/// One primary ray for one pixel, produced by the generator.
#[derive(Clone, Copy, PartialEq, Eq, Structural, Debug)]
pub struct SamplePoint {
    pub x: usize,
    pub y: usize,
    pub ray: Ray,
}

/// The in-flight state of one sample: its pixel, its current ray, the
/// remaining bounce budget, and the attenuation accumulated so far.
#[derive(Clone, Copy, PartialEq, Eq, Structural, Debug)]
pub struct SamplerInput {
    pub x: usize,
    pub y: usize,
    pub ray: Ray,
    pub remain_bounces: usize,
    pub attenuation: Vec3,
}

/// A finished sample: the radiance estimate delivered to the imager.
#[derive(Clone, Copy, PartialEq, Eq, Structural, Debug)]
pub struct SampledColor {
    pub x: usize,
    pub y: usize,
    pub color: Vec3,
}

} // verus!
