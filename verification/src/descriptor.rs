//! Configuration records for the pipeline stages.

use vstd::prelude::*;
use crate::camera::Camera;

verus! {

#[derive(Clone, Copy, PartialEq, Eq, Structural, Debug)]
pub struct ImageDescriptor {
    pub width: usize,
    pub height: usize,
    pub samples_per_pixel: usize,
}

#[derive(Clone, Copy, PartialEq, Eq, Structural, Debug)]
pub struct SamplePointGeneratorDescriptor {
    pub num_threads: usize,
    pub buffer_size: usize,
    pub image: ImageDescriptor,
    pub camera: Camera,
}

#[derive(Clone, Copy, PartialEq, Eq, Structural, Debug)]
pub struct SamplerDescriptor {
    pub num_threads: usize,
    pub in_buffer_size: usize,
    pub feedback_buffer_size: usize,
    pub out_buffer_size: usize,
    pub max_bounces: usize,
}

#[derive(Clone, Copy, PartialEq, Eq, Structural, Debug)]
pub struct InstanceDescriptor {
    pub point_generator_descriptor: SamplePointGeneratorDescriptor,
    pub sampler_descriptor: SamplerDescriptor,
    pub progressbar: bool,
}

} // verus!
