//! A verified path-tracing core: fixed-point vector algebra, axis-aligned
//! bounding boxes, a bounding-volume hierarchy with a nearest-hit query that
//! provably matches a brute-force scan, materials, a camera, and the pure
//! state machines of a concurrent sampling pipeline (point generation,
//! one-bounce sampling with a feedback queue, and per-pixel accumulation).
//! Channel plumbing, threads and file output live outside the library.

pub mod fixed;
pub mod vec3;
pub mod ray;
pub mod aabb;
pub mod random;
pub mod material;
pub mod hittable;
pub mod sphere;
pub mod quad;
pub mod primitive;
pub mod bvh;
pub mod world;
pub mod camera;
pub mod image;
pub mod descriptor;
pub mod dto;
pub mod colorsampler;
pub mod sampler;
pub mod imager;
pub mod pointgen;
pub mod renderer;
pub mod shader;
pub mod masks;
pub mod scene;
pub mod instance;
pub mod cpusampler;
