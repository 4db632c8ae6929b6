//! Materials: how a ray scatters or is absorbed when it hits a surface,
//! and what a surface emits. The closed set of kinds is a tagged union so
//! that dispatch is static and fully verified.
//!
//! Scattering consumes randomness; the random draws are passed in as a
//! value so that the scattering rule itself is a pure, exactly specified
//! function, and the drawing wrapper merely fills that value in.

use vstd::prelude::*;
use crate::fixed::{fp_add, fp_div, fp_mul, fp_neg, fp_sqrt, fp_sub, spec_add, spec_div, spec_mul,
    spec_neg, spec_sqrt, spec_sub, FP_ONE};
use crate::hittable::HitRecord;
use crate::ray::Ray;
use crate::vec3::Vec3;

verus! {

/// The random draws one scattering step may consume.
#[derive(Clone, Copy, PartialEq, Eq, Structural, Debug)]
pub struct ScatterRng {
    /// A random unit vector (for diffuse bounce directions).
    pub unit: Vec3,
    /// A random point inside the unit sphere (for metal fuzz).
    pub in_sphere: Vec3,
    /// A uniform draw from `[0, 1)` (for the dielectric reflect/refract choice).
    pub uniform: i64,
}

impl ScatterRng {
    pub open spec fn wf(self) -> bool {
        &&& self.in_sphere.spec_squared_length() < FP_ONE
        &&& 0 <= self.uniform < FP_ONE
    }

    /// Draw fresh randomness for one scattering step.
    pub fn draw() -> (r: ScatterRng)
        ensures
            r.wf(),
    {
        ScatterRng {
            unit: Vec3::new_random_unit_vector(),
            in_sphere: Vec3::new_random_in_unit_sphere(),
            uniform: crate::random::random_float(),
        }
    }
}

#[derive(Clone, Copy, PartialEq, Eq, Structural, Debug)]
pub struct Lambertian {
    pub albedo: Vec3,
}

impl Lambertian {
    pub fn new(albedo: Vec3) -> (r: Lambertian)
        ensures
            r.albedo == albedo,
    {
        Lambertian { albedo }
    }

    /// Diffuse bounce: the new direction is the normal plus a random unit
    /// vector, falling back to the normal itself when that sum vanishes.
    pub open spec fn spec_scatter(self, rec: HitRecord, rng: ScatterRng) -> Option<(Ray, Vec3)> {
        let dir = rec.normal.spec_add_v(rng.unit);
        let dir = if dir.spec_near_zero() {
            rec.normal
        } else {
            dir
        };
        Some((Ray::spec_new(rec.point, dir), self.albedo))
    }
}

#[derive(Clone, Copy, PartialEq, Eq, Structural, Debug)]
pub struct Metal {
    pub albedo: Vec3,
    pub fuzz: i64,
}

impl Metal {
    /// The fuzz factor is clamped into `[0, 1]`.
    pub fn new(albedo: Vec3, fuzz: i64) -> (r: Metal)
        ensures
            r.albedo == albedo,
            r.fuzz == if fuzz < 0 { 0i64 } else if fuzz > FP_ONE { FP_ONE } else { fuzz },
    {
        let f: i64 = if fuzz < 0 {
            0
        } else if fuzz > FP_ONE {
            FP_ONE
        } else {
            fuzz
        };
        Metal { albedo, fuzz: f }
    }

    /// Mirror reflection, perturbed by a fuzz-scaled random point of the
    /// unit sphere.
    pub open spec fn spec_scatter(self, ray: Ray, rec: HitRecord, rng: ScatterRng) -> Option<
        (Ray, Vec3),
    > {
        let reflected = ray.spec_direction().spec_reflect(rec.normal);
        let dir = reflected.spec_add_v(rng.in_sphere.spec_scale(self.fuzz));
        Some((Ray::spec_new(rec.point, dir), self.albedo))
    }
}

#[derive(Clone, Copy, PartialEq, Eq, Structural, Debug)]
pub struct Dielectric {
    pub albedo: Vec3,
    pub refraction_index: i64,
}

impl Dielectric {
    pub fn new(albedo: Vec3, refraction_index: i64) -> (r: Dielectric)
        ensures
            r.albedo == albedo,
            r.refraction_index == refraction_index,
    {
        Dielectric { albedo, refraction_index }
    }

    /// Schlick's approximation of reflectance.
    pub open spec fn spec_reflectance(cos: i64, refraction_index: i64) -> i64 {
        let sqrt_r0 = spec_div(spec_sub(FP_ONE, refraction_index), spec_add(FP_ONE, refraction_index));
        let r0 = spec_mul(sqrt_r0, sqrt_r0);
        let m = spec_sub(FP_ONE, cos);
        let m2 = spec_mul(m, m);
        let m5 = spec_mul(spec_mul(m2, m2), m);
        spec_add(r0, spec_mul(spec_sub(FP_ONE, r0), m5))
    }

    #[verifier::when_used_as_spec(spec_reflectance)]
    pub fn reflectance(cos: i64, refraction_index: i64) -> (r: i64)
        ensures
            r == Dielectric::spec_reflectance(cos, refraction_index),
    {
        let sqrt_r0: i64 = fp_div(fp_sub(FP_ONE, refraction_index), fp_add(FP_ONE, refraction_index));
        let r0: i64 = fp_mul(sqrt_r0, sqrt_r0);
        let m: i64 = fp_sub(FP_ONE, cos);
        let m2: i64 = fp_mul(m, m);
        let m5: i64 = fp_mul(fp_mul(m2, m2), m);
        fp_add(r0, fp_mul(fp_sub(FP_ONE, r0), m5))
    }

    /// Refract when Snell's law allows it and a Schlick draw does not
    /// choose reflection; reflect otherwise. The relative index is the
    /// reciprocal of the stored one on front faces.
    pub open spec fn spec_scatter(self, ray: Ray, rec: HitRecord, rng: ScatterRng) -> Option<
        (Ray, Vec3),
    > {
        let ri = if rec.front_face {
            spec_div(FP_ONE, self.refraction_index)
        } else {
            self.refraction_index
        };
        let cos_raw = spec_neg(rec.normal.spec_dot(ray.spec_direction()));
        let cos = if cos_raw <= FP_ONE {
            cos_raw
        } else {
            FP_ONE
        };
        let sin_sq = spec_sub(FP_ONE, spec_mul(cos, cos));
        let sin = spec_sqrt(if sin_sq >= 0 { sin_sq } else { 0i64 });
        let total_reflection = spec_mul(ri, sin) > FP_ONE;
        let dir = if total_reflection || Dielectric::spec_reflectance(cos, ri) > rng.uniform {
            ray.spec_direction().spec_reflect(rec.normal)
        } else {
            ray.spec_direction().spec_refract(rec.normal, ri)
        };
        Some((Ray::spec_new(rec.point, dir), self.albedo))
    }
}

#[derive(Clone, Copy, PartialEq, Eq, Structural, Debug)]
pub struct Light {
    pub color: Vec3,
}

impl Light {
    pub fn new(color: Vec3) -> (r: Light)
        ensures
            r.color == color,
    {
        Light { color }
    }
}

#[derive(Clone, Copy, PartialEq, Eq, Structural, Debug)]
pub enum Material {
    Lambertian(Lambertian),
    Metal(Metal),
    Dielectric(Dielectric),
    Light(Light),
}

impl Material {
    /// The scattering rule of each material kind, as a pure function of
    /// the incoming ray, the hit and the random draws. `None` means the
    /// ray is absorbed.
    pub open spec fn spec_scatter(self, ray: Ray, rec: HitRecord, rng: ScatterRng) -> Option<
        (Ray, Vec3),
    > {
        match self {
            Material::Lambertian(m) => m.spec_scatter(rec, rng),
            Material::Metal(m) => m.spec_scatter(ray, rec, rng),
            Material::Dielectric(m) => m.spec_scatter(ray, rec, rng),
            Material::Light(_) => None,
        }
    }

    /// One scattering step against the given random draws.
    pub fn scatter_with(self, ray: Ray, rec: HitRecord, rng: ScatterRng) -> (r: Option<(Ray, Vec3)>)
        ensures
            r == self.spec_scatter(ray, rec, rng),
    {
        match self {
            Material::Lambertian(m) => {
                let dir: Vec3 = rec.normal.add(rng.unit);
                let dir: Vec3 = if dir.near_zero() {
                    rec.normal
                } else {
                    dir
                };
                Some((Ray::new(rec.point, dir), m.albedo))
            },
            Material::Metal(m) => {
                let reflected: Vec3 = ray.direction().reflect(rec.normal);
                let dir: Vec3 = reflected.add(rng.in_sphere.scale(m.fuzz));
                Some((Ray::new(rec.point, dir), m.albedo))
            },
            Material::Dielectric(m) => {
                let ri: i64 = if rec.front_face {
                    fp_div(FP_ONE, m.refraction_index)
                } else {
                    m.refraction_index
                };
                let cos_raw: i64 = fp_neg(rec.normal.dot(ray.direction()));
                let cos: i64 = if cos_raw <= FP_ONE {
                    cos_raw
                } else {
                    FP_ONE
                };
                let sin_sq: i64 = fp_sub(FP_ONE, fp_mul(cos, cos));
                let sin: i64 = fp_sqrt(
                    if sin_sq >= 0 {
                        sin_sq
                    } else {
                        0
                    },
                );
                let total_reflection: bool = fp_mul(ri, sin) > FP_ONE;
                let dir: Vec3 = if total_reflection || Dielectric::reflectance(cos, ri)
                    > rng.uniform {
                    ray.direction().reflect(rec.normal)
                } else {
                    ray.direction().refract(rec.normal, ri)
                };
                Some((Ray::new(rec.point, dir), m.albedo))
            },
            Material::Light(_) => None,
        }
    }

    /// One scattering step with fresh randomness: whatever was drawn, the
    /// result follows the scattering rule for some well-formed draw.
    pub fn scatter(self, ray: Ray, rec: HitRecord) -> (r: Option<(Ray, Vec3)>)
        ensures
            exists|rng: ScatterRng| rng.wf() && r == self.spec_scatter(ray, rec, rng),
    {
        let rng: ScatterRng = ScatterRng::draw();
        let r: Option<(Ray, Vec3)> = self.scatter_with(ray, rec, rng);
        proof {
            assert(rng.wf() && r == self.spec_scatter(ray, rec, rng));
        }
        r
    }

    /// Emitted radiance: lights emit their color, other materials nothing.
    pub open spec fn spec_emitted(self) -> Option<Vec3> {
        match self {
            Material::Light(l) => Some(l.color),
            _ => None,
        }
    }

    #[verifier::when_used_as_spec(spec_emitted)]
    pub fn emitted(self) -> (r: Option<Vec3>)
        ensures
            r == self.spec_emitted(),
    {
        match self {
            Material::Light(l) => Some(l.color),
            _ => None,
        }
    }
}

} // verus!
