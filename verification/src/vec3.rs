//! Three-component fixed-point vectors, used for points, directions and
//! colors alike.

use vstd::prelude::*;
use crate::fixed::{
    fp_add, fp_div, fp_mul, fp_neg, fp_sqrt, fp_sub, mag, spec_add, spec_div, spec_mul, spec_neg,
    spec_sqrt, spec_sub, FP_ONE,
};

verus! {

/// Components whose magnitude is below this many fixed-point units count
/// as zero for `near_zero`.
pub const FP_NEAR_EPS: i64 = 2;

#[derive(Clone, Copy, PartialEq, Eq, Structural, Debug)]
pub struct Vec3 {
    pub x: i64,
    pub y: i64,
    pub z: i64,
}

impl Vec3 {
    pub open spec fn spec_new(x: i64, y: i64, z: i64) -> Vec3 {
        Vec3 { x, y, z }
    }

    #[verifier::when_used_as_spec(spec_new)]
    pub fn new(x: i64, y: i64, z: i64) -> (r: Vec3)
        ensures
            r == Vec3::spec_new(x, y, z),
    {
        Vec3 { x, y, z }
    }

    pub open spec fn spec_diagonal(v: i64) -> Vec3 {
        Vec3 { x: v, y: v, z: v }
    }

    #[verifier::when_used_as_spec(spec_diagonal)]
    pub fn new_diagonal(v: i64) -> (r: Vec3)
        ensures
            r == Vec3::spec_diagonal(v),
    {
        Vec3 { x: v, y: v, z: v }
    }

    pub open spec fn spec_zero() -> Vec3 {
        Vec3 { x: 0, y: 0, z: 0 }
    }

    #[verifier::when_used_as_spec(spec_zero)]
    pub fn zero() -> (r: Vec3)
        ensures
            r == Vec3::spec_zero(),
    {
        Vec3 { x: 0, y: 0, z: 0 }
    }

    /// The unit color/attenuation vector: one in every component.
    pub open spec fn spec_one() -> Vec3 {
        Vec3 { x: FP_ONE, y: FP_ONE, z: FP_ONE }
    }

    #[verifier::when_used_as_spec(spec_one)]
    pub fn one() -> (r: Vec3)
        ensures
            r == Vec3::spec_one(),
    {
        Vec3 { x: FP_ONE, y: FP_ONE, z: FP_ONE }
    }

    /// Component by axis index: 0 is x, 1 is y, 2 is z.
    pub open spec fn spec_axis(self, i: int) -> i64 {
        if i == 0 {
            self.x
        } else if i == 1 {
            self.y
        } else {
            self.z
        }
    }

    pub fn axis(self, i: usize) -> (r: i64)
        requires
            i < 3,
        ensures
            r == self.spec_axis(i as int),
    {
        if i == 0 {
            self.x
        } else if i == 1 {
            self.y
        } else {
            self.z
        }
    }

    pub open spec fn spec_add_v(self, o: Vec3) -> Vec3 {
        Vec3 { x: spec_add(self.x, o.x), y: spec_add(self.y, o.y), z: spec_add(self.z, o.z) }
    }

    #[verifier::when_used_as_spec(spec_add_v)]
    pub fn add(self, o: Vec3) -> (r: Vec3)
        ensures
            r == self.spec_add_v(o),
    {
        Vec3 { x: fp_add(self.x, o.x), y: fp_add(self.y, o.y), z: fp_add(self.z, o.z) }
    }

    pub open spec fn spec_sub_v(self, o: Vec3) -> Vec3 {
        Vec3 { x: spec_sub(self.x, o.x), y: spec_sub(self.y, o.y), z: spec_sub(self.z, o.z) }
    }

    #[verifier::when_used_as_spec(spec_sub_v)]
    pub fn sub(self, o: Vec3) -> (r: Vec3)
        ensures
            r == self.spec_sub_v(o),
    {
        Vec3 { x: fp_sub(self.x, o.x), y: fp_sub(self.y, o.y), z: fp_sub(self.z, o.z) }
    }

    pub open spec fn spec_neg_v(self) -> Vec3 {
        Vec3 { x: spec_neg(self.x), y: spec_neg(self.y), z: spec_neg(self.z) }
    }

    #[verifier::when_used_as_spec(spec_neg_v)]
    pub fn neg(self) -> (r: Vec3)
        ensures
            r == self.spec_neg_v(),
    {
        Vec3 { x: fp_neg(self.x), y: fp_neg(self.y), z: fp_neg(self.z) }
    }

    /// Component-wise product (a color filtered by an attenuation).
    pub open spec fn spec_mul_v(self, o: Vec3) -> Vec3 {
        Vec3 { x: spec_mul(self.x, o.x), y: spec_mul(self.y, o.y), z: spec_mul(self.z, o.z) }
    }

    #[verifier::when_used_as_spec(spec_mul_v)]
    pub fn mul(self, o: Vec3) -> (r: Vec3)
        ensures
            r == self.spec_mul_v(o),
    {
        Vec3 { x: fp_mul(self.x, o.x), y: fp_mul(self.y, o.y), z: fp_mul(self.z, o.z) }
    }

    /// Scaling by a fixed-point scalar.
    pub open spec fn spec_scale(self, k: i64) -> Vec3 {
        Vec3 { x: spec_mul(self.x, k), y: spec_mul(self.y, k), z: spec_mul(self.z, k) }
    }

    #[verifier::when_used_as_spec(spec_scale)]
    pub fn scale(self, k: i64) -> (r: Vec3)
        ensures
            r == self.spec_scale(k),
    {
        Vec3 { x: fp_mul(self.x, k), y: fp_mul(self.y, k), z: fp_mul(self.z, k) }
    }

    /// Division by a fixed-point scalar.
    pub open spec fn spec_div_scalar(self, k: i64) -> Vec3 {
        Vec3 { x: spec_div(self.x, k), y: spec_div(self.y, k), z: spec_div(self.z, k) }
    }

    #[verifier::when_used_as_spec(spec_div_scalar)]
    pub fn div(self, k: i64) -> (r: Vec3)
        ensures
            r == self.spec_div_scalar(k),
    {
        Vec3 { x: fp_div(self.x, k), y: fp_div(self.y, k), z: fp_div(self.z, k) }
    }

    pub open spec fn spec_dot(self, o: Vec3) -> i64 {
        spec_add(
            spec_add(spec_mul(self.x, o.x), spec_mul(self.y, o.y)),
            spec_mul(self.z, o.z),
        )
    }

    #[verifier::when_used_as_spec(spec_dot)]
    pub fn dot(self, o: Vec3) -> (r: i64)
        ensures
            r == self.spec_dot(o),
    {
        fp_add(fp_add(fp_mul(self.x, o.x), fp_mul(self.y, o.y)), fp_mul(self.z, o.z))
    }

    pub open spec fn spec_squared_length(self) -> i64 {
        self.spec_dot(self)
    }

    #[verifier::when_used_as_spec(spec_squared_length)]
    pub fn squared_length(self) -> (r: i64)
        ensures
            r == self.spec_squared_length(),
    {
        self.dot(self)
    }

    pub open spec fn spec_length(self) -> i64 {
        spec_sqrt(self.spec_squared_length())
    }

    #[verifier::when_used_as_spec(spec_length)]
    pub fn length(self) -> (r: i64)
        ensures
            r == self.spec_length(),
            r >= 0,
    {
        proof {
            lemma_squared_length_nonneg(self);
        }
        fp_sqrt(self.squared_length())
    }

    pub open spec fn spec_normalized(self) -> Vec3 {
        self.spec_div_scalar(self.spec_length())
    }

    #[verifier::when_used_as_spec(spec_normalized)]
    pub fn normalized(self) -> (r: Vec3)
        ensures
            r == self.spec_normalized(),
    {
        let len: i64 = self.length();
        self.div(len)
    }

    pub open spec fn spec_cross(self, o: Vec3) -> Vec3 {
        Vec3 {
            x: spec_sub(spec_mul(self.y, o.z), spec_mul(self.z, o.y)),
            y: spec_sub(spec_mul(self.z, o.x), spec_mul(self.x, o.z)),
            z: spec_sub(spec_mul(self.x, o.y), spec_mul(self.y, o.x)),
        }
    }

    #[verifier::when_used_as_spec(spec_cross)]
    pub fn cross(self, o: Vec3) -> (r: Vec3)
        ensures
            r == self.spec_cross(o),
    {
        Vec3 {
            x: fp_sub(fp_mul(self.y, o.z), fp_mul(self.z, o.y)),
            y: fp_sub(fp_mul(self.z, o.x), fp_mul(self.x, o.z)),
            z: fp_sub(fp_mul(self.x, o.y), fp_mul(self.y, o.x)),
        }
    }

    pub open spec fn spec_near_zero(self) -> bool {
        mag(self.x as int) < FP_NEAR_EPS && mag(self.y as int) < FP_NEAR_EPS && mag(
            self.z as int,
        ) < FP_NEAR_EPS
    }

    #[verifier::when_used_as_spec(spec_near_zero)]
    pub fn near_zero(self) -> (r: bool)
        ensures
            r == self.spec_near_zero(),
    {
        let nx: bool = self.x < FP_NEAR_EPS && self.x > -FP_NEAR_EPS;
        let ny: bool = self.y < FP_NEAR_EPS && self.y > -FP_NEAR_EPS;
        let nz: bool = self.z < FP_NEAR_EPS && self.z > -FP_NEAR_EPS;
        nx && ny && nz
    }

    pub open spec fn spec_min_v(a: Vec3, b: Vec3) -> Vec3 {
        Vec3 {
            x: if a.x <= b.x { a.x } else { b.x },
            y: if a.y <= b.y { a.y } else { b.y },
            z: if a.z <= b.z { a.z } else { b.z },
        }
    }

    #[verifier::when_used_as_spec(spec_min_v)]
    pub fn new_min(a: Vec3, b: Vec3) -> (r: Vec3)
        ensures
            r == Vec3::spec_min_v(a, b),
    {
        Vec3 {
            x: if a.x <= b.x { a.x } else { b.x },
            y: if a.y <= b.y { a.y } else { b.y },
            z: if a.z <= b.z { a.z } else { b.z },
        }
    }

    pub open spec fn spec_max_v(a: Vec3, b: Vec3) -> Vec3 {
        Vec3 {
            x: if a.x >= b.x { a.x } else { b.x },
            y: if a.y >= b.y { a.y } else { b.y },
            z: if a.z >= b.z { a.z } else { b.z },
        }
    }

    #[verifier::when_used_as_spec(spec_max_v)]
    pub fn new_max(a: Vec3, b: Vec3) -> (r: Vec3)
        ensures
            r == Vec3::spec_max_v(a, b),
    {
        Vec3 {
            x: if a.x >= b.x { a.x } else { b.x },
            y: if a.y >= b.y { a.y } else { b.y },
            z: if a.z >= b.z { a.z } else { b.z },
        }
    }

    /// Mirror reflection about a normal: `v - 2 (v . n) n`.
    pub open spec fn spec_reflect(self, n: Vec3) -> Vec3 {
        self.spec_sub_v(n.spec_scale(spec_mul(crate::fixed::spec_from_int(2), self.spec_dot(n))))
    }

    #[verifier::when_used_as_spec(spec_reflect)]
    pub fn reflect(self, n: Vec3) -> (r: Vec3)
        ensures
            r == self.spec_reflect(n),
    {
        let two: i64 = crate::fixed::fp_from_int(2);
        let d: i64 = self.dot(n);
        self.sub(n.scale(fp_mul(two, d)))
    }

    /// Refraction by Snell's law with relative index `etai_over_etat`.
    pub open spec fn spec_refract(self, n: Vec3, etai_over_etat: i64) -> Vec3 {
        let cos = spec_neg(n.spec_dot(self));
        let cos = if cos <= FP_ONE { cos } else { FP_ONE };
        let perp = self.spec_add_v(n.spec_scale(cos)).spec_scale(etai_over_etat);
        let parallel_len = spec_sqrt(
            crate::fixed::spec_abs(spec_sub(FP_ONE, perp.spec_squared_length())),
        );
        perp.spec_add_v(n.spec_scale(spec_neg(parallel_len)))
    }

    #[verifier::when_used_as_spec(spec_refract)]
    pub fn refract(self, n: Vec3, etai_over_etat: i64) -> (r: Vec3)
        ensures
            r == self.spec_refract(n, etai_over_etat),
    {
        let cos: i64 = fp_neg(n.dot(self));
        let cos: i64 = if cos <= FP_ONE {
            cos
        } else {
            FP_ONE
        };
        let perp: Vec3 = self.add(n.scale(cos)).scale(etai_over_etat);
        let parallel_len: i64 = fp_sqrt(crate::fixed::fp_abs(fp_sub(FP_ONE, perp.squared_length())));
        perp.add(n.scale(fp_neg(parallel_len)))
    }
}

/// A fixed-point square is never negative.
pub proof fn lemma_square_nonneg(a: i64)
    ensures
        spec_mul(a, a) >= 0,
{
    assert(a * a >= 0) by (nonlinear_arith);
    assert(mag(a * a) == a * a);
}

/// Squared lengths are never negative.
pub proof fn lemma_squared_length_nonneg(v: Vec3)
    ensures
        v.spec_squared_length() >= 0,
{
    lemma_square_nonneg(v.x);
    lemma_square_nonneg(v.y);
    lemma_square_nonneg(v.z);
}


/// The unit vector is the unit of component-wise multiplication, and the
/// zero vector annihilates.
pub proof fn lemma_mul_v_unit(v: Vec3)
    ensures
        Vec3::spec_one().spec_mul_v(v) == v,
        v.spec_mul_v(Vec3::spec_one()) == v,
        v.spec_mul_v(Vec3::spec_zero()) == Vec3::spec_zero(),
        Vec3::spec_zero().spec_mul_v(v) == Vec3::spec_zero(),
{
    crate::fixed::lemma_mul_unit(v.x);
    crate::fixed::lemma_mul_unit(v.y);
    crate::fixed::lemma_mul_unit(v.z);
}

} // verus!

