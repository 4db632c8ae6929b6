//! Fixed-point scalar arithmetic.
//!
//! Every coordinate, distance and color channel in this crate is a signed
//! 64-bit fixed-point number with `FP_ONE` as the unit: the `i64` value `v`
//! stands for the real number `v / FP_ONE`. All operations are exact integer
//! computations with truncation toward zero and saturation at the `i64`
//! range, so every result is pinned down by a spec function.

use vstd::prelude::*;

verus! {

/// The fixed-point unit: 2^24.
pub const FP_ONE: i64 = 16777216;

/// One half in fixed-point units.
pub const FP_HALF: i64 = 8388608;

/// Magnitude of an integer.
pub open spec fn mag(x: int) -> int {
    if x >= 0 {
        x
    } else {
        -x
    }
}

/// Division truncated toward zero (the semantics of hardware division).
pub open spec fn trunc_div(a: int, b: int) -> int
    recommends
        b != 0,
{
    if (a >= 0) == (b >= 0) {
        mag(a) / mag(b)
    } else {
        -(mag(a) / mag(b))
    }
}

/// Saturation into the `i64` range.
pub open spec fn fp_clip(x: int) -> i64 {
    if x > i64::MAX as int {
        i64::MAX
    } else if x < i64::MIN as int {
        i64::MIN
    } else {
        x as i64
    }
}

/// Saturating fixed-point addition.
pub open spec fn spec_add(a: i64, b: i64) -> i64 {
    fp_clip(a + b)
}

/// Saturating fixed-point subtraction.
pub open spec fn spec_sub(a: i64, b: i64) -> i64 {
    fp_clip(a - b)
}

/// Saturating negation.
pub open spec fn spec_neg(a: i64) -> i64 {
    fp_clip(-a)
}

/// Fixed-point product: `a * b / FP_ONE`, truncated, saturated.
pub open spec fn spec_mul(a: i64, b: i64) -> i64 {
    fp_clip(trunc_div(a * b, FP_ONE as int))
}

/// Fixed-point quotient: `a * FP_ONE / b`, truncated, saturated.
/// A zero divisor saturates by the sign of the dividend, the fixed-point
/// stand-in for the infinities an IEEE division would produce.
pub open spec fn spec_div(a: i64, b: i64) -> i64 {
    if b == 0 {
        if a > 0 {
            i64::MAX
        } else if a < 0 {
            i64::MIN
        } else {
            0
        }
    } else {
        fp_clip(trunc_div(a * FP_ONE, b as int))
    }
}

/// Floor of the square root, as a recursive spec definition.
pub open spec fn sqrt_floor(v: nat) -> nat
    decreases v,
{
    if v == 0 {
        0
    } else {
        let r = sqrt_floor((v - 1) as nat);
        if (r + 1) * (r + 1) <= v {
            r + 1
        } else {
            r
        }
    }
}

/// Fixed-point square root of a nonnegative fixed-point value:
/// `floor(sqrt(x / FP_ONE) * FP_ONE)`, computed as `isqrt(x * FP_ONE)`.
pub open spec fn spec_sqrt(x: i64) -> i64 {
    sqrt_floor((x * FP_ONE) as nat) as i64
}

/// Magnitude of a fixed-point value, saturated.
pub open spec fn spec_abs(a: i64) -> i64 {
    fp_clip(mag(a as int))
}

/// The fixed-point value of an integer, saturated.
pub open spec fn spec_from_int(n: i64) -> i64 {
    fp_clip(n * FP_ONE)
}

/// `sqrt_floor` is the floor of the square root.
pub proof fn lemma_sqrt_floor(v: nat)
    ensures
        sqrt_floor(v) * sqrt_floor(v) <= v,
        v < (sqrt_floor(v) + 1) * (sqrt_floor(v) + 1),
    decreases v,
{
    if v == 0 {
        assert(sqrt_floor(v) == 0);
        assert(sqrt_floor(v) * sqrt_floor(v) <= v) by (nonlinear_arith)
            requires sqrt_floor(v) == 0, v == 0;
        assert(v < (sqrt_floor(v) + 1) * (sqrt_floor(v) + 1)) by (nonlinear_arith)
            requires sqrt_floor(v) == 0, v == 0;
    } else {
        lemma_sqrt_floor((v - 1) as nat);
        let r = sqrt_floor((v - 1) as nat);
        let s = sqrt_floor(v);
        if (r + 1) * (r + 1) <= v {
            assert(s == r + 1);
            assert(v <= (r + 1) * (r + 1));
            assert(v < (s + 1) * (s + 1)) by (nonlinear_arith)
                requires s == r + 1, v <= (r + 1) * (r + 1);
            assert(s * s <= v);
        } else {
            assert(s == r);
            assert(s * s <= v);
            assert(v < (s + 1) * (s + 1));
        }
    }
}

/// Two integers both bracketing `v` between consecutive squares are equal.
pub proof fn lemma_sqrt_unique(a: nat, b: nat, v: nat)
    requires
        a * a <= v < (a + 1) * (a + 1),
        b * b <= v < (b + 1) * (b + 1),
    ensures
        a == b,
{
    if a < b {
        assert((a + 1) * (a + 1) <= b * b) by (nonlinear_arith)
            requires a < b;
    }
    if b < a {
        assert((b + 1) * (b + 1) <= a * a) by (nonlinear_arith)
            requires b < a;
    }
}

/// A product of bounded magnitudes is bounded.
pub proof fn lemma_mul_mag_bound(a: int, b: int, ma: int, mb: int)
    requires
        mag(a) <= ma,
        mag(b) <= mb,
        0 <= ma,
        0 <= mb,
    ensures
        mag(a * b) <= ma * mb,
{
    assert(mag(a * b) <= ma * mb) by (nonlinear_arith)
        requires mag(a) <= ma, mag(b) <= mb, 0 <= ma, 0 <= mb;
}

/// Saturate an `i128` into the `i64` range.
fn clip128(x: i128) -> (r: i64)
    ensures
        r == fp_clip(x as int),
{
    if x > i64::MAX as i128 {
        i64::MAX
    } else if x < i64::MIN as i128 {
        i64::MIN
    } else {
        x as i64
    }
}

#[verifier::when_used_as_spec(spec_add)]
pub fn fp_add(a: i64, b: i64) -> (r: i64)
    ensures
        r == spec_add(a, b),
{
    clip128(a as i128 + b as i128)
}

#[verifier::when_used_as_spec(spec_sub)]
pub fn fp_sub(a: i64, b: i64) -> (r: i64)
    ensures
        r == spec_sub(a, b),
{
    clip128(a as i128 - b as i128)
}

#[verifier::when_used_as_spec(spec_neg)]
pub fn fp_neg(a: i64) -> (r: i64)
    ensures
        r == spec_neg(a),
{
    clip128(-(a as i128))
}

/// Quotient of two `i128` values, truncated toward zero and saturated
/// into the `i64` range.
fn ratio128(a: i128, b: i128) -> (r: i64)
    requires
        b != 0,
        a != i128::MIN,
        b != i128::MIN,
    ensures
        r == fp_clip(trunc_div(a as int, b as int)),
{
    let neg: bool = (a < 0) != (b < 0);
    let ma: u128 = if a >= 0 {
        a as u128
    } else {
        (-a) as u128
    };
    let mb: u128 = if b >= 0 {
        b as u128
    } else {
        (-b) as u128
    };
    let q: u128 = ma / mb;
    proof {
        assert(ma == mag(a as int));
        assert(mb == mag(b as int));
        assert(q == mag(a as int) / mag(b as int));
    }
    if neg {
        if q >= 9223372036854775808u128 {
            i64::MIN
        } else {
            -(q as i64)
        }
    } else {
        if q > i64::MAX as u128 {
            i64::MAX
        } else {
            q as i64
        }
    }
}

#[verifier::when_used_as_spec(spec_mul)]
pub fn fp_mul(a: i64, b: i64) -> (r: i64)
    ensures
        r == spec_mul(a, b),
{
    proof {
        lemma_mul_mag_bound(a as int, b as int, 9223372036854775808int, 9223372036854775808int);
    }
    let p: i128 = (a as i128) * (b as i128);
    ratio128(p, FP_ONE as i128)
}

#[verifier::when_used_as_spec(spec_div)]
pub fn fp_div(a: i64, b: i64) -> (r: i64)
    ensures
        r == spec_div(a, b),
{
    if b == 0 {
        if a > 0 {
            i64::MAX
        } else if a < 0 {
            i64::MIN
        } else {
            0
        }
    } else {
        proof {
            lemma_mul_mag_bound(a as int, FP_ONE as int, 9223372036854775808int, FP_ONE as int);
        }
        ratio128((a as i128) * (FP_ONE as i128), b as i128)
    }
}

/// Integer square root on `u128`, by bisection.
fn isqrt_u128(v: u128) -> (r: u128)
    requires
        v < 309485009821345068724781056u128,
    ensures
        r * r <= v < (r + 1) * (r + 1),
{
    let mut lo: u128 = 0;
    let mut hi: u128 = 17592186044416u128;
    proof {
        assert(17592186044416u128 * 17592186044416u128 == 309485009821345068724781056u128);
    }
    while lo + 1 < hi
        invariant
            lo < hi,
            hi <= 17592186044416u128,
            lo * lo <= v,
            v < hi * hi,
        decreases hi - lo,
    {
        let mid: u128 = lo + (hi - lo) / 2;
        proof {
            assert(mid * mid <= 17592186044416u128 * 17592186044416u128) by (nonlinear_arith)
                requires mid <= 17592186044416u128;
        }
        if mid * mid <= v {
            lo = mid;
        } else {
            hi = mid;
        }
    }
    lo
}

#[verifier::when_used_as_spec(spec_sqrt)]
pub fn fp_sqrt(x: i64) -> (r: i64)
    requires
        x >= 0,
    ensures
        r == spec_sqrt(x),
        r >= 0,
{
    proof {
        lemma_mul_mag_bound(x as int, FP_ONE as int, 9223372036854775808int, FP_ONE as int);
        assert(9223372036854775808int * (FP_ONE as int) < 309485009821345068724781056int);
    }
    let v: u128 = (x as u128) * (FP_ONE as u128);
    let r: u128 = isqrt_u128(v);
    proof {
        lemma_sqrt_floor(v as nat);
        lemma_sqrt_unique(r as nat, sqrt_floor(v as nat), v as nat);
        assert(r < 18446744073709551616u128) by (nonlinear_arith)
            requires r * r <= v, v < 309485009821345068724781056u128;
        assert(r <= i64::MAX as u128) by (nonlinear_arith)
            requires r * r <= v, v < 309485009821345068724781056u128;
    }
    r as i64
}

#[verifier::when_used_as_spec(spec_abs)]
pub fn fp_abs(a: i64) -> (r: i64)
    ensures
        r == spec_abs(a),
{
    if a >= 0 {
        a
    } else {
        fp_neg(a)
    }
}

#[verifier::when_used_as_spec(spec_from_int)]
pub fn fp_from_int(n: i64) -> (r: i64)
    ensures
        r == spec_from_int(n),
{
    proof {
        lemma_mul_mag_bound(n as int, FP_ONE as int, 9223372036854775808int, FP_ONE as int);
    }
    clip128((n as i128) * (FP_ONE as i128))
}


/// `sqrt_floor` of anything a fixed-point square root can see fits in
/// `i64`, so `spec_sqrt` is nonnegative.
pub proof fn lemma_spec_sqrt_bounds(x: i64)
    requires
        x >= 0,
    ensures
        0 <= spec_sqrt(x) <= 17592186044416i64,
{
    let v = (x * FP_ONE) as nat;
    lemma_sqrt_floor(v);
    let r = sqrt_floor(v);
    assert(v < 309485009821345068724781056nat) by (nonlinear_arith)
        requires v == x * FP_ONE, 0 <= x <= 9223372036854775807int, FP_ONE == 16777216int;
    assert(r <= 17592186044416nat) by (nonlinear_arith)
        requires r * r <= v, v < 309485009821345068724781056nat;
}

/// Truncated division is monotone in the numerator for a positive divisor.
pub proof fn lemma_trunc_div_mono(a: int, b: int, d: int)
    requires
        a <= b,
        d > 0,
    ensures
        trunc_div(a, d) <= trunc_div(b, d),
{
    if a >= 0 {
        vstd::arithmetic::div_mod::lemma_div_is_ordered(a, b, d);
    } else if b < 0 {
        vstd::arithmetic::div_mod::lemma_div_is_ordered(-b, -a, d);
    } else {
        vstd::arithmetic::div_mod::lemma_div_pos_is_pos(-a, d);
        vstd::arithmetic::div_mod::lemma_div_pos_is_pos(b, d);
    }
}

/// Truncated division is odd in the divisor.
pub proof fn lemma_trunc_div_neg_denom(a: int, d: int)
    requires
        d != 0,
    ensures
        trunc_div(a, -d) == -trunc_div(a, d),
{
}

/// Fixed-point division is monotone in the dividend when the divisor is
/// nonnegative.
pub proof fn lemma_div_mono_num(a: i64, b: i64, d: i64)
    requires
        a <= b,
        d >= 0,
    ensures
        spec_div(a, d) <= spec_div(b, d),
{
    if d > 0 {
        vstd::arithmetic::mul::lemma_mul_inequality(a as int, b as int, FP_ONE as int);
        lemma_trunc_div_mono(a * FP_ONE, b * FP_ONE, d as int);
    }
}

/// Fixed-point division reverses order in the dividend when the divisor
/// is negative.
pub proof fn lemma_div_antimono_num(a: i64, b: i64, d: i64)
    requires
        a <= b,
        d < 0,
    ensures
        spec_div(b, d) <= spec_div(a, d),
{
    vstd::arithmetic::mul::lemma_mul_inequality(a as int, b as int, FP_ONE as int);
    lemma_trunc_div_mono(a * FP_ONE, b * FP_ONE, -(d as int));
    lemma_trunc_div_neg_denom(a * FP_ONE, -(d as int));
    lemma_trunc_div_neg_denom(b * FP_ONE, -(d as int));
}


/// One is the unit of fixed-point multiplication, and zero annihilates.
pub proof fn lemma_mul_unit(a: i64)
    ensures
        spec_mul(FP_ONE, a) == a,
        spec_mul(a, FP_ONE) == a,
        spec_mul(a, 0) == 0,
        spec_mul(0, a) == 0,
{
    vstd::arithmetic::div_mod::lemma_div_multiples_vanish(mag(a as int), FP_ONE as int);
    assert(mag(a * FP_ONE) == mag(a as int) * FP_ONE) by (nonlinear_arith);
    assert(mag(FP_ONE * a) == (FP_ONE as int) * mag(a as int)) by (nonlinear_arith);
    assert((FP_ONE as int) * mag(a as int) == mag(a as int) * (FP_ONE as int));
}

} // verus!


