//! Fixed-point scalar and vector arithmetic.

use raytracer::fixed::{fp_add, fp_div, fp_from_int, fp_mul, fp_sqrt, fp_sub, FP_HALF, FP_ONE};
use raytracer::vec3::Vec3;

#[test]
fn fixed_point_basics() {
    let one = FP_ONE;
    assert_eq!(fp_mul(one, one), one);
    assert_eq!(fp_mul(FP_HALF, FP_HALF), FP_ONE / 4);
    assert_eq!(fp_div(fp_from_int(1), fp_from_int(2)), FP_HALF);
    assert_eq!(fp_sqrt(fp_from_int(4)), fp_from_int(2));
    assert_eq!(fp_sqrt(fp_from_int(0)), 0);
    // a zero divisor saturates by the sign of the dividend
    assert_eq!(fp_div(one, 0), i64::MAX);
    assert_eq!(fp_div(-one, 0), i64::MIN);
    assert_eq!(fp_div(0, 0), 0);
    // saturation at the representable range
    assert_eq!(fp_add(i64::MAX, one), i64::MAX);
    assert_eq!(fp_sub(i64::MIN, one), i64::MIN);
}

#[test]
fn vector_test() {
    let vec1 = Vec3::new(fp_from_int(1), fp_from_int(2), fp_from_int(3));
    let vec2 = Vec3::new(fp_from_int(4), fp_from_int(5), fp_from_int(6));

    // Length
    let length = vec1.length();
    assert_eq!(length, fp_sqrt(fp_from_int(14)));

    // Dot product
    let dot_product = vec1.dot(vec2);
    assert_eq!(dot_product, fp_from_int(32));

    // Cross product
    let cross_product = vec1.cross(vec2);
    assert_eq!(cross_product, Vec3::new(fp_from_int(-3), fp_from_int(6), fp_from_int(-3)));
}

#[test]
fn arithmetic_test() {
    let vec1 = Vec3::new(fp_from_int(1), fp_from_int(2), fp_from_int(3));
    let vec2 = Vec3::new(fp_from_int(4), fp_from_int(5), fp_from_int(6));

    // Neg
    assert_eq!(vec1.neg(), Vec3::new(fp_from_int(-1), fp_from_int(-2), fp_from_int(-3)));

    // Addition
    let result = vec1.add(vec2);
    assert_eq!(result, Vec3::new(fp_from_int(5), fp_from_int(7), fp_from_int(9)));
    assert_eq!(vec1.add(vec2), vec2.add(vec1));

    // Subtraction
    let result = vec1.sub(vec2);
    assert_eq!(result, Vec3::new(fp_from_int(-3), fp_from_int(-3), fp_from_int(-3)));

    // Multiplication
    let result = vec1.scale(fp_from_int(2));
    assert_eq!(result, Vec3::new(fp_from_int(2), fp_from_int(4), fp_from_int(6)));
    let vec4 = Vec3::new(fp_from_int(1), 0, fp_from_int(7));
    let result = vec1.mul(vec4);
    assert_eq!(result, Vec3::new(fp_from_int(1), 0, fp_from_int(21)));

    // Division
    let result = vec1.div(fp_from_int(2));
    assert_eq!(result, Vec3::new(FP_HALF, fp_from_int(1), FP_ONE + FP_HALF));
    // division by zero saturates component-wise, the stand-in for infinity
    let result = vec1.div(0);
    assert_eq!(result, Vec3::new(i64::MAX, i64::MAX, i64::MAX));
}

#[test]
fn near_zero_threshold() {
    assert!(Vec3::new(1, -1, 0).near_zero());
    assert!(!Vec3::new(2, 0, 0).near_zero());
}
