//! Rays, boxes and the slab test.

use raytracer::aabb::AABB;
use raytracer::camera::Camera;
use raytracer::fixed::{fp_div, fp_from_int, fp_mul, fp_sqrt, FP_ONE};
use raytracer::ray::{Ray, TRange};
use raytracer::vec3::Vec3;

fn to_f64(v: i64) -> f64 {
    v as f64 / FP_ONE as f64
}

fn len_f64(v: Vec3) -> f64 {
    let (x, y, z) = (to_f64(v.x), to_f64(v.y), to_f64(v.z));
    (x * x + y * y + z * z).sqrt()
}

#[test]
fn test_at() {
    let origin = Vec3::new(0, 0, 0);
    let direction = Vec3::new(fp_from_int(1), fp_from_int(1), fp_from_int(-1));
    let ray = Ray::new(origin, direction);

    let t = fp_sqrt(fp_from_int(3));
    let expected = Vec3::new(fp_from_int(1), fp_from_int(1), fp_from_int(-1));
    assert!(len_f64(ray.at(t).sub(expected)) < 1e-6);
}

#[test]
fn test_new() {
    let focal_length = fp_from_int(1);
    // the tangent of half a ten-degree defocus cone
    let defocus_half_tan = 1467828;
    let position = Vec3::new(0, 0, 0);
    let look_at = Vec3::new(0, 0, fp_from_int(1));
    let up = Vec3::new(0, fp_from_int(1), 0);
    // vertical field of view of ninety degrees: the half tangent is one
    let half_fov_tan = FP_ONE;
    let width = 16usize;
    let height = 9usize;
    let aspect_ratio = fp_div(fp_from_int(width as i64), fp_from_int(height as i64));

    let camera = Camera::new(
        focal_length,
        defocus_half_tan,
        position,
        look_at,
        up,
        half_fov_tan,
        width,
        height,
    );

    assert_eq!(camera.position, position);
    assert_eq!(
        camera.viewport_upper_left,
        Vec3::new(aspect_ratio, fp_from_int(1), fp_from_int(1))
    );
    assert_eq!(camera.forward, Vec3::new(0, 0, fp_from_int(-1)));
    assert_eq!(
        camera.horizontal,
        Vec3::new(fp_mul(fp_from_int(-2), aspect_ratio), 0, 0)
    );
    assert_eq!(camera.vertical, Vec3::new(0, fp_from_int(2), 0));
}

#[test]
fn slab_test_hits_and_misses() {
    let one = fp_from_int(1);
    let b = AABB::new(Vec3::new(-one, -one, -one), Vec3::new(one, one, one));
    let full = TRange { start: 0, end: i64::MAX };

    // a ray toward the box hits, a ray away from it misses
    let toward = Ray::new(Vec3::new(0, 0, fp_from_int(-5)), Vec3::new(0, 0, one));
    assert!(b.intersect(toward, full));
    let away = Ray::new(Vec3::new(0, 0, fp_from_int(-5)), Vec3::new(0, 0, -one));
    assert!(!b.intersect(away, full));

    // a parallel ray outside the slab misses, one inside passes
    let outside = Ray::new(Vec3::new(fp_from_int(5), fp_from_int(5), fp_from_int(-5)), Vec3::new(0, 0, one));
    assert!(!b.intersect(outside, full));
    let inside = Ray::new(Vec3::new(0, 0, 0), Vec3::new(0, 0, one));
    assert!(b.intersect(inside, full));
}

#[test]
fn slab_test_entry_exit_narrowing() {
    // The box is padded by 839 units per side, so the true entry of a
    // unit-speed axis ray from z = -5 lies at t = 4 less the padding.
    let one = fp_from_int(1);
    let b = AABB::new(Vec3::new(-one, -one, -one), Vec3::new(one, one, one));
    let toward = Ray::new(Vec3::new(0, 0, fp_from_int(-5)), Vec3::new(0, 0, one));
    let entry = fp_from_int(4) - 839;
    let exit = fp_from_int(6) + 839;

    // ranges ending before entry or starting after exit are rejected
    assert!(!b.intersect(toward, TRange { start: 0, end: entry }));
    assert!(b.intersect(toward, TRange { start: 0, end: entry + 2 }));
    assert!(b.intersect(toward, TRange { start: exit - 2, end: i64::MAX }));
    assert!(!b.intersect(toward, TRange { start: exit + 2, end: i64::MAX }));
}

#[test]
fn longest_axis_tie_break() {
    let one = fp_from_int(1);
    let b = AABB::new(Vec3::new(0, 0, 0), Vec3::new(one, one, one));
    // equal extents: the later axis wins
    assert_eq!(b.longest_axis(), 2);
    let wide = AABB::new(Vec3::new(0, 0, 0), Vec3::new(fp_from_int(5), one, one));
    assert_eq!(wide.longest_axis(), 0);
    let tall = AABB::new(Vec3::new(0, 0, 0), Vec3::new(one, fp_from_int(5), one));
    assert_eq!(tall.longest_axis(), 1);
}

#[test]
fn merged_box_contains_both() {
    let one = fp_from_int(1);
    let a = AABB::new(Vec3::new(-one, 0, 0), Vec3::new(0, one, 0));
    let b = AABB::new(Vec3::new(0, -one, 0), Vec3::new(one, 0, one));
    let m = AABB::merge(a, b);
    assert!(m.min().x <= a.min().x && m.min().x <= b.min().x);
    assert!(m.max().z >= a.max().z && m.max().z >= b.max().z);
}
