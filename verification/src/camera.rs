//! The camera: a viewport basis built from position, orientation and
//! field of view, and jittered primary rays through it.
//!
//! Angles enter as the tangent of the half angle (a plain fixed-point
//! value), so the basis is an exact function of its arguments.

use vstd::prelude::*;
use crate::fixed::{fp_div, fp_mul, fp_from_int, spec_div, spec_from_int, spec_mul, FP_ONE};
use crate::ray::Ray;
use crate::vec3::Vec3;

verus! {

#[derive(Clone, Copy, PartialEq, Eq, Structural, Debug)]
pub struct Camera {
    pub position: Vec3,
    pub viewport_upper_left: Vec3,
    pub forward: Vec3,
    pub horizontal: Vec3,
    pub vertical: Vec3,
    pub defocus_disk_u: Vec3,
    pub defocus_disk_v: Vec3,
    pub width: usize,
    pub height: usize,
}

impl Camera {
    /// The whole viewport construction: an orthonormal-ish basis from the
    /// view direction and the up vector, scaled by focus distance, field
    /// of view and aspect ratio.
    pub open spec fn spec_setup(
        focus_distance: i64,
        defocus_half_tan: i64,
        position: Vec3,
        look_at: Vec3,
        up: Vec3,
        half_fov_tan: i64,
        width: usize,
        height: usize,
    ) -> Camera {
        let viewport_height = spec_mul(spec_mul(spec_from_int(2), focus_distance), half_fov_tan);
        let aspect_ratio = spec_div(spec_from_int(width as i64), spec_from_int(height as i64));
        let viewport_width = spec_mul(aspect_ratio, viewport_height);
        let w = position.spec_sub_v(look_at).spec_normalized();
        let u = up.spec_cross(w).spec_normalized();
        let v = w.spec_cross(u).spec_normalized();
        let forward = w.spec_scale(focus_distance);
        let horizontal = u.spec_scale(viewport_width);
        let vertical = v.spec_scale(viewport_height);
        let viewport_upper_left = position.spec_sub_v(
            horizontal.spec_div_scalar(spec_from_int(2)),
        ).spec_add_v(vertical.spec_div_scalar(spec_from_int(2))).spec_sub_v(forward);
        let defocus_radius = spec_mul(focus_distance, defocus_half_tan);
        Camera {
            position,
            viewport_upper_left,
            forward,
            horizontal,
            vertical,
            defocus_disk_u: u.spec_scale(defocus_radius),
            defocus_disk_v: v.spec_scale(defocus_radius),
            width,
            height,
        }
    }

    /// Build a camera. `half_fov_tan` is the tangent of half the vertical
    /// field of view, `defocus_half_tan` the tangent of half the defocus
    /// cone angle.
    pub fn new(
        focus_distance: i64,
        defocus_half_tan: i64,
        position: Vec3,
        look_at: Vec3,
        up: Vec3,
        half_fov_tan: i64,
        width: usize,
        height: usize,
    ) -> (r: Camera)
        requires
            width as int <= i64::MAX,
            height as int <= i64::MAX,
        ensures
            r == Camera::spec_setup(
                focus_distance,
                defocus_half_tan,
                position,
                look_at,
                up,
                half_fov_tan,
                width,
                height,
            ),
    {
        let two: i64 = fp_from_int(2);
        let viewport_height: i64 = fp_mul(fp_mul(two, focus_distance), half_fov_tan);
        let aspect_ratio: i64 = fp_div(fp_from_int(width as i64), fp_from_int(height as i64));
        let viewport_width: i64 = fp_mul(aspect_ratio, viewport_height);
        let w: Vec3 = position.sub(look_at).normalized();
        let u: Vec3 = up.cross(w).normalized();
        let v: Vec3 = w.cross(u).normalized();
        let forward: Vec3 = w.scale(focus_distance);
        let horizontal: Vec3 = u.scale(viewport_width);
        let vertical: Vec3 = v.scale(viewport_height);
        let viewport_upper_left: Vec3 = position.sub(horizontal.div(two)).add(vertical.div(two))
            .sub(forward);
        let defocus_radius: i64 = fp_mul(focus_distance, defocus_half_tan);
        Camera {
            position,
            viewport_upper_left,
            forward,
            horizontal,
            vertical,
            defocus_disk_u: u.scale(defocus_radius),
            defocus_disk_v: v.scale(defocus_radius),
            width,
            height,
        }
    }

    /// The primary ray for screen coordinates `(u, v)` and a given point
    /// of the defocus disk: from a jittered origin on the disk toward the
    /// viewport point.
    pub open spec fn spec_ray_for(self, u: i64, v: i64, p: Vec3) -> Ray {
        let origin = self.position.spec_add_v(self.defocus_disk_u.spec_scale(p.x)).spec_add_v(
            self.defocus_disk_v.spec_scale(p.y),
        );
        let dir = self.viewport_upper_left.spec_add_v(self.horizontal.spec_scale(u)).spec_sub_v(
            self.vertical.spec_scale(v),
        ).spec_sub_v(origin);
        Ray::spec_new(origin, dir)
    }

    /// The ray for given screen coordinates and disk point, with nothing
    /// drawn at random.
    pub fn ray_for(&self, u: i64, v: i64, p: Vec3) -> (r: Ray)
        ensures
            r == self.spec_ray_for(u, v, p),
    {
        let origin: Vec3 = self.position.add(self.defocus_disk_u.scale(p.x)).add(
            self.defocus_disk_v.scale(p.y),
        );
        let dir: Vec3 = self.viewport_upper_left.add(self.horizontal.scale(u)).sub(
            self.vertical.scale(v),
        ).sub(origin);
        Ray::new(origin, dir)
    }

    /// The primary ray for screen coordinates `(u, v)`, jittered over the
    /// defocus disk.
    pub fn get_ray(&self, u: i64, v: i64) -> (r: Ray)
        ensures
            exists|p: Vec3|
                p.spec_squared_length() < FP_ONE && p.z == 0 && r == self.spec_ray_for(u, v, p),
    {
        let p: Vec3 = Vec3::new_random_in_unit_disk();
        let r: Ray = self.ray_for(u, v, p);
        proof {
            assert(p.spec_squared_length() < FP_ONE && p.z == 0 && r == self.spec_ray_for(u, v, p));
        }
        r
    }

    pub fn get_image_size(&self) -> (r: (usize, usize))
        ensures
            r.0 == self.width,
            r.1 == self.height,
    {
        (self.width, self.height)
    }
}

} // verus!
