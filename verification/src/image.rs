//! The output image: a pixel buffer of fixed-point colors, with the
//! gamma correction applied when a pixel is committed.

use vstd::prelude::*;
use crate::fixed::{fp_div, fp_from_int, fp_sqrt, spec_div, spec_from_int, spec_sqrt};

verus! {

#[derive(Clone, Copy, PartialEq, Eq, Structural, Debug)]
pub struct Color {
    pub r: i64,
    pub g: i64,
    pub b: i64,
}

impl Color {
    pub open spec fn spec_new(r: i64, g: i64, b: i64) -> Color {
        Color { r, g, b }
    }

    #[verifier::when_used_as_spec(spec_new)]
    pub fn new(r: i64, g: i64, b: i64) -> (c: Color)
        ensures
            c == Color::spec_new(r, g, b),
    {
        Color { r, g, b }
    }

    pub open spec fn spec_new_grey(value: i64) -> Color {
        Color { r: value, g: value, b: value }
    }

    #[verifier::when_used_as_spec(spec_new_grey)]
    pub fn new_grey(value: i64) -> (c: Color)
        ensures
            c == Color::spec_new_grey(value),
    {
        Color { r: value, g: value, b: value }
    }

    /// Gamma correction with exponent one half: the square root of each
    /// channel, with negative channels clamped to black first. One half
    /// is the one exponent with an exact fixed-point form; a general
    /// exponent would need transcendental arithmetic, which this crate's
    /// exact numbers deliberately exclude.
    pub open spec fn spec_gamma_correction(self) -> Color {
        Color {
            r: spec_sqrt(if self.r >= 0 { self.r } else { 0i64 }),
            g: spec_sqrt(if self.g >= 0 { self.g } else { 0i64 }),
            b: spec_sqrt(if self.b >= 0 { self.b } else { 0i64 }),
        }
    }

    #[verifier::when_used_as_spec(spec_gamma_correction)]
    pub fn gamma_correction(self) -> (c: Color)
        ensures
            c == self.spec_gamma_correction(),
    {
        Color {
            r: fp_sqrt(if self.r >= 0 { self.r } else { 0 }),
            g: fp_sqrt(if self.g >= 0 { self.g } else { 0 }),
            b: fp_sqrt(if self.b >= 0 { self.b } else { 0 }),
        }
    }

    /// The color of a vector value, channel by channel.
    pub open spec fn spec_from_vec(v: crate::vec3::Vec3) -> Color {
        Color { r: v.x, g: v.y, b: v.z }
    }

    #[verifier::when_used_as_spec(spec_from_vec)]
    pub fn from_vec(v: crate::vec3::Vec3) -> (c: Color)
        ensures
            c == Color::spec_from_vec(v),
    {
        Color { r: v.x, g: v.y, b: v.z }
    }
}

pub struct Image {
    pub width: usize,
    pub height: usize,
    pub data: Vec<Color>,
    pub gamma: bool,
}

impl Image {
    /// Buffer indices are row-major.
    pub open spec fn spec_index(self, x: usize, y: usize) -> int {
        y * self.width + x
    }

    pub open spec fn wf(self) -> bool {
        self.data@.len() == self.width * self.height
    }

    fn filled(width: usize, height: usize, gamma: bool) -> (r: Image)
        requires
            width * height <= usize::MAX,
        ensures
            r.width == width,
            r.height == height,
            r.gamma == gamma,
            r.wf(),
            forall|k: int| 0 <= k < r.data@.len() ==> r.data@[k] == Color::spec_new_grey(0),
    {
        let n: usize = width * height;
        let mut data: Vec<Color> = Vec::new();
        let mut i: usize = 0;
        while i < n
            invariant
                i <= n,
                data@.len() == i,
                forall|k: int| 0 <= k < i ==> data@[k] == Color::spec_new_grey(0),
            decreases n - i,
        {
            data.push(Color::new_grey(0));
            i = i + 1;
        }
        Image { width, height, data, gamma }
    }

    /// A black image that commits pixels as they are.
    pub fn new(width: usize, height: usize) -> (r: Image)
        requires
            width * height <= usize::MAX,
        ensures
            r.width == width,
            r.height == height,
            r.gamma == false,
            r.wf(),
            forall|k: int| 0 <= k < r.data@.len() ==> r.data@[k] == Color::spec_new_grey(0),
    {
        Image::filled(width, height, false)
    }

    /// A black image that gamma-corrects every committed pixel.
    pub fn new_with_gamma_correction(width: usize, height: usize) -> (r: Image)
        requires
            width * height <= usize::MAX,
        ensures
            r.width == width,
            r.height == height,
            r.gamma == true,
            r.wf(),
            forall|k: int| 0 <= k < r.data@.len() ==> r.data@[k] == Color::spec_new_grey(0),
    {
        Image::filled(width, height, true)
    }

    /// The stored value for a committed color: corrected when the image
    /// was created with gamma correction.
    pub open spec fn spec_committed(self, color: Color) -> Color {
        if self.gamma {
            color.spec_gamma_correction()
        } else {
            color
        }
    }

    pub fn set_pixel(&mut self, x: usize, y: usize, color: Color)
        requires
            old(self).wf(),
            x < old(self).width,
            y < old(self).height,
        ensures
            final(self).wf(),
            final(self).width == old(self).width,
            final(self).height == old(self).height,
            final(self).gamma == old(self).gamma,
            final(self).data@ == old(self).data@.update(
                old(self).spec_index(x, y),
                old(self).spec_committed(color),
            ),
    {
        let n: usize = self.data.len();
        proof {
            vstd::arithmetic::mul::lemma_mul_inequality(
                y as int + 1,
                self.height as int,
                self.width as int,
            );
            assert((y + 1) * self.width == y * self.width + self.width) by (nonlinear_arith);
            assert(y * self.width + x < n);
        }
        let idx: usize = y * self.width + x;
        let committed: Color = if self.gamma {
            color.gamma_correction()
        } else {
            color
        };
        self.data.set(idx, committed);
    }

    pub fn get_pixel(&self, x: usize, y: usize) -> (r: Color)
        requires
            self.wf(),
            x < self.width,
            y < self.height,
        ensures
            r == self.data@[self.spec_index(x, y)],
    {
        let n: usize = self.data.len();
        proof {
            vstd::arithmetic::mul::lemma_mul_inequality(
                y as int + 1,
                self.height as int,
                self.width as int,
            );
            assert((y + 1) * self.width == y * self.width + self.width) by (nonlinear_arith);
            assert(y * self.width + x < n);
        }
        self.data[y * self.width + x]
    }

    pub fn size(&self) -> (r: (usize, usize))
        ensures
            r.0 == self.width,
            r.1 == self.height,
    {
        (self.width, self.height)
    }

    pub fn width(&self) -> (r: usize)
        ensures
            r == self.width,
    {
        self.width
    }

    pub fn height(&self) -> (r: usize)
        ensures
            r == self.height,
    {
        self.height
    }

    /// Width over height, in fixed point.
    pub fn aspect_ratio(&self) -> (r: i64)
        requires
            self.width as int <= i64::MAX,
            self.height as int <= i64::MAX,
        ensures
            r == spec_div(spec_from_int(self.width as i64), spec_from_int(self.height as i64)),
    {
        fp_div(fp_from_int(self.width as i64), fp_from_int(self.height as i64))
    }
}

} // verus!
