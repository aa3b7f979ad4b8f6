//! The image buffer type: a row-major flat RGBA byte buffer together with
//! its fixed dimensions.

use vstd::arithmetic::div_mod::lemma_fundamental_div_mod_converse;
use vstd::arithmetic::mul::{lemma_mul_is_associative, lemma_mul_is_commutative, lemma_mul_upper_bound};
use vstd::prelude::*;

verus! {

/// A decoded image: `width * height` pixels in row-major order, each pixel
/// occupying 4 consecutive bytes (red, green, blue, alpha).  Pixel `(x, y)`
/// sits at linear pixel offset `y * width + x`.
#[derive(Debug)]
pub struct ImageBuf {
    pub width: u32,
    pub height: u32,
    pub data: Vec<u8>,
}

impl ImageBuf {
    /// A buffer is well formed when it holds exactly 4 channel bytes for
    /// each of its `width * height` pixels.
    pub open spec fn wf(self) -> bool {
        self.data@.len() == 4 * (self.width as int) * (self.height as int)
    }

    /// The number of pixels the buffer declares.
    pub open spec fn pixel_count(self) -> int {
        (self.width as int) * (self.height as int)
    }

    /// The byte length of a well-formed buffer is 4 times its pixel count.
    pub proof fn lemma_wf_len(self)
        requires
            self.wf(),
        ensures
            self.data@.len() == 4 * self.pixel_count(),
    {
        lemma_mul_is_associative(4, self.width as int, self.height as int);
    }

    /// Builds a buffer from dimensions and a flat RGBA byte vector, and
    /// rejects a vector whose length does not match the dimensions.
    pub fn try_new(width: u32, height: u32, data: Vec<u8>) -> (r: Option<ImageBuf>)
        ensures
            match r {
                Some(b) => b.wf() && b.width == width && b.height == height && b.data@ == data@,
                None => data@.len() != 4 * (width as int) * (height as int),
            },
    {
        proof {
            lemma_mul_upper_bound(
                4 * (width as int),
                (4 * 0xffff_ffff) as int,
                height as int,
                0xffff_ffff as int,
            );
        }
        let need: u128 = 4 * (width as u128) * (height as u128);
        if (data.len() as u128) == need {
            Some(ImageBuf { width, height, data })
        } else {
            None
        }
    }

    /// Returns the number of pixels of a well-formed buffer.
    pub fn pixels(&self) -> (n: usize)
        requires
            self.wf(),
        ensures
            n == self.pixel_count(),
            4 * n == self.data@.len(),
    {
        proof {
            let w = self.width as int;
            let h = self.height as int;
            lemma_mul_is_associative(4, w, h);
            lemma_mul_is_commutative(4, w * h);
            lemma_fundamental_div_mod_converse(self.data@.len() as int, 4, w * h, 0);
        }
        self.data.len() / 4
    }
}

} // verus!
