//! A grayscale transform engine for flat RGBA pixel buffers.
//!
//! The engine replaces every pixel's red, green and blue channels by a
//! weighted luminance value and keeps the alpha channel unchanged.  It
//! offers three realizations of the same transform, differing only in how
//! the work is partitioned: a whole-image sequential scan, a per-pixel
//! parallel scan, and a parallel scan over fixed-size contiguous chunks of
//! pixels.  All three are proved to produce the same output.

pub mod buffer;
pub mod naming;
pub mod pixel;
pub mod transform;
