//! The per-pixel grayscale transform: a weighted luminance value for the
//! colour channels, and the byte-level model of a transformed buffer.

use vstd::arithmetic::div_mod::{
    lemma_fundamental_div_mod, lemma_fundamental_div_mod_converse, lemma_mod_pos_bound,
};
use vstd::prelude::*;

verus! {

/// The luminance of a pixel's colour channels under the standard NTSC luma
/// weights 0.299, 0.587 and 0.114, with the result truncated toward zero.
pub open spec fn lum_spec(r: u8, g: u8, b: u8) -> u8 {
    ((299 * (r as int) + 587 * (g as int) + 114 * (b as int)) / 1000) as u8
}

/// Byte `i` of the grayscale image of the flat RGBA buffer `data`: the
/// alpha byte of each 4-byte pixel is kept, and each of the three colour
/// bytes is replaced by the luminance of the pixel it belongs to.
pub open spec fn gray_byte_at(data: Seq<u8>, i: int) -> u8 {
    let p = 4 * (i / 4);
    if i % 4 == 3 {
        data[i]
    } else {
        lum_spec(data[p], data[p + 1], data[p + 2])
    }
}

/// The grayscale image of the flat RGBA buffer `data`: a buffer of the
/// same length whose byte `i` is `gray_byte_at(data, i)`.
pub open spec fn gray_of(data: Seq<u8>) -> Seq<u8> {
    Seq::new(data.len(), |i: int| gray_byte_at(data, i))
}

/// The four bytes of pixel `j` of the grayscale image: the three colour
/// bytes hold the pixel's luminance and the alpha byte is kept unchanged.
pub proof fn lemma_gray_pixel_bytes(data: Seq<u8>, j: int)
    requires
        0 <= j,
        4 * j + 3 < data.len(),
    ensures
        gray_of(data)[4 * j] == lum_spec(data[4 * j], data[4 * j + 1], data[4 * j + 2]),
        gray_of(data)[4 * j + 1] == lum_spec(data[4 * j], data[4 * j + 1], data[4 * j + 2]),
        gray_of(data)[4 * j + 2] == lum_spec(data[4 * j], data[4 * j + 1], data[4 * j + 2]),
        gray_of(data)[4 * j + 3] == data[4 * j + 3],
{
    lemma_fundamental_div_mod_converse(4 * j, 4, j, 0);
    lemma_fundamental_div_mod_converse(4 * j + 1, 4, j, 1);
    lemma_fundamental_div_mod_converse(4 * j + 2, 4, j, 2);
    lemma_fundamental_div_mod_converse(4 * j + 3, 4, j, 3);
}

/// A uniform gray pixel is a fixed point of the luminance function: when
/// the three colour channels already agree, their luminance is that very
/// value.
pub proof fn lemma_lum_gray_fixed(v: u8)
    ensures
        lum_spec(v, v, v) == v,
{
    lemma_fundamental_div_mod_converse(1000 * (v as int), 1000, v as int, 0);
}

/// Alpha preservation: every alpha byte of the grayscale image equals the
/// alpha byte of the source image.
pub proof fn lemma_alpha_preserved(data: Seq<u8>)
    ensures
        forall|i: int|
            0 <= i < data.len() && i % 4 == 3 ==> #[trigger] gray_of(data)[i] == data[i],
{
}

/// Converting an already grayscale buffer changes nothing: on a buffer of
/// whole pixels whose colour channels agree within each pixel, the
/// transform is a no-op, so the transform is idempotent.
pub proof fn lemma_grayscale_idempotent(data: Seq<u8>)
    requires
        data.len() % 4 == 0,
    ensures
        gray_of(gray_of(data)) == gray_of(data),
{
    let g = gray_of(data);
    assert forall|i: int| 0 <= i < g.len() implies gray_of(g)[i] == g[i] by {
        let q = i / 4;
        lemma_fundamental_div_mod(i, 4);
        lemma_mod_pos_bound(i, 4);
        lemma_fundamental_div_mod(data.len() as int, 4);
        if i % 4 != 3 {
            lemma_fundamental_div_mod_converse(4 * q, 4, q, 0);
            lemma_fundamental_div_mod_converse(4 * q + 1, 4, q, 1);
            lemma_fundamental_div_mod_converse(4 * q + 2, 4, q, 2);
            lemma_lum_gray_fixed(lum_spec(data[4 * q], data[4 * q + 1], data[4 * q + 2]));
        }
    }
    assert(gray_of(g) =~= g);
}

/// Computes the luminance of one pixel's colour channels.
pub fn luminance(r: u8, g: u8, b: u8) -> (l: u8)
    ensures
        l == lum_spec(r, g, b),
{
    let sum: u32 = 299 * (r as u32) + 587 * (g as u32) + 114 * (b as u32);
    (sum / 1000) as u8
}

} // verus!
