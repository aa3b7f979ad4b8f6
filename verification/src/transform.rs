//! The grayscale transform over whole buffers, in its three realizations:
//! a sequential scan, a per-pixel parallel scan, and a parallel scan over
//! fixed-size contiguous chunks of pixels.

use crate::buffer::ImageBuf;
use crate::pixel::{gray_byte_at, gray_of, lemma_gray_pixel_bytes, luminance};
use rayon::iter::{IndexedParallelIterator, ParallelIterator};
use rayon::slice::ParallelSliceMut;
use vstd::arithmetic::div_mod::{
    lemma_fundamental_div_mod, lemma_fundamental_div_mod_converse, lemma_mod_pos_bound,
};
use vstd::arithmetic::mul::{lemma_mul_basics, lemma_mul_is_commutative, lemma_mul_is_distributive_add_other_way};
use vstd::prelude::*;
use vstd::std_specs::vec::axiom_spec_len;

verus! {

/// A configuration error reported by the transform engine.
#[derive(Clone, Copy, Debug, PartialEq, Eq, Structural)]
pub enum GrayscaleError {
    /// The requested chunk size is zero or larger than the image's pixel
    /// count.
    InvalidChunkSize,
}

/// How the transform partitions its work over the output buffer.
#[derive(Clone, Copy, Debug, PartialEq, Eq, Structural)]
pub enum Strategy {
    /// One single scan over the whole image.
    Sequential,
    /// One unit of parallel work per pixel.
    PerPixelParallel,
    /// One unit of parallel work per contiguous run of the given number of
    /// pixels, the last run clipped to the end of the buffer.
    ChunkedParallel(usize),
}

/// Converts an image to grayscale with a single row-major scan over its
/// pixels, visiting each pixel exactly once in linear order.
pub fn convert_to_grayscale(input: &ImageBuf) -> (out: ImageBuf)
    requires
        input.wf(),
    ensures
        out.wf(),
        out.width == input.width,
        out.height == input.height,
        out.data@ == gray_of(input.data@),
{
    proof {
        axiom_spec_len(&input.data);
    }
    let total: usize = input.pixels();
    let mut data: Vec<u8> = Vec::new();
    let mut j: usize = 0;
    while j < total
        invariant
            input.wf(),
            total == input.pixel_count(),
            4 * total == input.data@.len(),
            input.data@.len() <= usize::MAX,
            j <= total,
            data@.len() == 4 * j,
            forall|i: int| 0 <= i < 4 * j ==> data@[i] == gray_of(input.data@)[i],
        decreases total - j,
    {
        let base: usize = 4 * j;
        let r = input.data[base];
        let g = input.data[base + 1];
        let b = input.data[base + 2];
        let a = input.data[base + 3];
        let l = luminance(r, g, b);
        data.push(l);
        data.push(l);
        data.push(l);
        data.push(a);
        proof {
            lemma_gray_pixel_bytes(input.data@, j as int);
        }
        j = j + 1;
    }
    proof {
        assert(data@ =~= gray_of(input.data@));
    }
    ImageBuf { width: input.width, height: input.height, data }
}

/// One past the last pixel of chunk `ci` when each chunk holds `k` pixels
/// of an image of `total` pixels: the last chunk is clipped to the end.
pub open spec fn chunk_end_pixel(ci: int, k: int, total: int) -> int {
    if (ci + 1) * k <= total {
        (ci + 1) * k
    } else {
        total
    }
}

/// One per-pixel unit of parallel work: recovers the pixel position
/// `(x, y)` from the linear pixel index, reads the source pixel there, and
/// returns the 4 output bytes of that pixel.
pub fn gray_pixel_bytes(img: &ImageBuf, idx: usize) -> (px: Vec<u8>)
    requires
        img.wf(),
        idx < img.pixel_count(),
    ensures
        px@ == gray_of(img.data@).subrange(4 * idx, 4 * idx + 4),
{
    proof {
        img.lemma_wf_len();
        lemma_mul_basics(img.height as int);
        axiom_spec_len(&img.data);
    }
    let w: usize = img.width as usize;
    let x: usize = idx % w;
    let y: usize = idx / w;
    proof {
        lemma_fundamental_div_mod(idx as int, w as int);
        lemma_mul_is_commutative(w as int, y as int);
    }
    let base: usize = 4 * (y * w + x);
    let r = img.data[base];
    let g = img.data[base + 1];
    let b = img.data[base + 2];
    let a = img.data[base + 3];
    let l = luminance(r, g, b);
    let mut px: Vec<u8> = Vec::new();
    px.push(l);
    px.push(l);
    px.push(l);
    px.push(a);
    proof {
        lemma_gray_pixel_bytes(img.data@, idx as int);
        assert(px@ =~= gray_of(img.data@).subrange(4 * idx, 4 * idx + 4));
    }
    px
}

/// One chunked unit of parallel work: the output bytes of the contiguous
/// run of `chunk_size` pixels starting at pixel `chunk_idx * chunk_size`,
/// clipped to the image's true pixel count.
pub fn gray_chunk_bytes(img: &ImageBuf, chunk_idx: usize, chunk_size: usize) -> (bytes: Vec<u8>)
    requires
        img.wf(),
        1 <= chunk_size <= img.pixel_count(),
        (chunk_idx as int) * (chunk_size as int) < img.pixel_count(),
    ensures
        bytes@ == gray_of(img.data@).subrange(
            4 * ((chunk_idx as int) * (chunk_size as int)),
            4 * chunk_end_pixel(chunk_idx as int, chunk_size as int, img.pixel_count()),
        ),
{
    proof {
        img.lemma_wf_len();
        lemma_mul_is_distributive_add_other_way(
            chunk_size as int,
            chunk_idx as int,
            1,
        );
        lemma_mul_basics(chunk_size as int);
        axiom_spec_len(&img.data);
    }
    let total: usize = img.pixels();
    let start: usize = chunk_idx * chunk_size;
    let end: usize = if total - start < chunk_size {
        total
    } else {
        start + chunk_size
    };
    let mut bytes: Vec<u8> = Vec::new();
    let mut j: usize = start;
    while j < end
        invariant
            img.wf(),
            start <= j <= end,
            end <= img.pixel_count(),
            4 * img.pixel_count() == img.data@.len(),
            img.data@.len() <= usize::MAX,
            bytes@ == gray_of(img.data@).subrange(4 * start as int, 4 * j as int),
        decreases end - j,
    {
        let mut px = gray_pixel_bytes(img, j);
        bytes.append(&mut px);
        proof {
            assert(bytes@ =~= gray_of(img.data@).subrange(4 * start as int, 4 * (j + 1) as int));
        }
        j = j + 1;
    }
    bytes
}

/// Relies on rayon's `par_chunks_mut(4)`, `enumerate` and `for_each`: the
/// parallel iterator hands the closure each disjoint 4-byte slice of the
/// output buffer exactly once, paired with its chunk index, and returns
/// only after every work item has finished; the chunks tile the buffer in
/// order, so slice `idx` holds output bytes `4 * idx .. 4 * idx + 4`.  The
/// closure fills its slice with the bytes of the verified
/// `gray_pixel_bytes` for pixel `idx`.
#[verifier::external_body]
fn par_gray_pixels(img: &ImageBuf) -> (out: Vec<u8>)
    requires
        img.wf(),
    ensures
        out@ == gray_of(img.data@),
{
    let mut out = vec![0u8; img.data.len()];
    out.par_chunks_mut(4).enumerate().for_each(|(idx, px)| {
        let bytes = gray_pixel_bytes(img, idx);
        px.copy_from_slice(&bytes);
    });
    out
}

/// Relies on rayon's `par_chunks_mut(4 * chunk_size)`, `enumerate` and
/// `for_each`: the parallel iterator hands the closure each disjoint
/// `4 * chunk_size`-byte slice of the output buffer exactly once (the last
/// slice may be shorter), paired with its chunk index, and returns only
/// after every work item has finished; the slices tile the buffer in
/// order, so slice `ci` starts at output byte `4 * chunk_size * ci`.  The
/// closure fills its slice with the bytes of the verified
/// `gray_chunk_bytes` for chunk `ci`, which have exactly the slice's
/// length.
#[verifier::external_body]
fn par_gray_chunks(img: &ImageBuf, chunk_size: usize) -> (out: Vec<u8>)
    requires
        img.wf(),
        1 <= chunk_size <= img.pixel_count(),
    ensures
        out@ == gray_of(img.data@),
{
    let mut out = vec![0u8; img.data.len()];
    out.par_chunks_mut(4 * chunk_size).enumerate().for_each(|(ci, chunk)| {
        let bytes = gray_chunk_bytes(img, ci, chunk_size);
        chunk.copy_from_slice(&bytes);
    });
    out
}

/// Converts an image to grayscale by scheduling one independent work item
/// per pixel across a thread pool.  Every work item owns a disjoint 4-byte
/// slice of the output buffer and only reads the input buffer, so the work
/// items need no synchronization and the output does not depend on their
/// scheduling order.
pub fn convert_to_grayscale_par(input: &ImageBuf) -> (out: ImageBuf)
    requires
        input.wf(),
    ensures
        out.wf(),
        out.width == input.width,
        out.height == input.height,
        out.data@ == gray_of(input.data@),
{
    let data = par_gray_pixels(input);
    ImageBuf { width: input.width, height: input.height, data }
}

/// Converts an image to grayscale by scheduling one independent work item
/// per contiguous run of `chunk_size` pixels, the last run clipped to the
/// image's true pixel count.  Every work item owns a disjoint slice of the
/// output buffer, so the work items need no synchronization and the output
/// does not depend on their scheduling order.  A `chunk_size` of zero or
/// larger than the image's pixel count is a configuration error.
pub fn convert_to_grayscale_par_chunks(input: &ImageBuf, chunk_size: usize) -> (out: Result<
    ImageBuf,
    GrayscaleError,
>)
    requires
        input.wf(),
    ensures
        match out {
            Ok(o) => {
                &&& 1 <= chunk_size <= input.pixel_count()
                &&& o.wf()
                &&& o.width == input.width
                &&& o.height == input.height
                &&& o.data@ == gray_of(input.data@)
            },
            Err(e) => {
                &&& chunk_size == 0 || chunk_size > input.pixel_count()
                &&& e == GrayscaleError::InvalidChunkSize
            },
        },
{
    let total: usize = input.pixels();
    if chunk_size == 0 || chunk_size > total {
        return Err(GrayscaleError::InvalidChunkSize);
    }
    let data = par_gray_chunks(input, chunk_size);
    Ok(ImageBuf { width: input.width, height: input.height, data })
}

/// Applies the grayscale transform to a whole image buffer under the given
/// work-partitioning strategy.  All strategies produce the same output;
/// only a chunked run with an invalid chunk size is rejected.
pub fn transform(input: &ImageBuf, strategy: Strategy) -> (out: Result<ImageBuf, GrayscaleError>)
    requires
        input.wf(),
    ensures
        match out {
            Ok(o) => {
                &&& o.wf()
                &&& o.width == input.width
                &&& o.height == input.height
                &&& o.data@ == gray_of(input.data@)
                &&& match strategy {
                    Strategy::ChunkedParallel(k) => 1 <= k <= input.pixel_count(),
                    _ => true,
                }
            },
            Err(e) => {
                &&& e == GrayscaleError::InvalidChunkSize
                &&& match strategy {
                    Strategy::ChunkedParallel(k) => k == 0 || k > input.pixel_count(),
                    _ => false,
                }
            },
        },
{
    match strategy {
        Strategy::Sequential => Ok(convert_to_grayscale(input)),
        Strategy::PerPixelParallel => Ok(convert_to_grayscale_par(input)),
        Strategy::ChunkedParallel(k) => convert_to_grayscale_par_chunks(input, k),
    }
}

/// The chunked strategy's mathematical model: the grayscale of each run of
/// `k` pixels in turn, the last run clipped to the end of the buffer.
pub open spec fn gray_chunks_of(data: Seq<u8>, k: int) -> Seq<u8>
    decreases data.len(),
{
    if k < 1 || data.len() <= 4 * k {
        gray_of(data)
    } else {
        gray_of(data.subrange(0, 4 * k)) + gray_chunks_of(
            data.subrange(4 * k, data.len() as int),
            k,
        )
    }
}

/// Byte `i` of a buffer's grayscale image only depends on the pixel byte
/// `i` belongs to, so dropping later whole pixels does not change it.
proof fn lemma_gray_byte_split_low(data: Seq<u8>, m: int, i: int)
    requires
        0 <= i < 4 * m <= data.len(),
    ensures
        gray_byte_at(data.subrange(0, 4 * m), i) == gray_byte_at(data, i),
{
    lemma_fundamental_div_mod(i, 4);
    lemma_mod_pos_bound(i, 4);
}

/// Byte `i` of a buffer's grayscale image only depends on the pixel byte
/// `i` belongs to, so dropping earlier whole pixels shifts it in place.
proof fn lemma_gray_byte_split_high(data: Seq<u8>, m: int, i: int)
    requires
        data.len() % 4 == 0,
        0 <= m,
        4 * m <= i < data.len(),
    ensures
        gray_byte_at(data.subrange(4 * m, data.len() as int), i - 4 * m) == gray_byte_at(data, i),
{
    let q = i / 4;
    let r = i % 4;
    lemma_fundamental_div_mod(i, 4);
    lemma_mod_pos_bound(i, 4);
    lemma_fundamental_div_mod_converse(i - 4 * m, 4, q - m, r);
    lemma_fundamental_div_mod(data.len() as int, 4);
}

/// Grayscale conversion treats every pixel independently: converting a
/// buffer equals converting any leading run of whole pixels and the rest
/// of the buffer separately.
pub proof fn lemma_gray_split(data: Seq<u8>, m: int)
    requires
        data.len() % 4 == 0,
        0 <= 4 * m <= data.len(),
    ensures
        gray_of(data) == gray_of(data.subrange(0, 4 * m)) + gray_of(
            data.subrange(4 * m, data.len() as int),
        ),
{
    let head = data.subrange(0, 4 * m);
    let tail = data.subrange(4 * m, data.len() as int);
    assert forall|i: int| 0 <= i < data.len() implies (gray_of(head) + gray_of(tail))[i]
        == gray_of(data)[i] by {
        if i < 4 * m {
            lemma_gray_byte_split_low(data, m, i);
        } else {
            lemma_gray_byte_split_high(data, m, i);
        }
    }
    assert(gray_of(data) =~= gray_of(head) + gray_of(tail));
}

/// Equivalence of the partitioning strategies: splitting a buffer of whole
/// pixels into runs of `k` pixels and converting each run on its own gives
/// exactly the sequential whole-buffer conversion, for every positive `k`.
/// With `k == 1` this covers the per-pixel partitioning as well.
pub proof fn lemma_chunked_equals_sequential(data: Seq<u8>, k: int)
    requires
        k >= 1,
        data.len() % 4 == 0,
    ensures
        gray_chunks_of(data, k) == gray_of(data),
    decreases data.len(),
{
    if data.len() > 4 * k {
        let tail = data.subrange(4 * k, data.len() as int);
        lemma_fundamental_div_mod(data.len() as int, 4);
        lemma_fundamental_div_mod_converse(
            data.len() - 4 * k,
            4,
            data.len() as int / 4 - k,
            0,
        );
        lemma_chunked_equals_sequential(tail, k);
        lemma_gray_split(data, k);
    }
}

} // verus!
