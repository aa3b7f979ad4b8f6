//! Pure filename rules of the batch driver: which directory entries count
//! as image files, and what the converted copy of a file is called.

use vstd::prelude::*;

verus! {

/// ASCII code of '.'.
pub const DOT: u8 = 46;

/// ASCII code of '_'.
pub const UNDERSCORE: u8 = 95;

/// ASCII code of 'e'.
pub const LOWER_E: u8 = 101;

/// ASCII code of 'g'.
pub const LOWER_G: u8 = 103;

/// ASCII code of 'j'.
pub const LOWER_J: u8 = 106;

/// ASCII code of 'n'.
pub const LOWER_N: u8 = 110;

/// ASCII code of 'o'.
pub const LOWER_O: u8 = 111;

/// ASCII code of 'p'.
pub const LOWER_P: u8 = 112;

/// ASCII code of 't'.
pub const LOWER_T: u8 = 116;

/// ASCII code of 'u'.
pub const LOWER_U: u8 = 117;

/// True when `name` ends with `suffix`.
pub open spec fn ends_with(name: Seq<u8>, suffix: Seq<u8>) -> bool {
    name.len() >= suffix.len() && name.subrange(
        name.len() - suffix.len(),
        name.len() as int,
    ) == suffix
}

/// The bytes of ".jpg".
pub open spec fn jpg_suffix() -> Seq<u8> {
    seq![DOT, LOWER_J, LOWER_P, LOWER_G]
}

/// The bytes of ".jpeg".
pub open spec fn jpeg_suffix() -> Seq<u8> {
    seq![DOT, LOWER_J, LOWER_P, LOWER_E, LOWER_G]
}

/// The bytes of ".png".
pub open spec fn png_suffix() -> Seq<u8> {
    seq![DOT, LOWER_P, LOWER_N, LOWER_G]
}

/// A file name is accepted when it ends with ".jpg", ".jpeg" or ".png"
/// (a case-sensitive match).
pub open spec fn is_supported_name(name: Seq<u8>) -> bool {
    ends_with(name, jpg_suffix()) || ends_with(name, jpeg_suffix()) || ends_with(
        name,
        png_suffix(),
    )
}

/// Compares the end of `name` against `suffix`.
fn ends_with_bytes(name: &Vec<u8>, suffix: &Vec<u8>) -> (r: bool)
    ensures
        r == ends_with(name@, suffix@),
{
    if name.len() < suffix.len() {
        return false;
    }
    let off: usize = name.len() - suffix.len();
    let mut i: usize = 0;
    while i < suffix.len()
        invariant
            name@.len() <= usize::MAX,
            name@.len() >= suffix@.len(),
            off == name@.len() - suffix@.len(),
            i <= suffix@.len(),
            forall|t: int| 0 <= t < i ==> name@[off + t] == suffix@[t],
        decreases suffix@.len() - i,
    {
        if name[off + i] != suffix[i] {
            return false;
        }
        i = i + 1;
    }
    proof {
        assert(name@.subrange(name@.len() - suffix@.len(), name@.len() as int) =~= suffix@);
    }
    true
}

/// Decides whether a file name (as bytes) carries one of the accepted
/// image suffixes ".jpg", ".jpeg" or ".png", matched case-sensitively.
pub fn is_supported_image_name(name: &Vec<u8>) -> (r: bool)
    ensures
        r == is_supported_name(name@),
{
    let mut jpg: Vec<u8> = Vec::new();
    jpg.push(DOT);
    jpg.push(LOWER_J);
    jpg.push(LOWER_P);
    jpg.push(LOWER_G);
    proof {
        assert(jpg@ =~= jpg_suffix());
    }
    if ends_with_bytes(name, &jpg) {
        return true;
    }
    let mut jpeg: Vec<u8> = Vec::new();
    jpeg.push(DOT);
    jpeg.push(LOWER_J);
    jpeg.push(LOWER_P);
    jpeg.push(LOWER_E);
    jpeg.push(LOWER_G);
    proof {
        assert(jpeg@ =~= jpeg_suffix());
    }
    if ends_with_bytes(name, &jpeg) {
        return true;
    }
    let mut png: Vec<u8> = Vec::new();
    png.push(DOT);
    png.push(LOWER_P);
    png.push(LOWER_N);
    png.push(LOWER_G);
    proof {
        assert(png@ =~= png_suffix());
    }
    ends_with_bytes(name, &png)
}

/// The bytes of "_output.jpg", the tail of every output file name.
pub open spec fn output_suffix() -> Seq<u8> {
    seq![UNDERSCORE, LOWER_O, LOWER_U, LOWER_T, LOWER_P, LOWER_U, LOWER_T, DOT, LOWER_J, LOWER_P, LOWER_G]
}

/// The name of the converted copy of a file: the first 4 bytes of the
/// input name followed by "_output.jpg".
pub open spec fn output_name_of(name: Seq<u8>) -> Seq<u8> {
    name.subrange(0, 4) + output_suffix()
}

/// Builds the output file name for an input file name, and rejects a name
/// shorter than 4 bytes, for which the prefix scheme is not defined.
pub fn output_file_name(name: &Vec<u8>) -> (out: Option<Vec<u8>>)
    ensures
        match out {
            Some(o) => name@.len() >= 4 && o@ == output_name_of(name@),
            None => name@.len() < 4,
        },
{
    if name.len() < 4 {
        return None;
    }
    let mut o: Vec<u8> = Vec::new();
    o.push(name[0]);
    o.push(name[1]);
    o.push(name[2]);
    o.push(name[3]);
    o.push(UNDERSCORE);
    o.push(LOWER_O);
    o.push(LOWER_U);
    o.push(LOWER_T);
    o.push(LOWER_P);
    o.push(LOWER_U);
    o.push(LOWER_T);
    o.push(DOT);
    o.push(LOWER_J);
    o.push(LOWER_P);
    o.push(LOWER_G);
    proof {
        assert(o@ =~= output_name_of(name@));
    }
    Some(o)
}

} // verus!
