//! Pictures that the window cannot read by itself.
use crate::codes::{
    is_opacity_overfull, is_picture_overfull, opacity_overfull, picture_overfull,
};
use crate::text::{ascii_lower, same_str, to_ascii_lower};
use crate::views::opt_view;
use vstd::prelude::*;
use vstd::slice::slice_subrange;

verus! {

broadcast use crate::views::group_views;

/// A picture: four bytes for each point, row by row.
#[derive(Debug, PartialEq, Eq)]
pub struct Picture {
    pub pixels: Vec<u8>,
    pub width: u32,
    pub height: u32,
}

pub struct PictureModel {
    pub pixels: Seq<u8>,
    pub width: u32,
    pub height: u32,
}

impl View for Picture {
    type V = PictureModel;

    open spec fn view(&self) -> PictureModel {
        PictureModel { pixels: self.pixels@, width: self.width, height: self.height }
    }
}

/// The number that stands in two bytes, the lower one first.
pub open spec fn short_at(bytes: Seq<u8>, i: int) -> int {
    bytes[i] + 256 * bytes[i + 1]
}

/// The number that stands in three bytes, the lowest one first.
pub open spec fn triple_at(bytes: Seq<u8>, i: int) -> int {
    short_at(bytes, i) + 65_536 * bytes[i + 2]
}

/// The number that stands in four bytes, the lowest one first.
pub open spec fn long_at(bytes: Seq<u8>, i: int) -> int {
    short_at(bytes, i) + 65_536 * short_at(bytes, i + 2)
}

/// Whether a chunk of this name begins at `i`.
pub open spec fn is_chunk(bytes: Seq<u8>, i: int, name: Seq<u8>) -> bool {
    bytes[i] == name[0] && bytes[i + 1] == name[1] && bytes[i + 2] == name[2] && bytes[i + 3]
        == name[3]
}

/// The room that a chunk of this size takes: an even number of bytes, except
/// that the largest size takes no more.
pub open spec fn padded(size: int) -> int {
    if size % 2 == 1 && size < u32::MAX {
        size + 1
    } else {
        size
    }
}

/// How much of `len` is left at `position`.
pub open spec fn left_of(len: int, position: int) -> int {
    if position < len {
        len - position
    } else {
        0
    }
}

/// Where the first chunk of this name begins, among those from `position` up to
/// `end`.
pub open spec fn first_chunk(bytes: Seq<u8>, position: int, end: int, name: Seq<u8>) -> Option<int>
    decreases left_of(bytes.len() as int, position),
{
    if position < 0 || position >= end || position + 8 > bytes.len() {
        None
    } else if is_chunk(bytes, position, name) {
        Some(position)
    } else {
        first_chunk(bytes, position + 8 + padded(long_at(bytes, position + 4)), end, name)
    }
}

/// What stands in the chunk at `p`, as far as there is anything.
pub open spec fn chunk_data(bytes: Seq<u8>, p: int) -> Seq<u8> {
    let end = p + 8 + long_at(bytes, p + 4);
    bytes.subrange(
        p + 8,
        if end < bytes.len() {
            end
        } else {
            bytes.len() as int
        },
    )
}

/// Whether the file has chunks after one that says what they are.
pub open spec fn is_extended(bytes: Seq<u8>) -> bool {
    bytes.len() >= 30 && is_chunk(bytes, 12, seq![86u8, 80, 56, 88])
}

/// Whether an extended file is an animation.
pub open spec fn is_animated(bytes: Seq<u8>) -> bool {
    bytes[20] & 2u8 != 0
}

/// The first chunk of this name in an extended file.
pub open spec fn top_chunk(bytes: Seq<u8>, name: Seq<u8>) -> Option<int> {
    let from = 20 + padded(long_at(bytes, 16));
    let room = long_at(bytes, 4) - 12;
    first_chunk(
        bytes,
        from,
        if room > 0 {
            from + room
        } else {
            from
        },
        name,
    )
}

/// Where the first frame of an extended file begins.
pub open spec fn first_frame(bytes: Seq<u8>) -> Option<int> {
    top_chunk(bytes, seq![65u8, 78, 77, 70])
}

/// Whether a picture cannot be set into a frame of this size. Where the two
/// differ, the picture is set in line after line, and what is left of the frame
/// behind an even number of lines after the first has to be like a line.
pub open spec fn is_misfit(frame: (int, int), picture: (int, int)) -> bool {
    let rest = (frame.0 * frame.1 - picture.0) % (2 * picture.0);
    ||| picture.0 == 0
    ||| picture.1 == 0
    ||| picture.0 * picture.1 > frame.0 * frame.1
    ||| rest != 0 && (picture.1 % 2 == 1 || picture.0 % 2 == 0 && rest % 2 == 1)
}

/// The size of the frame that begins at `p`.
pub open spec fn frame_size(bytes: Seq<u8>, p: int) -> (int, int) {
    (triple_at(bytes, p + 14) + 1, triple_at(bytes, p + 17) + 1)
}

/// Whether the frame that begins at `p` has a part of its own for the opacity,
/// and the picture behind it cannot be set into the frame.
pub open spec fn is_torn(bytes: Seq<u8>, p: int) -> bool {
    &&& p + 32 <= bytes.len()
    &&& is_chunk(bytes, p + 24, seq![65u8, 76, 80, 72])
    &&& {
        let q = p + 40 + padded(long_at(bytes, p + 28));
        q + 10 <= bytes.len() && is_misfit(
            frame_size(bytes, p),
            (short_at(bytes, q + 6) % 16_384, short_at(bytes, q + 8) % 16_384),
        )
    }
}

/// Whether the bytes are an animation whose first frame is torn.
pub open spec fn starts_torn(bytes: Seq<u8>) -> bool {
    is_extended(bytes) && is_animated(bytes) && (first_frame(bytes) matches Some(p) && is_torn(
        bytes,
        p,
    ))
}

/// Whether a lossless picture or opacity of this size is one that is read.
pub open spec fn is_readable_size(size: (int, int)) -> bool {
    size.0 <= 16_384 && size.1 <= 16_384
}

/// Whether the frame that begins at `p` begins with an over-full code.
pub open spec fn frame_overfull(bytes: Seq<u8>, p: int) -> bool {
    p + 32 <= bytes.len() && if is_chunk(bytes, p + 24, seq![86u8, 80, 56, 76]) {
        picture_overfull(chunk_data(bytes, p + 24))
    } else {
        is_chunk(bytes, p + 24, seq![65u8, 76, 80, 72]) && is_readable_size(frame_size(bytes, p))
            && opacity_overfull(
            chunk_data(bytes, p + 24),
            frame_size(bytes, p).0,
            frame_size(bytes, p).1,
        )
    }
}

/// The first chunk of this name, or, where there is none, that among the two
/// with which the first frame begins.
pub open spec fn any_chunk(bytes: Seq<u8>, name: Seq<u8>) -> Option<int> {
    match (top_chunk(bytes, name), first_frame(bytes)) {
        (Some(p), _) => Some(p),
        (None, None) => None,
        (None, Some(p)) => if p + 32 > bytes.len() {
            None
        } else if is_chunk(bytes, p + 24, name) {
            Some(p + 24)
        } else {
            let q = p + 32 + padded(long_at(bytes, p + 28));
            if q <= p + long_at(bytes, p + 4) && q + 8 <= bytes.len() && is_chunk(bytes, q, name) {
                Some(q)
            } else {
                None
            }
        },
    }
}

/// Whether the picture that the bytes hold has an over-full code.
pub open spec fn is_overfull(bytes: Seq<u8>) -> bool {
    if bytes.len() >= 20 && is_chunk(bytes, 12, seq![86u8, 80, 56, 76]) {
        picture_overfull(chunk_data(bytes, 12))
    } else if !is_extended(bytes) {
        false
    } else if is_animated(bytes) {
        first_frame(bytes) matches Some(p) && frame_overfull(bytes, p)
    } else {
        match any_chunk(bytes, seq![86u8, 80, 56, 76]) {
            Some(p) => picture_overfull(chunk_data(bytes, p)),
            None => {
                let size = (triple_at(bytes, 24) + 1, triple_at(bytes, 27) + 1);
                bytes[20] & 16u8 != 0 && is_readable_size(size) && (any_chunk(
                    bytes,
                    seq![65u8, 76, 80, 72],
                ) matches Some(p) && opacity_overfull(chunk_data(bytes, p), size.0, size.1))
            },
        }
    }
}

/// Whether the decoder cannot be given the bytes.
pub open spec fn is_broken(bytes: Seq<u8>) -> bool {
    starts_torn(bytes) || is_overfull(bytes)
}

fn short_of(bytes: &[u8], i: usize) -> (r: u32)
    requires
        i + 2 <= bytes.len(),
    ensures
        r == short_at(bytes@, i as int),
        r < 65_536,
{
    bytes[i] as u32 + 256 * bytes[i + 1] as u32
}

fn long_of(bytes: &[u8], i: usize) -> (r: u64)
    requires
        i + 4 <= bytes.len(),
    ensures
        r == long_at(bytes@, i as int),
        r <= u32::MAX,
{
    short_of(bytes, i) as u64 + 65_536 * short_of(bytes, i + 2) as u64
}

fn is_chunk_of(bytes: &[u8], i: usize, name: [u8; 4]) -> (r: bool)
    requires
        i + 4 <= bytes.len(),
    ensures
        r == is_chunk(bytes@, i as int, name@),
{
    bytes[i] == name[0] && bytes[i + 1] == name[1] && bytes[i + 2] == name[2] && bytes[i + 3]
        == name[3]
}

fn padded_size(size: u64) -> (r: u64)
    requires
        size <= u32::MAX,
    ensures
        r == padded(size as int),
        r <= u32::MAX,
{
    if size % 2 == 1 && size < 0xffff_ffff {
        size + 1
    } else {
        size
    }
}

fn find_chunk(bytes: &[u8], from: u64, end: u64, name: [u8; 4]) -> (r: Option<usize>)
    ensures
        first_chunk(bytes@, from as int, end as int, name@) == (match r {
            Some(p) => Some(p as int),
            None => None::<int>,
        }),
        r matches Some(p) ==> p + 8 <= bytes.len(),
{
    let mut position: u128 = from as u128;
    let len: u128 = bytes.len() as u128;
    while position < end as u128 && position + 8 <= len
        invariant
            len == bytes.len(),
            position <= 0x2_0000_0000_0000_0000,
            first_chunk(bytes@, from as int, end as int, name@) == first_chunk(
                bytes@,
                position as int,
                end as int,
                name@,
            ),
        decreases left_of(len as int, position as int),
    {
        let at: usize = position as usize;
        if is_chunk_of(bytes, at, name) {
            return Some(at);
        }
        position = position + 8 + padded_size(long_of(bytes, at + 4)) as u128;
    }
    None
}

fn find_top_chunk(bytes: &[u8], name: [u8; 4]) -> (r: Option<usize>)
    requires
        is_extended(bytes@),
    ensures
        top_chunk(bytes@, name@) == (match r {
            Some(p) => Some(p as int),
            None => None::<int>,
        }),
        r matches Some(p) ==> p + 8 <= bytes.len(),
{
    let from: u64 = 20 + padded_size(long_of(bytes, 16));
    let size: u64 = long_of(bytes, 4);
    let end: u64 = if size > 12 {
        from + (size - 12)
    } else {
        from
    };
    find_chunk(bytes, from, end, name)
}

fn find_first_frame(bytes: &[u8]) -> (r: Option<usize>)
    requires
        is_extended(bytes@),
    ensures
        first_frame(bytes@) == (match r {
            Some(p) => Some(p as int),
            None => None::<int>,
        }),
        r matches Some(p) ==> p + 8 <= bytes.len(),
{
    assert([65u8, 78, 77, 70]@ =~= seq![65u8, 78, 77, 70]);
    find_top_chunk(bytes, [65, 78, 77, 70])
}

fn find_any_chunk(bytes: &[u8], name: [u8; 4]) -> (r: Option<usize>)
    requires
        is_extended(bytes@),
    ensures
        any_chunk(bytes@, name@) == (match r {
            Some(p) => Some(p as int),
            None => None::<int>,
        }),
        r matches Some(p) ==> p + 8 <= bytes.len(),
{
    if let Some(p) = find_top_chunk(bytes, name) {
        return Some(p);
    }
    let p: usize = match find_first_frame(bytes) {
        Some(p) => p,
        None => {
            return None;
        },
    };
    if bytes.len() - p < 32 {
        return None;
    }
    if is_chunk_of(bytes, p + 24, name) {
        return Some(p + 24);
    }
    let q: u128 = p as u128 + 32 + padded_size(long_of(bytes, p + 28)) as u128;
    if q <= p as u128 + long_of(bytes, p + 4) as u128 && q + 8 <= bytes.len() as u128
        && is_chunk_of(bytes, q as usize, name) {
        Some(q as usize)
    } else {
        None
    }
}

fn triple_of(bytes: &[u8], i: usize) -> (r: u32)
    requires
        i + 3 <= bytes.len(),
    ensures
        r == triple_at(bytes@, i as int),
        r < 16_777_216,
{
    short_of(bytes, i) + 65_536 * bytes[i + 2] as u32
}

fn data_of_chunk(bytes: &[u8], p: usize) -> (r: &[u8])
    requires
        p + 8 <= bytes.len(),
    ensures
        r@ == chunk_data(bytes@, p as int),
{
    let end: u128 = p as u128 + 8 + long_of(bytes, p + 4) as u128;
    let to: usize = if end < bytes.len() as u128 {
        end as usize
    } else {
        bytes.len()
    };
    slice_subrange(bytes, p + 8, to)
}

fn misfits(width: u64, height: u64, across: u64, down: u64) -> (r: bool)
    requires
        1 <= width <= 16_777_216,
        1 <= height <= 16_777_216,
        across < 16_384,
        down < 16_384,
    ensures
        r == is_misfit((width as int, height as int), (across as int, down as int)),
{
    if across == 0 || down == 0 {
        return true;
    }
    proof {
        assert(0 <= width * height <= 16_777_216 * 16_777_216) by (nonlinear_arith)
            requires
                1 <= width <= 16_777_216,
                1 <= height <= 16_777_216,
        ;
        assert(across <= across * down <= 16_384 * 16_384) by (nonlinear_arith)
            requires
                1 <= across < 16_384,
                1 <= down < 16_384,
        ;
    }
    if across * down > width * height {
        return true;
    }
    let rest: u64 = (width * height - across) % (2 * across);
    rest != 0 && (down % 2 == 1 || across % 2 == 0 && rest % 2 == 1)
}

fn frame_is_torn(bytes: &[u8], p: usize) -> (r: bool)
    requires
        p + 8 <= bytes.len(),
    ensures
        r == is_torn(bytes@, p as int),
{
    if bytes.len() - p < 32 {
        return false;
    }
    assert([65u8, 76, 80, 72]@ =~= seq![65u8, 76, 80, 72]);
    if !is_chunk_of(bytes, p + 24, [65, 76, 80, 72]) {
        return false;
    }
    let start: u128 = p as u128 + 40 + padded_size(long_of(bytes, p + 28)) as u128;
    if start + 10 > bytes.len() as u128 {
        return false;
    }
    let q: usize = start as usize;
    misfits(
        triple_of(bytes, p + 14) as u64 + 1,
        triple_of(bytes, p + 17) as u64 + 1,
        short_of(bytes, q + 6) as u64 % 16_384,
        short_of(bytes, q + 8) as u64 % 16_384,
    )
}

fn extends(bytes: &[u8]) -> (r: bool)
    ensures
        r == is_extended(bytes@),
{
    assert([86u8, 80, 56, 88]@ =~= seq![86u8, 80, 56, 88]);
    bytes.len() >= 30 && is_chunk_of(bytes, 12, [86, 80, 56, 88])
}

/// Whether a picture cannot be read because its first frame is torn.
pub fn begins_torn(bytes: &[u8]) -> (r: bool)
    ensures
        r == starts_torn(bytes@),
{
    if !extends(bytes) || bytes[20] & 2 == 0 {
        return false;
    }
    match find_first_frame(bytes) {
        Some(p) => frame_is_torn(bytes, p),
        None => false,
    }
}

fn opacity_is_overfull(bytes: &[u8], p: usize, width: u32, height: u32) -> (r: bool)
    requires
        p + 8 <= bytes.len(),
        width <= 16_777_216,
        height <= 16_777_216,
    ensures
        r == (is_readable_size((width as int, height as int)) && opacity_overfull(
            chunk_data(bytes@, p as int),
            width as int,
            height as int,
        )),
{
    width <= 16_384 && height <= 16_384 && is_opacity_overfull(
        data_of_chunk(bytes, p),
        width,
        height,
    )
}

fn frame_is_overfull(bytes: &[u8], p: usize) -> (r: bool)
    requires
        p + 8 <= bytes.len(),
    ensures
        r == frame_overfull(bytes@, p as int),
{
    if bytes.len() - p < 32 {
        return false;
    }
    assert([86u8, 80, 56, 76]@ =~= seq![86u8, 80, 56, 76]);
    assert([65u8, 76, 80, 72]@ =~= seq![65u8, 76, 80, 72]);
    if is_chunk_of(bytes, p + 24, [86, 80, 56, 76]) {
        is_picture_overfull(data_of_chunk(bytes, p + 24))
    } else {
        is_chunk_of(bytes, p + 24, [65, 76, 80, 72]) && opacity_is_overfull(
            bytes,
            p + 24,
            triple_of(bytes, p + 14) + 1,
            triple_of(bytes, p + 17) + 1,
        )
    }
}

/// Whether a picture cannot be read because one of its codes is over-full.
pub fn has_overfull_code(bytes: &[u8]) -> (r: bool)
    ensures
        r == is_overfull(bytes@),
{
    assert([86u8, 80, 56, 76]@ =~= seq![86u8, 80, 56, 76]);
    assert([65u8, 76, 80, 72]@ =~= seq![65u8, 76, 80, 72]);
    if bytes.len() >= 20 && is_chunk_of(bytes, 12, [86, 80, 56, 76]) {
        return is_picture_overfull(data_of_chunk(bytes, 12));
    }
    if !extends(bytes) {
        return false;
    }
    if bytes[20] & 2 != 0 {
        return match find_first_frame(bytes) {
            Some(p) => frame_is_overfull(bytes, p),
            None => false,
        };
    }
    if let Some(p) = find_any_chunk(bytes, [86, 80, 56, 76]) {
        return is_picture_overfull(data_of_chunk(bytes, p));
    }
    if bytes[20] & 16 == 0 {
        return false;
    }
    match find_any_chunk(bytes, [65, 76, 80, 72]) {
        Some(p) => opacity_is_overfull(
            bytes,
            p,
            triple_of(bytes, 24) + 1,
            triple_of(bytes, 27) + 1,
        ),
        None => false,
    }
}

/// The points, the width and the height of the picture that
/// `image::load_from_memory_with_format` reads in bytes of the format WebP, where
/// it reads one.
pub uninterp spec fn webp_image(bytes: Seq<u8>) -> Option<(Seq<u8>, u32, u32)>;

/// `image::load_from_memory_with_format` for WebP, and `into_rgba8` of what it
/// read: either a picture with red, green, blue and opacity of each of its
/// points, or a text on why there is none, of which nothing more is said. The
/// decoder panics on two kinds of files, which are left out. It sets an
/// animation's first frame into a buffer of the frame's size without a look at
/// the size of the picture behind its opacity. And it adds up the words of a code
/// in two bytes, where those of an over-full code need not fit.
#[verifier::external_body]
fn webp_pixels(bytes: &[u8]) -> (r: Result<(Vec<u8>, u32, u32), String>)
    requires
        !is_broken(bytes@),
    ensures
        match r {
            Ok((pixels, width, height)) => webp_image(bytes@) == Some((pixels@, width, height))
                && pixels@.len() == width * height * 4,
            Err(_) => webp_image(bytes@) is None,
        },
{
    match image::load_from_memory_with_format(bytes, image::ImageFormat::WebP) {
        Ok(picture) => {
            let rgba = picture.into_rgba8();
            let (width, height) = rgba.dimensions();
            Ok((rgba.into_raw(), width, height))
        },
        Err(error) => Err(error.to_string()),
    }
}

/// Whether a file with this extension is one for `decode_webp`.
pub open spec fn is_webp(extension: Option<Seq<char>>) -> bool {
    extension matches Some(e) && ascii_lower(e) == "webp"@
}

/// Reads a picture in the format WebP. A broken one is none.
pub fn decode_webp(bytes: &[u8]) -> (r: Result<Picture, String>)
    ensures
        is_broken(bytes@) ==> r is Err,
        !is_broken(bytes@) ==> match webp_image(bytes@) {
            Some((pixels, width, height)) => r matches Ok(picture) && picture@ == (PictureModel {
                pixels,
                width,
                height,
            }) && pixels.len() == width * height * 4,
            None => r is Err,
        },
{
    if begins_torn(bytes) {
        return Err("the first frame is torn".to_owned());
    }
    if has_overfull_code(bytes) {
        return Err("a code is over-full".to_owned());
    }
    match webp_pixels(bytes) {
        Ok((pixels, width, height)) => Ok(Picture { pixels, width, height }),
        Err(error) => Err(error),
    }
}

/// Whether the bytes of a file with this extension are for `decode_webp`; the
/// window reads the others by itself.
pub fn needs_webp(extension: Option<String>) -> (r: bool)
    ensures
        r == is_webp(opt_view(extension)),
{
    match extension {
        Some(extension) => {
            let lower = to_ascii_lower(extension.as_str());
            same_str(lower.as_str(), "webp")
        },
        None => false,
    }
}

} // verus!
