//! Frames as bitmap files: the header, the file's bytes, the pixel bytes of
//! a file that was read, and two frames joined side by side.
//!
//! A frame travels as three bytes per pixel, row after row from the top.
//! Reading and writing the files is the caller's part.

use vstd::prelude::*;
use vstd::arithmetic::div_mod::lemma_fundamental_div_mod_converse;
use crate::config::{AREA, H, W};

verus! {

/// Bytes of the file header and the info header together.
pub const BMP_HEADER_SIZE: usize = 54;

/// Bytes of the info header alone.
pub const BMP_INFO_SIZE: usize = 40;

/// Bytes of one row of a frame.
pub const ROW_BYTES: usize = 3 * W;

/// Bytes of one frame.
pub const FRAME_BYTES: usize = 3 * AREA;

/// Why a video is refused.
#[derive(Clone, Copy, Debug, PartialEq, Eq, Structural)]
pub enum VideoError {
    /// The video has no frame.
    NoFrames,
    /// The frame at this place has not three bytes for each pixel.
    FrameSize(usize),
    /// Two videos that are to be joined have not the same number of frames.
    Uneven,
}

/// A 16-bit field, low byte first.
pub open spec fn le16(v: int) -> Seq<u8> {
    seq![(v % 256) as u8, (v / 256 % 256) as u8]
}

/// A 32-bit field, low byte first.
pub open spec fn le32(v: int) -> Seq<u8> {
    seq![
        (v % 256) as u8,
        (v / 256 % 256) as u8,
        (v / 65536 % 256) as u8,
        (v / 16777216 % 256) as u8,
    ]
}

/// Whether a header has room for the dimensions: each fits a signed 32-bit
/// field, and the file's size an unsigned one.
pub open spec fn fits_header(width: int, height: int) -> bool {
    &&& 0 <= width <= 0x7fff_ffff
    &&& 0 <= height <= 0x7fff_ffff
    &&& BMP_HEADER_SIZE + 3 * width * height <= 0xffff_ffff
}

/// Pixel bytes of an image of the given dimensions.
pub open spec fn image_size(width: int, height: int) -> int {
    3 * width * height
}

/// The file header: the signature `BM`, the file's size, two reserved
/// fields, and the offset of the pixel bytes. `size` counts the pixel bytes.
pub open spec fn file_header_bytes(size: int) -> Seq<u8> {
    le16(0x4d42) + le32(BMP_HEADER_SIZE + size) + le16(0) + le16(0) + le32(BMP_HEADER_SIZE as int)
}

/// The height as the header holds it: negated, since the rows run from the
/// top, in two's complement.
pub open spec fn flipped_height(height: int) -> int {
    if height == 0 {
        0
    } else {
        0x1_0000_0000 - height
    }
}

/// The info header: its own size, the width, the negated height, one plane,
/// 24 bits per pixel, no compression, the size of the pixel bytes, and four
/// fields left at zero.
pub open spec fn info_header_bytes(width: int, height: int, size: int) -> Seq<u8> {
    le32(BMP_INFO_SIZE as int) + le32(width) + le32(flipped_height(height)) + le16(1) + le16(24)
        + le32(0) + le32(size) + le32(0) + le32(0) + le32(0) + le32(0)
}

/// The two headers of a bitmap file of the given dimensions.
pub open spec fn header_bytes(width: int, height: int) -> Seq<u8> {
    file_header_bytes(image_size(width, height)) + info_header_bytes(
        width,
        height,
        image_size(width, height),
    )
}

/// The pixel bytes of a file that holds one frame: what follows the headers.
pub open spec fn payload_of(file: Seq<u8>) -> Seq<u8> {
    file.subrange(BMP_HEADER_SIZE as int, BMP_HEADER_SIZE + FRAME_BYTES)
}

/// Two frames side by side, the first on the left: each row of the result is
/// that row of the first frame followed by that row of the second.
pub open spec fn joined(left: Seq<u8>, right: Seq<u8>) -> Seq<u8> {
    Seq::new(
        (2 * FRAME_BYTES) as nat,
        |k: int|
            if k % (2 * ROW_BYTES) < ROW_BYTES {
                left[k / (2 * ROW_BYTES) * ROW_BYTES + k % (2 * ROW_BYTES)]
            } else {
                right[k / (2 * ROW_BYTES) * ROW_BYTES + k % (2 * ROW_BYTES) - ROW_BYTES]
            },
    )
}

/// Pixel by pixel, the joined image of twice the width shows the first
/// frame in its left half and the second in its right half: value `i` of
/// pixel `(x, y)` comes from pixel `(x, y)` of the first frame where `x` is
/// less than the width of a frame, else from pixel `(x - W, y)` of the
/// second.
pub proof fn lemma_joined_pixels(left: Seq<u8>, right: Seq<u8>, x: int, y: int, i: int)
    requires
        left.len() >= FRAME_BYTES,
        right.len() >= FRAME_BYTES,
        0 <= x < 2 * W,
        0 <= y < H,
        0 <= i < 3,
    ensures
        joined(left, right).len() == 3 * (2 * W) * H,
        joined(left, right)[(y * (2 * W) + x) * 3 + i] == (if x < W {
            left[(y * W + x) * 3 + i]
        } else {
            right[(y * W + (x - W)) * 3 + i]
        }),
{
    assert(W == 128 && H == 128 && ROW_BYTES == 384 && FRAME_BYTES == 49152);
    let k = (y * (2 * W) + x) * 3 + i;
    lemma_fundamental_div_mod_converse(k, 2 * ROW_BYTES as int, y, 3 * x + i);
}

/// The headers are 54 bytes, whatever the dimensions, and the pixel bytes
/// of a file that was written for one frame are that frame.
pub proof fn lemma_payload_round_trip(frame: Seq<u8>, width: int, height: int)
    requires
        frame.len() == FRAME_BYTES,
    ensures
        header_bytes(width, height).len() == BMP_HEADER_SIZE,
        payload_of(header_bytes(width, height) + frame) == frame,
{
    assert(payload_of(header_bytes(width, height) + frame) =~= frame);
}

fn push_le16(out: &mut Vec<u8>, v: u16)
    ensures
        final(out)@ == old(out)@ + le16(v as int),
{
    out.push((v % 256) as u8);
    out.push((v / 256 % 256) as u8);
    assert(out@ =~= old(out)@ + le16(v as int));
}

fn push_le32(out: &mut Vec<u8>, v: u32)
    ensures
        final(out)@ == old(out)@ + le32(v as int),
{
    out.push((v % 256) as u8);
    out.push((v / 256 % 256) as u8);
    out.push((v / 65536 % 256) as u8);
    out.push((v / 16777216 % 256) as u8);
    assert(out@ =~= old(out)@ + le32(v as int));
}

fn pixel_bytes(width: usize, height: usize) -> (size: u32)
    requires
        fits_header(width as int, height as int),
    ensures
        size == image_size(width as int, height as int),
        BMP_HEADER_SIZE + size <= 0xffff_ffff,
{
    assert(3 * (width * height) == 3 * width * height) by (nonlinear_arith);
    assert(0 <= width * height) by (nonlinear_arith)
        requires
            0 <= width,
            0 <= height,
    ;
    let area: u64 = (width as u64) * (height as u64);
    (3 * area) as u32
}

fn file_header(size: u32) -> (out: Vec<u8>)
    requires
        BMP_HEADER_SIZE + size <= 0xffff_ffff,
    ensures
        out@ == file_header_bytes(size as int),
{
    let mut out: Vec<u8> = Vec::new();
    push_le16(&mut out, 0x4d42);
    assert(out@ =~= le16(0x4d42));
    push_le32(&mut out, size + 54);
    push_le16(&mut out, 0);
    push_le16(&mut out, 0);
    push_le32(&mut out, 54);
    out
}

fn info_header(width: u32, height: u32, size: u32) -> (out: Vec<u8>)
    requires
        height <= 0x7fff_ffff,
    ensures
        out@ == info_header_bytes(width as int, height as int, size as int),
{
    let flipped: u32 = if height == 0 {
        0
    } else {
        (0x1_0000_0000u64 - height as u64) as u32
    };
    let mut out: Vec<u8> = Vec::new();
    push_le32(&mut out, 40);
    assert(out@ =~= le32(40));
    push_le32(&mut out, width);
    push_le32(&mut out, flipped);
    push_le16(&mut out, 1);
    push_le16(&mut out, 24);
    push_le32(&mut out, 0);
    push_le32(&mut out, size);
    push_le32(&mut out, 0);
    push_le32(&mut out, 0);
    push_le32(&mut out, 0);
    push_le32(&mut out, 0);
    out
}

/// Tells whether a header has room for the dimensions.
pub fn header_fits(width: usize, height: usize) -> (r: bool)
    ensures
        r == fits_header(width as int, height as int),
{
    if width > 0x7fff_ffff || height > 0x7fff_ffff {
        return false;
    }
    assert(3 * (width * height) == 3 * width * height) by (nonlinear_arith);
    assert(0 <= width * height <= 0x7fff_ffff * 0x7fff_ffff) by (nonlinear_arith)
        requires
            0 <= width <= 0x7fff_ffff,
            0 <= height <= 0x7fff_ffff,
    ;
    let area: u64 = (width as u64) * (height as u64);
    3 * area + 54 <= 0xffff_ffff
}

/// Writes the two headers of a bitmap file of the given dimensions.
pub fn bitmap_header(width: usize, height: usize) -> (out: Vec<u8>)
    requires
        fits_header(width as int, height as int),
    ensures
        out@ == header_bytes(width as int, height as int),
        out.len() == BMP_HEADER_SIZE,
{
    let size = pixel_bytes(width, height);
    let mut out = file_header(size);
    let mut info = info_header(width as u32, height as u32, size);
    out.append(&mut info);
    out
}

/// The bytes of a bitmap file: the headers for the given dimensions, then
/// the pixel bytes as they are.
pub fn bitmap_file(image: &Vec<u8>, width: usize, height: usize) -> (out: Vec<u8>)
    requires
        fits_header(width as int, height as int),
    ensures
        out@ == header_bytes(width as int, height as int) + image@,
{
    let mut out = bitmap_header(width, height);
    let ghost header = out@;
    let mut i: usize = 0;
    while i < image.len()
        invariant
            i <= image.len(),
            out@ == header + image@.take(i as int),
        decreases image.len() - i,
    {
        out.push(image[i]);
        assert(image@.take(i + 1) =~= image@.take(i as int).push(image[i as int]));
        i += 1;
    }
    assert(image@.take(i as int) =~= image@);
    out
}

/// The pixel bytes of a bitmap file that holds one frame. `None` where the
/// file is too short to hold them.
pub fn frame_payload(file: &Vec<u8>) -> (r: Option<Vec<u8>>)
    ensures
        r is Some <==> file.len() >= BMP_HEADER_SIZE + FRAME_BYTES,
        r is Some ==> r->Some_0@ == payload_of(file@),
{
    if file.len() < BMP_HEADER_SIZE + FRAME_BYTES {
        return None;
    }
    let mut out: Vec<u8> = Vec::new();
    let mut i: usize = 0;
    while i < FRAME_BYTES
        invariant
            i <= FRAME_BYTES,
            file.len() >= BMP_HEADER_SIZE + FRAME_BYTES,
            out@ == file@.subrange(BMP_HEADER_SIZE as int, BMP_HEADER_SIZE + i),
        decreases FRAME_BYTES - i,
    {
        out.push(file[BMP_HEADER_SIZE + i]);
        assert(file@.subrange(BMP_HEADER_SIZE as int, BMP_HEADER_SIZE + i + 1) =~= file@.subrange(
            BMP_HEADER_SIZE as int,
            BMP_HEADER_SIZE + i,
        ).push(file[BMP_HEADER_SIZE + i]));
        i += 1;
    }
    Some(out)
}

/// Joins two frames side by side into one image of twice the width. Bytes
/// beyond the first frame of either input are left out.
pub fn side_by_side(left: &Vec<u8>, right: &Vec<u8>) -> (out: Vec<u8>)
    requires
        left.len() >= FRAME_BYTES,
        right.len() >= FRAME_BYTES,
    ensures
        out@ == joined(left@, right@),
        out.len() == 2 * FRAME_BYTES,
{
    let mut out: Vec<u8> = Vec::new();
    let mut y: usize = 0;
    assert(ROW_BYTES == 384 && FRAME_BYTES == 49152 && H == 128);
    assert(joined(left@, right@).len() == 2 * FRAME_BYTES);
    while y < H
        invariant
            y <= H,
            ROW_BYTES == 384 && FRAME_BYTES == 49152 && H == 128,
            left.len() >= FRAME_BYTES,
            right.len() >= FRAME_BYTES,
            out.len() == y * (2 * ROW_BYTES),
            forall|k: int| 0 <= k < out.len() ==> out[k] == joined(left@, right@)[k],
        decreases H - y,
    {
        let mut c: usize = 0;
        while c < 2 * ROW_BYTES
            invariant
                y < H,
                c <= 2 * ROW_BYTES,
                ROW_BYTES == 384 && FRAME_BYTES == 49152 && H == 128,
                left.len() >= FRAME_BYTES,
                right.len() >= FRAME_BYTES,
                out.len() == y * (2 * ROW_BYTES) + c,
                forall|k: int| 0 <= k < out.len() ==> out[k] == joined(left@, right@)[k],
            decreases 2 * ROW_BYTES - c,
        {
            let ghost k = y * (2 * ROW_BYTES) + c;
            assert(k / (2 * ROW_BYTES as int) == y && k % (2 * ROW_BYTES as int) == c) by {
                lemma_fundamental_div_mod_converse(k, 2 * ROW_BYTES as int, y as int, c as int);
            }
            let b = if c < ROW_BYTES {
                left[y * ROW_BYTES + c]
            } else {
                right[y * ROW_BYTES + c - ROW_BYTES]
            };
            out.push(b);
            assert(out[k] == joined(left@, right@)[k]);
            c += 1;
        }
        y += 1;
    }
    assert(out@ =~= joined(left@, right@));
    out
}

/// Whether both frames at place `i` are long enough to be joined.
pub open spec fn joinable(lefts: Seq<Vec<u8>>, rights: Seq<Vec<u8>>, i: int) -> bool {
    lefts[i].len() >= FRAME_BYTES && rights[i].len() >= FRAME_BYTES
}

/// Joins two videos frame by frame, each frame of the first side by side
/// with the frame of the second at the same place. The videos must have the
/// same number of frames, and each frame its three bytes for each pixel at
/// least; the error names the first place with a frame too short.
pub fn side_by_side_video(lefts: &Vec<Vec<u8>>, rights: &Vec<Vec<u8>>) -> (r: Result<
    Vec<Vec<u8>>,
    VideoError,
>)
    ensures
        match r {
            Ok(both) => {
                &&& lefts.len() == rights.len()
                &&& both.len() == lefts.len()
                &&& forall|i: int| 0 <= i < both.len() ==> #[trigger] joinable(lefts@, rights@, i)
                &&& forall|i: int|
                    0 <= i < both.len() ==> (#[trigger] both[i])@ == joined(lefts[i]@, rights[i]@)
            },
            Err(VideoError::Uneven) => lefts.len() != rights.len(),
            Err(VideoError::FrameSize(i)) => {
                &&& lefts.len() == rights.len()
                &&& i < lefts.len()
                &&& !joinable(lefts@, rights@, i as int)
                &&& forall|j: int| 0 <= j < i ==> #[trigger] joinable(lefts@, rights@, j)
            },
            Err(VideoError::NoFrames) => false,
        },
{
    if lefts.len() != rights.len() {
        return Err(VideoError::Uneven);
    }
    let mut both: Vec<Vec<u8>> = Vec::new();
    let mut i: usize = 0;
    while i < lefts.len()
        invariant
            i <= lefts.len(),
            lefts.len() == rights.len(),
            both.len() == i,
            forall|j: int| 0 <= j < i ==> #[trigger] joinable(lefts@, rights@, j),
            forall|j: int| 0 <= j < i ==> (#[trigger] both[j])@ == joined(lefts[j]@, rights[j]@),
        decreases lefts.len() - i,
    {
        if lefts[i].len() < FRAME_BYTES || rights[i].len() < FRAME_BYTES {
            return Err(VideoError::FrameSize(i));
        }
        let frame = side_by_side(&lefts[i], &rights[i]);
        both.push(frame);
        i += 1;
    }
    Ok(both)
}

/// Checks that a video has a frame and that each frame has three bytes for
/// each pixel of the given dimensions. The error names the first frame of
/// another size.
pub fn check_frames(frames: &Vec<Vec<u8>>, width: usize, height: usize) -> (r: Result<
    (),
    VideoError,
>)
    ensures
        match r {
            Ok(()) => frames.len() > 0 && forall|i: int|
                0 <= i < frames.len() ==> (#[trigger] frames[i]).len() == image_size(
                    width as int,
                    height as int,
                ),
            Err(VideoError::NoFrames) => frames.len() == 0,
            Err(VideoError::FrameSize(i)) => i < frames.len() && frames[i as int].len()
                != image_size(width as int, height as int) && forall|j: int|
                0 <= j < i ==> (#[trigger] frames[j]).len() == image_size(
                    width as int,
                    height as int,
                ),
            Err(VideoError::Uneven) => false,
        },
{
    if frames.len() == 0 {
        return Err(VideoError::NoFrames);
    }
    let size = frame_size(width, height);
    let mut i: usize = 0;
    while i < frames.len()
        invariant
            i <= frames.len(),
            match size {
                Some(n) => n == image_size(width as int, height as int),
                None => image_size(width as int, height as int) > usize::MAX,
            },
            forall|j: int|
                0 <= j < i ==> (#[trigger] frames[j]).len() == image_size(
                    width as int,
                    height as int,
                ),
        decreases frames.len() - i,
    {
        let whole = match size {
            Some(n) => frames[i].len() == n,
            None => false,
        };
        if !whole {
            return Err(VideoError::FrameSize(i));
        }
        i += 1;
    }
    Ok(())
}

fn frame_size(width: usize, height: usize) -> (size: Option<usize>)
    ensures
        match size {
            Some(n) => n == image_size(width as int, height as int),
            None => image_size(width as int, height as int) > usize::MAX,
        },
{
    assert(3 * (width * height) == 3 * width * height) by (nonlinear_arith);
    match width.checked_mul(height) {
        Some(area) => area.checked_mul(3),
        None => None,
    }
}

} // verus!
