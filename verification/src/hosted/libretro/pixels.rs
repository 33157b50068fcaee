//! Converting a core's framebuffer to a [`Frame`] the renderer uploads:
//! BGRA8 for the 16-bit and 8-bit formats, a row copy for the packed
//! 10-bit ones, with the two high bits forced so alpha samples as 1.0.
use crate::config::Size;
use crate::hosted::render::{Frame, FrameFormat};
use vstd::arithmetic::div_mod::*;
use vstd::arithmetic::mul::*;
use vstd::prelude::*;

verus! {

/// libretro.h's `RETRO_PIXEL_FORMAT_0RGB1555`.
pub const RETRO_PIXEL_FORMAT_0RGB1555: u32 = 0;
/// libretro.h's `RETRO_PIXEL_FORMAT_XRGB8888`.
pub const RETRO_PIXEL_FORMAT_XRGB8888: u32 = 1;
/// libretro.h's `RETRO_PIXEL_FORMAT_RGB565`.
pub const RETRO_PIXEL_FORMAT_RGB565: u32 = 2;
/// libretro.h's `RETRO_PIXEL_FORMAT_XRGB2101010`.
pub const RETRO_PIXEL_FORMAT_XRGB2101010: u32 = 3;
/// libretro.h's `RETRO_PIXEL_FORMAT_HDR10_2101010`.
pub const RETRO_PIXEL_FORMAT_HDR10_2101010: u32 = 4;

/// The framebuffer formats a core may select with `SET_PIXEL_FORMAT`, the
/// ones [`to_frame`] reads.
#[derive(Debug, Clone, Copy, PartialEq, Eq, Structural)]
pub enum PixelFormat {
    /// `RETRO_PIXEL_FORMAT_0RGB1555`, libretro's default when a core sets none.
    Xrgb1555,
    /// `RETRO_PIXEL_FORMAT_XRGB8888`.
    Xrgb8888,
    /// `RETRO_PIXEL_FORMAT_RGB565`.
    Rgb565,
    /// `RETRO_PIXEL_FORMAT_XRGB2101010`: 10-bit SDR, packed 2:10:10:10.
    Xrgb2101010,
    /// `RETRO_PIXEL_FORMAT_HDR10_2101010`: the same packing carrying
    /// PQ-encoded Rec.2020 samples; its bytes are treated as `Xrgb2101010`'s.
    Hdr10,
}

/// The format libretro.h numbers `raw`, if this frontend reads it.
pub open spec fn spec_from_raw(raw: u32) -> Option<PixelFormat> {
    if raw == RETRO_PIXEL_FORMAT_0RGB1555 {
        Some(PixelFormat::Xrgb1555)
    } else if raw == RETRO_PIXEL_FORMAT_XRGB8888 {
        Some(PixelFormat::Xrgb8888)
    } else if raw == RETRO_PIXEL_FORMAT_RGB565 {
        Some(PixelFormat::Rgb565)
    } else if raw == RETRO_PIXEL_FORMAT_XRGB2101010 {
        Some(PixelFormat::Xrgb2101010)
    } else if raw == RETRO_PIXEL_FORMAT_HDR10_2101010 {
        Some(PixelFormat::Hdr10)
    } else {
        None
    }
}

/// libretro.h's number for `format`.
pub open spec fn spec_raw(format: PixelFormat) -> u32 {
    match format {
        PixelFormat::Xrgb1555 => RETRO_PIXEL_FORMAT_0RGB1555,
        PixelFormat::Xrgb8888 => RETRO_PIXEL_FORMAT_XRGB8888,
        PixelFormat::Rgb565 => RETRO_PIXEL_FORMAT_RGB565,
        PixelFormat::Xrgb2101010 => RETRO_PIXEL_FORMAT_XRGB2101010,
        PixelFormat::Hdr10 => RETRO_PIXEL_FORMAT_HDR10_2101010,
    }
}

/// Bytes per pixel in a core's framebuffer.
pub open spec fn spec_bytes_per_pixel(format: PixelFormat) -> nat {
    match format {
        PixelFormat::Xrgb8888 | PixelFormat::Xrgb2101010 | PixelFormat::Hdr10 => 4,
        PixelFormat::Rgb565 | PixelFormat::Xrgb1555 => 2,
    }
}

/// The layout [`to_frame`] delivers a format in.
pub open spec fn spec_frame_format(format: PixelFormat) -> FrameFormat {
    match format {
        PixelFormat::Xrgb2101010 | PixelFormat::Hdr10 => FrameFormat::Bgr10a2,
        _ => FrameFormat::Bgra8,
    }
}

impl PixelFormat {
    /// The format libretro.h numbers `raw`, or `None` for one this tool
    /// cannot read (including `RETRO_PIXEL_FORMAT_UNKNOWN`).
    pub fn from_raw(raw: u32) -> (r: Option<PixelFormat>)
        ensures
            r == spec_from_raw(raw),
    {
        if raw == RETRO_PIXEL_FORMAT_0RGB1555 {
            Some(PixelFormat::Xrgb1555)
        } else if raw == RETRO_PIXEL_FORMAT_XRGB8888 {
            Some(PixelFormat::Xrgb8888)
        } else if raw == RETRO_PIXEL_FORMAT_RGB565 {
            Some(PixelFormat::Rgb565)
        } else if raw == RETRO_PIXEL_FORMAT_XRGB2101010 {
            Some(PixelFormat::Xrgb2101010)
        } else if raw == RETRO_PIXEL_FORMAT_HDR10_2101010 {
            Some(PixelFormat::Hdr10)
        } else {
            None
        }
    }

    /// Bytes per pixel in a core's framebuffer.
    pub fn bytes_per_pixel(self) -> (n: usize)
        ensures
            n == spec_bytes_per_pixel(self),
    {
        match self {
            PixelFormat::Xrgb8888 | PixelFormat::Xrgb2101010 | PixelFormat::Hdr10 => 4,
            PixelFormat::Rgb565 | PixelFormat::Xrgb1555 => 2,
        }
    }

    /// The layout [`to_frame`] delivers this format in.
    pub fn frame_format(self) -> (f: FrameFormat)
        ensures
            f == spec_frame_format(self),
    {
        match self {
            PixelFormat::Xrgb2101010 | PixelFormat::Hdr10 => FrameFormat::Bgr10a2,
            PixelFormat::Xrgb8888 | PixelFormat::Rgb565 | PixelFormat::Xrgb1555 => {
                FrameFormat::Bgra8
            },
        }
    }
}

/// Every format this frontend reads comes back from its own number.
pub proof fn lemma_from_raw_inverts_raw(format: PixelFormat)
    ensures
        spec_from_raw(spec_raw(format)) == Some(format),
{
}

/// Only the five numbers libretro.h gives these formats are read.
pub proof fn lemma_from_raw_only_known(raw: u32)
    ensures
        spec_from_raw(raw) is Some <==> raw <= 4,
        spec_from_raw(raw) matches Some(f) ==> spec_raw(f) == raw,
{
}

/// A 5-bit channel widened to 8 bits by bit replication.
pub open spec fn spec_expand5(v: u16) -> u8 {
    let c = (v & 0x1f) as u8;
    (c << 3u8) | (c >> 2u8)
}

/// A 6-bit channel widened to 8 bits by bit replication.
pub open spec fn spec_expand6(v: u16) -> u8 {
    let c = (v & 0x3f) as u8;
    (c << 2u8) | (c >> 4u8)
}

fn expand5(v: u16) -> (r: u8)
    ensures
        r == spec_expand5(v),
{
    let c = (v & 0x1f) as u8;
    (c << 3u8) | (c >> 2u8)
}

fn expand6(v: u16) -> (r: u8)
    ensures
        r == spec_expand6(v),
{
    let c = (v & 0x3f) as u8;
    (c << 2u8) | (c >> 4u8)
}

/// The little-endian 16-bit value of two bytes.
pub open spec fn spec_le16(lo: u8, hi: u8) -> u16 {
    (lo as u16) | ((hi as u16) << 8u16)
}

/// The four output bytes of the source pixel starting at `data[at]`.
pub open spec fn spec_pixel(format: PixelFormat, data: Seq<u8>, at: int) -> Seq<u8> {
    match format {
        PixelFormat::Xrgb8888 => seq![data[at], data[at + 1], data[at + 2], 0xffu8],
        PixelFormat::Xrgb2101010 | PixelFormat::Hdr10 => seq![
            data[at],
            data[at + 1],
            data[at + 2],
            data[at + 3] | 0xc0u8,
        ],
        PixelFormat::Rgb565 => {
            let v = spec_le16(data[at], data[at + 1]);
            seq![spec_expand5(v), spec_expand6(v >> 5u16), spec_expand5(v >> 11u16), 0xffu8]
        },
        PixelFormat::Xrgb1555 => {
            let v = spec_le16(data[at], data[at + 1]);
            seq![spec_expand5(v), spec_expand5(v >> 5u16), spec_expand5(v >> 10u16), 0xffu8]
        },
    }
}

/// Where the source pixel behind output pixel `p` starts: row `p / width`
/// at `pitch` bytes per row, column `p % width` at the format's width.
pub open spec fn spec_source_offset(format: PixelFormat, width: nat, pitch: nat, p: int) -> int {
    (p / width as int) * pitch + (p % width as int) * spec_bytes_per_pixel(format)
}

/// Byte `j` of the converted frame.
pub open spec fn spec_frame_byte(
    format: PixelFormat,
    data: Seq<u8>,
    width: nat,
    pitch: nat,
    j: int,
) -> u8 {
    spec_pixel(format, data, spec_source_offset(format, width, pitch, j / 4))[j % 4]
}

/// Whether `data` holds every row [`to_frame`] reads: `height` rows of
/// `width` pixels, `pitch` bytes apart, the last one without padding.
pub open spec fn rows_in_bounds(
    format: PixelFormat,
    data_len: nat,
    width: nat,
    height: nat,
    pitch: nat,
) -> bool {
    height == 0 || (height - 1) * pitch + width * spec_bytes_per_pixel(format) <= data_len
}

fn push_pixel(out: &mut Vec<u8>, format: PixelFormat, data: &[u8], at: usize)
    requires
        at + spec_bytes_per_pixel(format) <= data@.len(),
    ensures
        final(out)@ == old(out)@ + spec_pixel(format, data@, at as int),
{
    match format {
        PixelFormat::Xrgb8888 => {
            out.push(data[at]);
            out.push(data[at + 1]);
            out.push(data[at + 2]);
            out.push(0xff);
        },
        PixelFormat::Xrgb2101010 | PixelFormat::Hdr10 => {
            out.push(data[at]);
            out.push(data[at + 1]);
            out.push(data[at + 2]);
            out.push(data[at + 3] | 0xc0);
        },
        PixelFormat::Rgb565 => {
            let v = (data[at] as u16) | ((data[at + 1] as u16) << 8u16);
            out.push(expand5(v));
            out.push(expand6(v >> 5u16));
            out.push(expand5(v >> 11u16));
            out.push(0xff);
        },
        PixelFormat::Xrgb1555 => {
            let v = (data[at] as u16) | ((data[at + 1] as u16) << 8u16);
            out.push(expand5(v));
            out.push(expand5(v >> 5u16));
            out.push(expand5(v >> 10u16));
            out.push(0xff);
        },
    }
    assert(final(out)@ =~= old(out)@ + spec_pixel(format, data@, at as int));
}

proof fn lemma_row_offset_fits(y: nat, x: nat, w: nat, h: nat, pitch: nat, bpp: nat, len: nat)
    requires
        y < h,
        x < w,
        (h - 1) * pitch + w * bpp <= len,
    ensures
        y * pitch + x * bpp + bpp <= len,
        y * pitch <= len,
{
    assert((x + 1) * bpp <= w * bpp) by (nonlinear_arith)
        requires
            x < w,
    ;
    assert(y * pitch <= (h - 1) * pitch) by (nonlinear_arith)
        requires
            y < h,
    ;
    assert(x * bpp + bpp == (x + 1) * bpp) by (nonlinear_arith);
}

proof fn lemma_pixel_index(y: int, x: int, w: int, k: int)
    requires
        0 <= y,
        0 <= x < w,
        0 <= k < 4,
    ensures
        ((y * w + x) * 4 + k) / 4 == y * w + x,
        ((y * w + x) * 4 + k) % 4 == k,
        (y * w + x) / w == y,
        (y * w + x) % w == x,
{
    lemma_fundamental_div_mod_converse((y * w + x) * 4 + k, 4, y * w + x, k);
    lemma_fundamental_div_mod_converse(y * w + x, w, y, x);
}

/// A frame of `width * height * 4` bytes from `height` rows of `pitch`
/// bytes. XRGB8888 rows are copied with the X byte forced opaque; the
/// 16-bit formats expand each channel by bit replication; the 10-bit
/// formats are copied as they are with the two high bits forced to 1,
/// so alpha samples as 1.0, the treatment the X byte gets.
///
/// The rows read must lie inside `data` (`(height - 1) * pitch + width *
/// bpp` bytes) and a row must fit in `pitch`; the video callback checks
/// both first.
pub fn to_frame(format: PixelFormat, data: &[u8], width: u32, height: u32, pitch: usize) -> (frame:
    Frame)
    requires
        rows_in_bounds(format, data@.len(), width as nat, height as nat, pitch as nat),
        width * spec_bytes_per_pixel(format) <= pitch,
        width * height * 4 <= isize::MAX,
    ensures
        frame.size == (Size { width, height }),
        frame.format == spec_frame_format(format),
        frame.pixels@.len() == width * height * 4,
        forall|j: int|
            0 <= j < frame.pixels@.len() ==> #[trigger] frame.pixels@[j] == spec_frame_byte(
                format,
                data@,
                width as nat,
                pitch as nat,
                j,
            ),
{
    let w = width as usize;
    let h = height as usize;
    let bpp = format.bytes_per_pixel();
    let data_len = data.len();
    let mut out: Vec<u8> = Vec::new();
    let mut y: usize = 0;
    while y < h
        invariant
            0 <= y <= h,
            w == width,
            h == height,
            bpp == spec_bytes_per_pixel(format),
            data_len == data@.len(),
            rows_in_bounds(format, data@.len(), w as nat, h as nat, pitch as nat),
            w * h * 4 <= isize::MAX,
            out@.len() == y * w * 4,
            forall|j: int|
                0 <= j < out@.len() ==> #[trigger] out@[j] == spec_frame_byte(
                    format,
                    data@,
                    w as nat,
                    pitch as nat,
                    j,
                ),
        decreases h - y,
    {
        proof {
            assert(y * w * 4 + w * 4 == (y + 1) * w * 4) by (nonlinear_arith);
            assert((y + 1) * w * 4 <= h * w * 4) by (nonlinear_arith)
                requires
                    y < h,
            ;
            assert(h * w * 4 == w * h * 4) by (nonlinear_arith);
            if w > 0 {
                lemma_row_offset_fits(
                    y as nat,
                    0,
                    w as nat,
                    h as nat,
                    pitch as nat,
                    bpp as nat,
                    data@.len(),
                );
            } else {
                assert(y * pitch <= (h - 1) * pitch) by (nonlinear_arith)
                    requires
                        y < h,
                ;
            }
        }
        let row = y * pitch;
        let mut x: usize = 0;
        while x < w
            invariant
                0 <= x <= w,
                0 <= y < h,
                w == width,
                h == height,
                bpp == spec_bytes_per_pixel(format),
                data_len == data@.len(),
                row == y * pitch,
                rows_in_bounds(format, data@.len(), w as nat, h as nat, pitch as nat),
                w * h * 4 <= isize::MAX,
                (y + 1) * w * 4 <= w * h * 4,
                out@.len() == (y * w + x) * 4,
                forall|j: int|
                    0 <= j < out@.len() ==> #[trigger] out@[j] == spec_frame_byte(
                        format,
                        data@,
                        w as nat,
                        pitch as nat,
                        j,
                    ),
            decreases w - x,
        {
            proof {
                lemma_row_offset_fits(
                    y as nat,
                    x as nat,
                    w as nat,
                    h as nat,
                    pitch as nat,
                    bpp as nat,
                    data@.len(),
                );
                assert((y * w + x) * 4 + 4 <= (y + 1) * w * 4) by (nonlinear_arith)
                    requires
                        x < w,
                ;
                assert(x * bpp <= w * bpp) by (nonlinear_arith)
                    requires
                        x < w,
                ;
            }
            let at = row + x * bpp;
            let ghost before = out@;
            push_pixel(&mut out, format, data, at);
            proof {
                assert forall|j: int| 0 <= j < out@.len() implies #[trigger] out@[j]
                    == spec_frame_byte(format, data@, w as nat, pitch as nat, j) by {
                    if j >= before.len() {
                        let k = j - before.len();
                        lemma_pixel_index(y as int, x as int, w as int, k);
                        assert(j == (y * w + x) * 4 + k);
                    }
                }
                assert((y * w + x) * 4 + 4 == (y * w + (x + 1)) * 4) by (nonlinear_arith);
            }
            x = x + 1;
        }
        proof {
            assert((y * w + w) * 4 == (y + 1) * w * 4) by (nonlinear_arith);
        }
        y = y + 1;
    }
    proof {
        assert(h * w * 4 == w * h * 4) by (nonlinear_arith);
    }
    Frame { size: Size { width, height }, format: format.frame_format(), pixels: out }
}

/// Every converted pixel is opaque: an 8-bit frame's fourth byte is
/// `0xff`, and a 10-bit frame's top two bits (its alpha) are both set, so
/// alpha samples as 1.0 whatever the core left in its X bits.
pub proof fn lemma_converted_pixels_are_opaque(format: PixelFormat, data: Seq<u8>, width: nat, pitch: nat, j: int)
    requires
        width > 0,
        j >= 0,
        j % 4 == 3,
    ensures
        spec_frame_format(format) == FrameFormat::Bgra8 ==> spec_frame_byte(format, data, width, pitch, j) == 0xffu8,
        spec_frame_format(format) == FrameFormat::Bgr10a2 ==> spec_frame_byte(format, data, width, pitch, j) & 0xc0u8 == 0xc0u8,
{
    let at = spec_source_offset(format, width, pitch, j / 4);
    let b = data[at + 3];
    assert((b | 0xc0u8) & 0xc0u8 == 0xc0u8) by (bit_vector);
}

} // verus!
