//! The image-content test core's choice of pixel format: it asks the
//! frontend for HDR10, then 10-bit SDR, then 8-bit, as libretro.h tells a
//! core with an SDR fallback to do, and uses the first one accepted.
use crate::hosted::libretro::pixels::{
    RETRO_PIXEL_FORMAT_HDR10_2101010, RETRO_PIXEL_FORMAT_XRGB2101010, RETRO_PIXEL_FORMAT_XRGB8888,
};
use crate::hosted::render::HdrMode;
use vstd::prelude::*;

verus! {

/// The formats the core asks for, in the order it asks.
#[derive(Debug, Clone, Copy, PartialEq, Eq, Structural)]
pub enum Format {
    /// `RETRO_PIXEL_FORMAT_HDR10_2101010`: PQ Rec.2020, 10 bits.
    Hdr10,
    /// `RETRO_PIXEL_FORMAT_XRGB2101010`: sRGB, 10 bits.
    Xrgb2101010,
    /// `RETRO_PIXEL_FORMAT_XRGB8888`: sRGB, 8 bits.
    Xrgb8888,
}

/// libretro.h's number for `f`.
pub open spec fn spec_format_raw(f: Format) -> u32 {
    match f {
        Format::Hdr10 => RETRO_PIXEL_FORMAT_HDR10_2101010,
        Format::Xrgb2101010 => RETRO_PIXEL_FORMAT_XRGB2101010,
        Format::Xrgb8888 => RETRO_PIXEL_FORMAT_XRGB8888,
    }
}

impl Format {
    /// libretro.h's `enum retro_pixel_format` value for this format.
    pub fn raw(self) -> (n: u32)
        ensures
            n == spec_format_raw(self),
    {
        match self {
            Format::Hdr10 => RETRO_PIXEL_FORMAT_HDR10_2101010,
            Format::Xrgb2101010 => RETRO_PIXEL_FORMAT_XRGB2101010,
            Format::Xrgb8888 => RETRO_PIXEL_FORMAT_XRGB8888,
        }
    }

    /// How content is encoded for a frontend that took this format: PQ
    /// for HDR10, sRGB for either SDR format.
    pub fn hdr_mode(self) -> (m: HdrMode)
        ensures
            m == (if self == Format::Hdr10 {
                HdrMode::Hdr10
            } else {
                HdrMode::Off
            }),
    {
        match self {
            Format::Hdr10 => HdrMode::Hdr10,
            Format::Xrgb2101010 | Format::Xrgb8888 => HdrMode::Off,
        }
    }
}

/// Whether a call of `accepts` on `raw` answered `b`.
pub open spec fn said<F: Fn(u32) -> bool>(accepts: F, raw: u32, b: bool) -> bool {
    accepts.ensures((raw,), b)
}

/// The first format the frontend accepts, asked in HDR10, 10-bit SDR,
/// 8-bit order; `accepts` offers one (`SET_PIXEL_FORMAT`) and says
/// whether the frontend took it. `None` when it took none.
pub fn choose_format<F: Fn(u32) -> bool>(accepts: F) -> (f: Option<Format>)
    requires
        forall|raw: u32| accepts.requires((raw,)),
    ensures
        match f {
            Some(Format::Hdr10) => said(accepts, RETRO_PIXEL_FORMAT_HDR10_2101010, true),
            Some(Format::Xrgb2101010) => said(accepts, RETRO_PIXEL_FORMAT_HDR10_2101010, false)
                && said(accepts, RETRO_PIXEL_FORMAT_XRGB2101010, true),
            Some(Format::Xrgb8888) => said(accepts, RETRO_PIXEL_FORMAT_HDR10_2101010, false)
                && said(accepts, RETRO_PIXEL_FORMAT_XRGB2101010, false) && said(
                accepts,
                RETRO_PIXEL_FORMAT_XRGB8888,
                true,
            ),
            None => said(accepts, RETRO_PIXEL_FORMAT_HDR10_2101010, false) && said(
                accepts,
                RETRO_PIXEL_FORMAT_XRGB2101010,
                false,
            ) && said(accepts, RETRO_PIXEL_FORMAT_XRGB8888, false),
        },
{
    if accepts(RETRO_PIXEL_FORMAT_HDR10_2101010) {
        return Some(Format::Hdr10);
    }
    if accepts(RETRO_PIXEL_FORMAT_XRGB2101010) {
        return Some(Format::Xrgb2101010);
    }
    if accepts(RETRO_PIXEL_FORMAT_XRGB8888) {
        return Some(Format::Xrgb8888);
    }
    None
}

} // verus!
