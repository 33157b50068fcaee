//! Packing encoded channels into libretro's pixel words.
use vstd::prelude::*;

verus! {

/// Three 10-bit channels as libretro's XRGB2101010: R in bits 29:20, G
/// in 19:10, B in 9:0, the top two bits clear.
pub open spec fn spec_pack_2101010(r: u16, g: u16, b: u16) -> u32 {
    (((r as u32) & 0x3FF) << 20u32) | (((g as u32) & 0x3FF) << 10u32) | ((b as u32) & 0x3FF)
}

/// Three 10-bit channels as libretro's XRGB2101010: R in bits 29:20, G
/// in 19:10, B in 9:0, the top two bits clear. Bits above the tenth of a
/// channel are dropped.
pub fn pack_2101010(r: u16, g: u16, b: u16) -> (p: u32)
    ensures
        p == spec_pack_2101010(r, g, b),
        (p >> 20u32) & 0x3FF == r & 0x3FF,
        (p >> 10u32) & 0x3FF == g & 0x3FF,
        p & 0x3FF == b & 0x3FF,
        p >> 30u32 == 0,
{
    let p = ((r as u32 & 0x3FF) << 20) | ((g as u32 & 0x3FF) << 10) | (b as u32 & 0x3FF);
    let (r32, g32, b32) = (r as u32, g as u32, b as u32);
    assert(((((r32 & 0x3FF) << 20u32) | ((g32 & 0x3FF) << 10u32) | (b32 & 0x3FF)) >> 20u32) & 0x3FF
        == r32 & 0x3FF) by (bit_vector);
    assert(((((r32 & 0x3FF) << 20u32) | ((g32 & 0x3FF) << 10u32) | (b32 & 0x3FF)) >> 10u32) & 0x3FF
        == g32 & 0x3FF) by (bit_vector);
    assert((((r32 & 0x3FF) << 20u32) | ((g32 & 0x3FF) << 10u32) | (b32 & 0x3FF)) & 0x3FF == b32
        & 0x3FF) by (bit_vector);
    assert((((r32 & 0x3FF) << 20u32) | ((g32 & 0x3FF) << 10u32) | (b32 & 0x3FF)) >> 30u32 == 0)
        by (bit_vector);
    assert(r32 & 0x3FF == r & 0x3FF);
    p
}

/// Three 8-bit channels as libretro's XRGB8888, the X byte clear.
pub open spec fn spec_pack_8888(r: u8, g: u8, b: u8) -> u32 {
    ((r as u32) << 16u32) | ((g as u32) << 8u32) | (b as u32)
}

/// Three 8-bit channels as libretro's XRGB8888, the X byte clear: the
/// value is `r * 65536 + g * 256 + b`.
pub fn pack_8888(r: u8, g: u8, b: u8) -> (p: u32)
    ensures
        p == spec_pack_8888(r, g, b),
        p == r * 65536 + g * 256 + b,
{
    let (r32, g32, b32) = (r as u32, g as u32, b as u32);
    assert(r32 < 256 && g32 < 256 && b32 < 256 ==> (r32 << 16u32) | (g32 << 8u32) | b32 == r32
        * 65536 + g32 * 256 + b32) by (bit_vector);
    (r32 << 16) | (g32 << 8) | b32
}

} // verus!
