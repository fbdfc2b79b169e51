//! Packed screen pixels: one `u32` per pixel, laid out as `0x00RRGGBB`.

use vstd::prelude::*;

verus! {

/// The colour of the selection border.
pub const WHITE: u32 = 0x00FFFFFF;

/// The red channel of a packed pixel.
pub open spec fn red(px: u32) -> u8 {
    (px / 0x10000 % 0x100) as u8
}

/// The green channel of a packed pixel.
pub open spec fn green(px: u32) -> u8 {
    (px / 0x100 % 0x100) as u8
}

/// The blue channel of a packed pixel.
pub open spec fn blue(px: u32) -> u8 {
    (px % 0x100) as u8
}

/// The packed pixel with the given channels and a zero top byte.
pub open spec fn packed(r: u8, g: u8, b: u8) -> u32 {
    (r * 0x10000 + g * 0x100 + b) as u32
}

/// The packed pixel with every channel halved, rounding down.
pub open spec fn dimmed(px: u32) -> u32 {
    packed(red(px) / 2, green(px) / 2, blue(px) / 2)
}

/// Packs three channels into one pixel.
pub fn pack(r: u8, g: u8, b: u8) -> (px: u32)
    ensures
        px == packed(r, g, b),
{
    let px: u32 = (r as u32) << 16 | (g as u32) << 8 | b as u32;
    assert((r as u32) << 16 | (g as u32) << 8 | b as u32 == r * 0x10000 + g * 0x100 + b)
        by (bit_vector);
    px
}

/// The red, green and blue channels of a packed pixel.
pub fn unpack(px: u32) -> (rgb: (u8, u8, u8))
    ensures
        rgb == (red(px), green(px), blue(px)),
{
    assert((px >> 16) & 0xFF == px / 0x10000 % 0x100) by (bit_vector);
    assert((px >> 8) & 0xFF == px / 0x100 % 0x100) by (bit_vector);
    assert(px & 0xFF == px % 0x100) by (bit_vector);
    let r: u8 = ((px >> 16) & 0xFF) as u8;
    let g: u8 = ((px >> 8) & 0xFF) as u8;
    let b: u8 = (px & 0xFF) as u8;
    (r, g, b)
}

/// Halves the brightness of a pixel.
pub fn dim(px: u32) -> (r: u32)
    ensures
        r == dimmed(px),
{
    assert((px >> 1) & 0x007F7F7F == (px / 0x10000 % 0x100) / 2 * 0x10000 + (px / 0x100 % 0x100)
        / 2 * 0x100 + (px % 0x100) / 2) by (bit_vector);
    (px >> 1) & 0x007F7F7F
}

/// Unpacking a packed pixel gives its channels back.
pub proof fn law_unpack_of_pack(r: u8, g: u8, b: u8)
    ensures
        red(packed(r, g, b)) == r,
        green(packed(r, g, b)) == g,
        blue(packed(r, g, b)) == b,
{
}

/// Packing the channels of a pixel gives the pixel back, less its unused top byte.
pub proof fn law_pack_of_unpack(px: u32)
    ensures
        packed(red(px), green(px), blue(px)) == px % 0x1000000,
{
}

/// Dimming halves each channel and clears the top byte, so no channel gets brighter.
pub proof fn law_dim_halves_each_channel(px: u32)
    ensures
        red(dimmed(px)) == red(px) / 2,
        green(dimmed(px)) == green(px) / 2,
        blue(dimmed(px)) == blue(px) / 2,
        dimmed(px) < 0x800000,
{
    law_unpack_of_pack(red(px) / 2, green(px) / 2, blue(px) / 2);
}

} // verus!
