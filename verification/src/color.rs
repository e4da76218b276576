//! Packed RGB colors: red in bits 16 to 23, green in bits 8 to 15, blue in
//! bits 0 to 7, and a top byte that is always zero.

use vstd::prelude::*;

verus! {

/// The packed color with the given channels, as a number.
pub open spec fn rgb(r: u8, g: u8, b: u8) -> u32 {
    (r * 0x1_0000 + g * 0x100 + b) as u32
}

/// Packs three channels into one color.
pub fn from_u8_rgb(r: u8, g: u8, b: u8) -> (color: u32)
    ensures
        color == rgb(r, g, b),
{
    let (r, g, b) = (r as u32, g as u32, b as u32);
    assert((r << 16) | (g << 8) | b == r * 0x1_0000 + g * 0x100 + b) by (bit_vector)
        requires
            r < 0x100,
            g < 0x100,
            b < 0x100,
    ;
    (r << 16) | (g << 8) | b
}

/// Each channel can be read back from its own byte of the packed color, and
/// the top byte is zero.
pub proof fn lemma_rgb_channels(r: u8, g: u8, b: u8)
    ensures
        rgb(r, g, b) == (r as u32) << 16 | (g as u32) << 8 | (b as u32),
        (rgb(r, g, b) >> 16) & 0xff == r,
        (rgb(r, g, b) >> 8) & 0xff == g,
        rgb(r, g, b) & 0xff == b,
        rgb(r, g, b) >> 24 == 0,
        rgb(r, g, b) <= 0xff_ffff,
{
    let c: u32 = rgb(r, g, b);
    assert(c == r * 0x1_0000 + g * 0x100 + b);
    assert(c == (r as u32) << 16 | (g as u32) << 8 | (b as u32)
        && (c >> 16) & 0xff == r
        && (c >> 8) & 0xff == g
        && c & 0xff == b
        && c >> 24 == 0) by (bit_vector)
        requires
            c == r * 0x1_0000 + g * 0x100 + b,
    ;
}

} // verus!
