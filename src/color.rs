use vstd::prelude::*;

verus! {

/// The packed value of a pixel whose channels are `r`, `g` and `b`:
/// red in bits 16..24, green in bits 8..16, blue in bits 0..8.
pub open spec fn packed(r: u8, g: u8, b: u8) -> int {
    r as int * 0x10000 + g as int * 0x100 + b as int
}

/// Packs three 8-bit channels into one pixel as `(r << 16) | (g << 8) | b`.
pub fn pack_rgb(r: u8, g: u8, b: u8) -> (c: u32)
    ensures
        c as int == packed(r, g, b),
        c < 0x100_0000,
        (c >> 16) & 0xff == r as u32,
        (c >> 8) & 0xff == g as u32,
        c & 0xff == b as u32,
{
    let (r32, g32, b32) = (r as u32, g as u32, b as u32);
    let c = (r32 << 16) | (g32 << 8) | b32;
    assert(c == r32 * 0x10000 + g32 * 0x100 + b32 && c < 0x100_0000 && (c >> 16) & 0xff == r32
        && (c >> 8) & 0xff == g32 && c & 0xff == b32) by (bit_vector)
        requires
            r32 < 0x100,
            g32 < 0x100,
            b32 < 0x100,
            c == (r32 << 16) | (g32 << 8) | b32,
    ;
    c
}

} // verus!
