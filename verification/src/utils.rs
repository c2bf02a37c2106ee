//! Colour packing.

use vstd::prelude::*;

verus! {

/// The packed value of a colour: red in bits 16..24, green in bits 8..16,
/// blue in bits 0..8.
pub open spec fn spec_enccol(r: u8, g: u8, b: u8) -> u32 {
    (r * 0x1_0000 + g * 0x100 + b) as u32
}

/// Packs three colour channels into one 24-bit pixel value.
pub fn enccol(r: u8, g: u8, b: u8) -> (c: u32)
    ensures
        c == spec_enccol(r, g, b),
        c == ((r as u32) << 16) | ((g as u32) << 8) | (b as u32),
        c <= 0xff_ffff,
{
    let hi: u32 = (r as u32) << 16;
    let mid: u32 = (g as u32) << 8;
    let lo: u32 = b as u32;
    assert(hi == r * 0x1_0000 && mid == g * 0x100 && hi + mid + lo == hi | mid | lo) by (bit_vector)
        requires
            hi == (r as u32) << 16,
            mid == (g as u32) << 8,
            lo == b as u32,
    ;
    hi + mid + lo
}

/// Unpacking a packed colour gives the three channels back.
pub proof fn lemma_enccol_channels(r: u8, g: u8, b: u8)
    ensures
        (spec_enccol(r, g, b) >> 16) & 0xff == r,
        (spec_enccol(r, g, b) >> 8) & 0xff == g,
        spec_enccol(r, g, b) & 0xff == b,
{
    let c: u32 = spec_enccol(r, g, b);
    assert((c >> 16) & 0xff == r && (c >> 8) & 0xff == g && c & 0xff == b) by (bit_vector)
        requires
            c == (r as u32) * 0x1_0000 + (g as u32) * 0x100 + (b as u32),
    ;
}

} // verus!
