//! The built-in glyphs for the sixteen hexadecimal digits.

use vstd::prelude::*;

verus! {

/// Where the glyphs start in the store.
pub const FONT_START: usize = 0x50;

/// The number of bytes in a glyph: five rows of eight pixels, of which the
/// left four are used.
pub const GLYPH_SIZE: usize = 5;

/// The glyphs of `0` to `F`, one after the other.
pub const FONT: [u8; 80] = [
    0xF0, 0x90, 0x90, 0x90, 0xF0,
    0x20, 0x60, 0x20, 0x20, 0x70,
    0xF0, 0x10, 0xF0, 0x80, 0xF0,
    0xF0, 0x10, 0xF0, 0x10, 0xF0,
    0x90, 0x90, 0xF0, 0x10, 0x10,
    0xF0, 0x80, 0xF0, 0x10, 0xF0,
    0xF0, 0x80, 0xF0, 0x90, 0xF0,
    0xF0, 0x10, 0x20, 0x40, 0x40,
    0xF0, 0x90, 0xF0, 0x90, 0xF0,
    0xF0, 0x90, 0xF0, 0x10, 0xF0,
    0xF0, 0x90, 0xF0, 0x90, 0x90,
    0xE0, 0x90, 0xE0, 0x90, 0xE0,
    0xF0, 0x80, 0x80, 0x80, 0xF0,
    0xE0, 0x90, 0x90, 0x90, 0xE0,
    0xF0, 0x80, 0xF0, 0x80, 0xF0,
    0xF0, 0x80, 0xF0, 0x80, 0x80,
];

/// The address of the glyph for the low four bits of `digit`.
pub open spec fn glyph_address(digit: u8) -> int {
    FONT_START + GLYPH_SIZE * (digit % 16)
}

} // verus!
