//! The large font in which the watch face shows the time: digits and a colon,
//! 40 by 52 pixels each, sixteen glyphs to a row of the font image.

use vstd::prelude::*;

use crate::geometry::Size;

verus! {

/// Glyphs in a row of the font image.
pub const CHARS_PER_ROW: u32 = 16;

/// Width of a glyph in pixels.
pub const CHARACTER_WIDTH: u32 = 40;

/// Height of a glyph in pixels.
pub const CHARACTER_HEIGHT: u32 = 52;

/// The font of the time display.
#[derive(Debug, Copy, Clone)]
pub struct NumbersFont {}

/// The glyph of `c`: its value for a digit, 10 for the colon, and 15, the
/// blank glyph, for every other character.
pub open spec fn spec_char_offset(c: char) -> u32 {
    if '0' <= c && c <= '9' {
        (c as u32 - '0' as u32) as u32
    } else if c == ':' {
        10
    } else {
        15
    }
}

impl NumbersFont {
    /// The size of a glyph.
    pub fn character_size() -> (r: Size)
        ensures
            r.width == CHARACTER_WIDTH,
            r.height == CHARACTER_HEIGHT,
    {
        Size::new(CHARACTER_WIDTH, CHARACTER_HEIGHT)
    }

    /// The width of the font image: a row of glyphs.
    pub fn font_image_width() -> (r: u32)
        ensures
            r == CHARACTER_WIDTH * CHARS_PER_ROW,
    {
        CHARACTER_WIDTH * CHARS_PER_ROW
    }

    /// The index of the glyph of `c` in the font image.
    pub fn char_offset(c: char) -> (r: u32)
        ensures
            r == spec_char_offset(c),
            r <= 15,
    {
        match c {
            '0' => 0,
            '1' => 1,
            '2' => 2,
            '3' => 3,
            '4' => 4,
            '5' => 5,
            '6' => 6,
            '7' => 7,
            '8' => 8,
            '9' => 9,
            ':' => 10,
            _ => 15,
        }
    }
}

} // verus!
