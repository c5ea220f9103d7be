//! Monospace fonts: cell metrics and glyph bitmaps, read from the
//! embedded-graphics ASCII font tables.

use embedded_graphics::mock_display::MockDisplay;
use embedded_graphics::mono_font::ascii::{FONT_10X20, FONT_6X10, FONT_6X13};
use embedded_graphics::mono_font::MonoTextStyle;
use embedded_graphics::pixelcolor::BinaryColor;
use embedded_graphics::text::{Baseline, Text};
use embedded_graphics::Drawable as _;
use vstd::prelude::*;

verus! {

/// The monospace fonts that text blocks can use.
#[derive(Clone, Copy, Debug, PartialEq, Eq, Structural)]
pub enum Font {
    Ascii6x10,
    Ascii6x13,
    Ascii10x20,
}

/// Width of a character cell of `f`, which is also the horizontal advance.
pub open spec fn glyph_width(f: Font) -> nat {
    match f {
        Font::Ascii6x10 => 6,
        Font::Ascii6x13 => 6,
        Font::Ascii10x20 => 10,
    }
}

/// Height of a character cell of `f`, which is also the line height.
pub open spec fn glyph_height(f: Font) -> nat {
    match f {
        Font::Ascii6x10 => 10,
        Font::Ascii6x13 => 13,
        Font::Ascii10x20 => 20,
    }
}

/// Whether the glyph that `f` draws for `c` has ink at `(x, y)` of its cell.
pub uninterp spec fn glyph_ink(f: Font, c: char, x: u32, y: u32) -> bool;

/// Relies on the `character_size` of embedded-graphics's `FONT_6X10`,
/// `FONT_6X13` and `FONT_10X20`: the cell of each font.
#[verifier::external_body]
fn font_cell(f: Font) -> (r: (u32, u32))
    ensures
        r.0 == glyph_width(f),
        r.1 == glyph_height(f),
{
    let face = match f {
        Font::Ascii6x10 => &FONT_6X10,
        Font::Ascii6x13 => &FONT_6X13,
        Font::Ascii10x20 => &FONT_10X20,
    };
    (face.character_size.width, face.character_size.height)
}

/// Relies on embedded-graphics's mono text rendering: `c` drawn in `f` with
/// its cell at the origin of a `MockDisplay`, and the pixel at `(x, y)` read
/// back; a character missing from the font gets the font's replacement glyph.
#[verifier::external_body]
fn glyph_pixel(f: Font, c: char, x: u32, y: u32) -> (r: bool)
    requires
        x < glyph_width(f),
        y < glyph_height(f),
    ensures
        r == glyph_ink(f, c, x, y),
{
    let face = match f {
        Font::Ascii6x10 => &FONT_6X10,
        Font::Ascii6x13 => &FONT_6X13,
        Font::Ascii10x20 => &FONT_10X20,
    };
    let mut display: MockDisplay<BinaryColor> = MockDisplay::new();
    let mut buf = [0u8; 4];
    let style = MonoTextStyle::new(face, BinaryColor::On);
    let _ = Text::with_baseline(c.encode_utf8(&mut buf), embedded_graphics::prelude::Point::zero(), style, Baseline::Top).draw(&mut display);
    display.get_pixel(embedded_graphics::prelude::Point::new(x as i32, y as i32)) == Some(BinaryColor::On)
}

impl Font {
    /// Cell width and height in pixels.
    pub fn cell(&self) -> (r: (u32, u32))
        ensures
            r.0 == glyph_width(*self),
            r.1 == glyph_height(*self),
    {
        font_cell(*self)
    }

    /// Whether the glyph of `c` has ink at `(x, y)` of its cell.
    pub fn ink(&self, c: char, x: u32, y: u32) -> (r: bool)
        requires
            x < glyph_width(*self),
            y < glyph_height(*self),
        ensures
            r == glyph_ink(*self, c, x, y),
    {
        glyph_pixel(*self, c, x, y)
    }
}

} // verus!
