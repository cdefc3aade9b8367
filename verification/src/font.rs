//! Font metrics and rasterization data.
//!
//! A scalable font is parsed and measured once at startup: the terminal
//! cell is sized from the horizontal advance of a capital "M" (the
//! standard monospace heuristic) and from the font's ascent minus
//! descent, rounded up to whole pixels for grid alignment.  Parsing the
//! font and rasterizing outlines is floating-point work done by the
//! rasterizer crate on the host's side of the boundary; what crosses
//! into the library are the plain integer values defined here — the
//! cell geometry, and per character the outline's bounding box with its
//! anti-aliased coverage samples.  The layout and clamped blitting over
//! these values is verified in [`crate::atlas`].

use vstd::prelude::*;

verus! {

/// Font size in pixels for terminal text.
pub const FONT_SIZE: u32 = 14;

/// Errors of font measurement.
#[derive(Clone, Copy, PartialEq, Eq, Structural, Debug)]
pub enum FontError {
    /// The font's metrics round to an empty cell.
    DegenerateMetrics,
}

/// One anti-aliased coverage sample of a glyph outline: a pixel position
/// relative to the outline's bounding box, and the coverage scaled to an
/// alpha byte.
#[derive(Clone, Copy, PartialEq, Eq, Structural, Debug)]
pub struct CoverageSample {
    /// Horizontal offset inside the outline's bounding box.
    pub dx: u32,
    /// Vertical offset inside the outline's bounding box.
    pub dy: u32,
    /// Coverage as alpha: 0 uncovered, 255 fully covered.
    pub alpha: u8,
}

/// The pixel bounding box of a glyph outline, reduced to what cell
/// placement needs: its top edge and its width.
#[derive(Clone, Copy, PartialEq, Eq, Structural, Debug)]
pub struct GlyphBounds {
    /// Top edge of the outline relative to the glyph origin; negative
    /// above the origin.
    pub min_y: i32,
    /// Width of the outline in pixels.
    pub width: u32,
}

/// The rasterization of one character: `None` bounds for characters with
/// no visible outline (whitespace stays a fully transparent cell),
/// otherwise the outline's bounding box and its coverage samples.
pub struct GlyphRaster {
    /// Bounding box of the outline, absent for invisible characters.
    pub bounds: Option<GlyphBounds>,
    /// Coverage samples, positioned relative to the bounding box.
    pub samples: Vec<CoverageSample>,
}

/// Relies on `char::from_u32`: `Some` exactly for valid scalar values —
/// below the surrogate range or between it and 0x10ffff — returning the
/// character of that code point.
#[verifier::external_body]
pub fn char_from_u32(x: u32) -> (r: Option<char>)
    ensures
        r is Some <==> (x < 0xd800 || (0xe000 <= x && x <= 0x10ffff)),
        r is Some ==> r->0 as u32 == x,
{
    char::from_u32(x)
}

/// The cell geometry measured from a font.  All glyphs render into cells
/// of this one size, so the grid stays aligned.
#[derive(Clone, Copy, PartialEq, Eq, Structural, Debug)]
pub struct FontMetrics {
    /// Width of each terminal cell in pixels.
    pub cell_width: u32,
    /// Height of each terminal cell in pixels.
    pub cell_height: u32,
    /// Baseline offset from the top of the cell, in pixels.
    pub baseline: u32,
    /// Font size in pixels the metrics were taken at.
    pub font_size: u32,
}

impl FontMetrics {
    /// Well-formedness: the cell has at least one pixel in each
    /// direction.
    pub open spec fn wf(self) -> bool {
        self.cell_width >= 1 && self.cell_height >= 1
    }

    /// Accepts measured cell metrics, rejecting those that round to an
    /// empty cell: succeeds exactly when both cell sides have at least
    /// one pixel.
    pub fn new(cell_width: u32, cell_height: u32, baseline: u32, font_size: u32) -> (r: Result<
        FontMetrics,
        FontError,
    >)
        ensures
            r is Ok <==> (cell_width >= 1 && cell_height >= 1),
            r is Ok ==> (r->Ok_0).wf() && r->Ok_0 == (FontMetrics {
                cell_width,
                cell_height,
                baseline,
                font_size,
            }),
            r is Err ==> r->Err_0 == FontError::DegenerateMetrics,
    {
        if cell_width == 0 || cell_height == 0 {
            return Err(FontError::DegenerateMetrics);
        }
        Ok(FontMetrics { cell_width, cell_height, baseline, font_size })
    }
}

} // verus!
