//! Color conversion and packing.
//!
//! The grid engine reports each cell's colors as either a named palette
//! entry, a direct RGB triple, or an index into the 256-color table.  This
//! module resolves every such color to an RGB triple of the fixed default
//! palette (a dark "Tokyo Night" theme) and packs triples into the 32-bit
//! little-endian RGBA words that the cell records carry.

use vstd::prelude::*;

verus! {

/// Code of the named foreground color, as the escape-sequence layer numbers
/// its named colors (the 16 standard colors are 0 through 15).
pub const NAMED_FOREGROUND: u16 = 256;

/// Code of the named background color.
pub const NAMED_BACKGROUND: u16 = 257;

/// A cell color as reported by the grid engine, reduced to plain values:
/// a named-color code, a direct RGB triple, or a 256-color index.
#[derive(Clone, Copy, PartialEq, Eq, Structural, Debug)]
pub enum CellColor {
    /// One of the terminal's named colors, by its standard code.
    Named(u16),
    /// A direct 24-bit color.
    Rgb(u8, u8, u8),
    /// An index into the 256-color table.
    Indexed(u8),
}

/// The default background color of the palette.
pub open spec fn spec_background() -> (u8, u8, u8) {
    (0x1a, 0x1b, 0x26)
}

/// The default foreground color of the palette.
pub open spec fn spec_foreground() -> (u8, u8, u8) {
    (0xc0, 0xca, 0xf5)
}

/// The palette entry for one of the eight base colors (0 through 7);
/// every other argument resolves to the default foreground.
pub open spec fn spec_base_color(code: u16) -> (u8, u8, u8) {
    if code == 0 {
        (0x1a, 0x1b, 0x26)
    } else if code == 1 {
        (0xf7, 0x76, 0x8e)
    } else if code == 2 {
        (0x9e, 0xce, 0x6a)
    } else if code == 3 {
        (0xe0, 0xaf, 0x68)
    } else if code == 4 {
        (0x7a, 0xa2, 0xf7)
    } else if code == 5 {
        (0xbb, 0x9a, 0xf7)
    } else if code == 6 {
        (0x7d, 0xcf, 0xff)
    } else if code == 7 {
        (0xc0, 0xca, 0xf5)
    } else {
        spec_foreground()
    }
}

/// The bright-black palette entry, the one bright color with a value of
/// its own; the other bright colors reuse their base entries.
pub open spec fn spec_bright_black() -> (u8, u8, u8) {
    (0x41, 0x4b, 0x6b)
}

/// What `convert_alacritty_color` returns for every input: named codes 0-7
/// map to the base palette, bright black to its own entry, the remaining
/// bright codes 9-15 to the same entries as their non-bright forms, the
/// named background to the background color, and every other named code to
/// the foreground; direct RGB passes through unchanged; indexed colors use
/// the base palette for 0-7 and the foreground otherwise.
pub open spec fn spec_convert_color(color: CellColor) -> (u8, u8, u8) {
    match color {
        CellColor::Named(code) => {
            if code < 8 {
                spec_base_color(code)
            } else if code == 8 {
                spec_bright_black()
            } else if code < 16 {
                spec_base_color((code - 8) as u16)
            } else if code == NAMED_BACKGROUND {
                spec_background()
            } else {
                spec_foreground()
            }
        },
        CellColor::Rgb(r, g, b) => (r, g, b),
        CellColor::Indexed(index) => {
            if index < 8 {
                spec_base_color(index as u16)
            } else {
                spec_foreground()
            }
        },
    }
}

/// Resolves one of the eight base colors; codes above 7 give the foreground.
fn base_color(code: u16) -> (rgb: (u8, u8, u8))
    ensures
        rgb == spec_base_color(code),
{
    if code == 0 {
        (0x1a, 0x1b, 0x26)
    } else if code == 1 {
        (0xf7, 0x76, 0x8e)
    } else if code == 2 {
        (0x9e, 0xce, 0x6a)
    } else if code == 3 {
        (0xe0, 0xaf, 0x68)
    } else if code == 4 {
        (0x7a, 0xa2, 0xf7)
    } else if code == 5 {
        (0xbb, 0x9a, 0xf7)
    } else if code == 6 {
        (0x7d, 0xcf, 0xff)
    } else if code == 7 {
        (0xc0, 0xca, 0xf5)
    } else {
        (0xc0, 0xca, 0xf5)
    }
}

/// Converts a grid-engine color to an RGB triple of the default palette.
///
/// The conversion is total: every input maps to some output, never an
/// error.  Named and indexed colors use the fixed palette; direct RGB is
/// passed through unchanged.
pub fn convert_alacritty_color(color: CellColor) -> (rgb: (u8, u8, u8))
    ensures
        rgb == spec_convert_color(color),
{
    match color {
        CellColor::Named(code) => {
            if code < 8 {
                base_color(code)
            } else if code == 8 {
                (0x41, 0x4b, 0x6b)
            } else if code < 16 {
                base_color(code - 8)
            } else if code == NAMED_BACKGROUND {
                (0x1a, 0x1b, 0x26)
            } else {
                (0xc0, 0xca, 0xf5)
            }
        },
        CellColor::Rgb(r, g, b) => (r, g, b),
        CellColor::Indexed(index) => {
            if index < 8 {
                base_color(index as u16)
            } else {
                (0xc0, 0xca, 0xf5)
            }
        },
    }
}

/// What `pack_color` returns: the red channel in the low byte, then green,
/// then blue, with alpha 255 in the high byte (little-endian RGBA order).
pub open spec fn spec_pack_color(r: u8, g: u8, b: u8) -> u32 {
    (r as u32) | ((g as u32) << 8) | ((b as u32) << 16) | ((255u32) << 24)
}

/// Packs an RGB triple into a 32-bit RGBA word with alpha fixed at 255.
pub fn pack_color(rgb: (u8, u8, u8)) -> (packed: u32)
    ensures
        packed == spec_pack_color(rgb.0, rgb.1, rgb.2),
{
    let (r, g, b) = rgb;
    (r as u32) | ((g as u32) << 8) | ((b as u32) << 16) | ((255u32) << 24)
}

} // verus!
