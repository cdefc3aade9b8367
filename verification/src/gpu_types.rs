//! GPU-facing record types and their byte layout.
//!
//! One terminal cell is described to the compositor by a 16-byte record of
//! four little-endian 32-bit words: glyph slot index, foreground color,
//! background color, and reserved flags.  A frame's grid is a row-major
//! array of these records.  The uniform block carries the terminal and
//! atlas geometry, padded to a 16-byte boundary.  The byte framing is done
//! here, in verified code, so that the buffers handed to the host are
//! bit-exact with what the shader side declares.

use vstd::prelude::*;

verus! {

/// One terminal cell as the compositor consumes it: glyph slot index,
/// packed foreground and background colors, and reserved flags.
#[derive(Clone, Copy, PartialEq, Eq, Structural, Debug)]
pub struct GpuTerminalCell {
    /// Slot index of the cell's glyph in the atlas.
    pub glyph_index: u32,
    /// Foreground color, packed RGBA with red in the low byte.
    pub fg_color: u32,
    /// Background color, packed RGBA with red in the low byte.
    pub bg_color: u32,
    /// Reserved; always zero for this pipeline.
    pub flags: u32,
}

/// Geometry parameters shared by the whole dispatch: terminal size in
/// cells, cell size in pixels, and atlas size in cells.
#[derive(Clone, Copy, PartialEq, Eq, Structural, Debug)]
pub struct TerminalUniforms {
    /// Terminal width in cells.
    pub term_cols: u32,
    /// Terminal height in cells.
    pub term_rows: u32,
    /// Cell width in pixels.
    pub cell_width: u32,
    /// Cell height in pixels.
    pub cell_height: u32,
    /// Atlas width in cells.
    pub atlas_cols: u32,
    /// Atlas height in cells.
    pub atlas_rows: u32,
    /// Padding up to a 16-byte boundary; always zero.
    pub pad0: u32,
    /// Second padding word; always zero.
    pub pad1: u32,
}

/// Byte `i` (0 through 3) of a 32-bit word in little-endian order.
pub open spec fn le_byte(word: u32, i: int) -> u8 {
    ((word >> (8 * i)) & 0xff) as u8
}

/// Byte `k` (0 through 15) of one cell record: the four words in order,
/// each little-endian.
pub open spec fn record_byte(record: GpuTerminalCell, k: int) -> u8 {
    if k < 4 {
        le_byte(record.glyph_index, k)
    } else if k < 8 {
        le_byte(record.fg_color, k - 4)
    } else if k < 12 {
        le_byte(record.bg_color, k - 8)
    } else {
        le_byte(record.flags, k - 12)
    }
}

/// Appends the four little-endian bytes of `word` to `out`.
fn push_word_le(out: &mut Vec<u8>, word: u32)
    ensures
        final(out)@.len() == old(out)@.len() + 4,
        forall|i: int| 0 <= i < old(out)@.len() ==> final(out)@[i] == old(out)@[i],
        forall|i: int| 0 <= i < 4 ==> final(out)@[old(out)@.len() + i] == le_byte(word, i),
{
    out.push(((word >> 0) & 0xff) as u8);
    out.push(((word >> 8) & 0xff) as u8);
    out.push(((word >> 16) & 0xff) as u8);
    out.push(((word >> 24) & 0xff) as u8);
}

/// Serializes a frame's cell records into the 16-byte-per-cell buffer the
/// compositor binds: for each record in order, its four words little-endian.
pub fn cells_to_bytes(cells: &Vec<GpuTerminalCell>) -> (out: Vec<u8>)
    ensures
        out@.len() == 16 * cells@.len(),
        forall|i: int, k: int|
            0 <= i < cells@.len() && 0 <= k < 16 ==> out@[16 * i + k] == record_byte(
                cells@[i],
                k,
            ),
{
    let mut out: Vec<u8> = Vec::new();
    let mut i: usize = 0;
    while i < cells.len()
        invariant
            i <= cells@.len(),
            out@.len() == 16 * i,
            forall|j: int, k: int|
                0 <= j < i && 0 <= k < 16 ==> out@[16 * j + k] == record_byte(cells@[j], k),
        decreases cells@.len() - i,
    {
        let record = cells[i];
        push_word_le(&mut out, record.glyph_index);
        push_word_le(&mut out, record.fg_color);
        push_word_le(&mut out, record.bg_color);
        push_word_le(&mut out, record.flags);
        i = i + 1;
    }
    out
}

/// Byte `k` (0 through 31) of the uniform block: the eight words in
/// declaration order, each little-endian.
pub open spec fn uniform_byte(u: TerminalUniforms, k: int) -> u8 {
    if k < 4 {
        le_byte(u.term_cols, k)
    } else if k < 8 {
        le_byte(u.term_rows, k - 4)
    } else if k < 12 {
        le_byte(u.cell_width, k - 8)
    } else if k < 16 {
        le_byte(u.cell_height, k - 12)
    } else if k < 20 {
        le_byte(u.atlas_cols, k - 16)
    } else if k < 24 {
        le_byte(u.atlas_rows, k - 20)
    } else if k < 28 {
        le_byte(u.pad0, k - 24)
    } else {
        le_byte(u.pad1, k - 28)
    }
}

/// Serializes the uniform block into its 32-byte binding layout.
pub fn uniforms_to_bytes(u: &TerminalUniforms) -> (out: Vec<u8>)
    ensures
        out@.len() == 32,
        forall|k: int| 0 <= k < 32 ==> out@[k] == uniform_byte(*u, k),
{
    let mut out: Vec<u8> = Vec::new();
    push_word_le(&mut out, u.term_cols);
    push_word_le(&mut out, u.term_rows);
    push_word_le(&mut out, u.cell_width);
    push_word_le(&mut out, u.cell_height);
    push_word_le(&mut out, u.atlas_cols);
    push_word_le(&mut out, u.atlas_rows);
    push_word_le(&mut out, u.pad0);
    push_word_le(&mut out, u.pad1);
    out
}

} // verus!
