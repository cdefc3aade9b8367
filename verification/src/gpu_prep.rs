//! Building the per-frame cell-record buffer.
//!
//! Once per frame the grid snapshot is translated into the flat
//! row-major array of 16-byte records the compositor consumes.  The
//! null character and the space both resolve to the atlas's space slot;
//! any other character missing from the atlas falls back to the
//! substitution glyph `?`, and failing that to slot 0 — absence is
//! resolved by substitution, never an error.  Colors are converted
//! through the fixed palette and packed little-endian with alpha 255.
//! The buffer is resized only when the geometry changes, and otherwise
//! overwritten in place.

use vstd::prelude::*;
use crate::atlas::GlyphAtlas;
use crate::colors::{spec_convert_color, spec_pack_color, convert_alacritty_color, pack_color,
    CellColor, NAMED_BACKGROUND, NAMED_FOREGROUND};
use crate::gpu_types::GpuTerminalCell;
use crate::renderer::records_in_capacity;
use crate::terminal::{TerminalState, GridCell, grid_view, default_grid_cell};

verus! {

/// The CPU-side buffer of cell records, rebuilt every frame and then
/// uploaded to the GPU.
pub struct TerminalCpuBuffer {
    /// Row-major cell records, one per grid cell.
    pub cells: Vec<GpuTerminalCell>,
}

impl Default for TerminalCpuBuffer {
    /// An empty buffer; the first frame sizes it to the grid.
    fn default() -> (r: Self)
        ensures
            r.cells@.len() == 0,
    {
        TerminalCpuBuffer { cells: Vec::new() }
    }
}

/// The atlas slot a character resolves to: null and space use the space
/// slot, a missing character falls back to the substitution glyph `?`,
/// and failing that to slot 0.
pub open spec fn spec_slot_for(map: Map<u32, u32>, ch: char) -> u32 {
    if ch == '\0' || ch == ' ' {
        if map.contains_key(32) {
            map[32]
        } else {
            0
        }
    } else if map.contains_key(ch as u32) {
        map[ch as u32]
    } else if map.contains_key(63) {
        map[63]
    } else {
        0
    }
}

/// A packed color word: the palette conversion of a grid color, packed
/// little-endian with alpha 255.
pub open spec fn spec_packed_color(color: crate::colors::CellColor) -> u32 {
    let rgb = spec_convert_color(color);
    spec_pack_color(rgb.0, rgb.1, rgb.2)
}

/// The record one grid cell produces: its glyph slot under the
/// substitution policy, its converted and packed colors, and zero
/// flags.
pub open spec fn spec_cell_record(map: Map<u32, u32>, cell: GridCell) -> GpuTerminalCell {
    GpuTerminalCell {
        glyph_index: spec_slot_for(map, cell.ch),
        fg_color: spec_packed_color(cell.fg),
        bg_color: spec_packed_color(cell.bg),
        flags: 0,
    }
}

/// Builds the record for one grid cell.  In an atlas with any capacity
/// at all, the resulting slot is always within capacity, whatever the
/// character.
pub fn cell_record(atlas: &GlyphAtlas, cell: GridCell) -> (r: GpuTerminalCell)
    requires
        atlas.wf(),
    ensures
        r == spec_cell_record(atlas.uv_map@, cell),
        atlas.spec_capacity() > 0 ==> r.glyph_index < atlas.spec_capacity(),
{
    let glyph_index = if cell.ch == '\0' || cell.ch == ' ' {
        match atlas.get_glyph_index(' ') {
            Some(slot) => slot,
            None => 0,
        }
    } else {
        match atlas.get_glyph_index(cell.ch) {
            Some(slot) => slot,
            None => match atlas.get_glyph_index('?') {
                Some(slot) => slot,
                None => 0,
            },
        }
    };
    let fg = pack_color(convert_alacritty_color(cell.fg));
    let bg = pack_color(convert_alacritty_color(cell.bg));
    GpuTerminalCell { glyph_index, fg_color: fg, bg_color: bg, flags: 0 }
}

/// Rebuilds the cell-record buffer from the current grid snapshot: one
/// record per cell in row-major order, each the translation of its grid
/// cell.  The buffer is reallocated only when its length does not match
/// the grid.
#[verifier::rlimit(100)]
pub fn prepare_terminal_cpu_buffer(
    term_state: &TerminalState,
    atlas: &GlyphAtlas,
    cpu_buffer: &mut TerminalCpuBuffer,
)
    requires
        term_state.wf(),
        atlas.wf(),
        term_state.rows as int * term_state.cols as int <= 0x1000_0000,
    ensures
        final(cpu_buffer).cells@.len() == term_state.rows as int * term_state.cols as int,
        forall|r: int, c: int|
            0 <= r < term_state.rows && 0 <= c < term_state.cols ==> #[trigger] final(cpu_buffer).cells@[r * term_state.cols as int + c] == spec_cell_record(
                atlas.uv_map@,
                grid_view(term_state.term)[r][c],
            ),
        atlas.spec_capacity() > 0 ==> records_in_capacity(final(cpu_buffer).cells@, *atlas),
{
    let rows = term_state.rows;
    let cols = term_state.cols;
    proof {
        assert(rows as int * cols as int <= 0x1000_0000);
    }
    let total: usize = rows * cols;
    if cpu_buffer.cells.len() != total {
        cpu_buffer.cells.resize(
            total,
            GpuTerminalCell { glyph_index: 0, fg_color: 0, bg_color: 0, flags: 0 },
        );
    }
    let mut row: usize = 0;
    while row < rows
        invariant
            term_state.wf(),
            atlas.wf(),
            rows == term_state.rows,
            cols == term_state.cols,
            total == rows as int * cols as int,
            row <= rows,
            cpu_buffer.cells@.len() == total,
            forall|r: int, c: int|
                0 <= r < row && 0 <= c < cols ==> #[trigger] cpu_buffer.cells@[r * cols as int
                    + c] == spec_cell_record(atlas.uv_map@, grid_view(term_state.term)[r][c]),
            atlas.spec_capacity() > 0 ==> forall|i: int|
                0 <= i < row * cols as int ==> (#[trigger] cpu_buffer.cells@[i].glyph_index)
                    < atlas.spec_capacity(),
        decreases rows - row,
    {
        let mut col: usize = 0;
        while col < cols
            invariant
                term_state.wf(),
                atlas.wf(),
                rows == term_state.rows,
                cols == term_state.cols,
                total == rows as int * cols as int,
                row < rows,
                col <= cols,
                cpu_buffer.cells@.len() == total,
                forall|r: int, c: int|
                    0 <= r < row && 0 <= c < cols ==> #[trigger] cpu_buffer.cells@[r
                        * cols as int + c] == spec_cell_record(
                        atlas.uv_map@,
                        grid_view(term_state.term)[r][c],
                    ),
                forall|c: int|
                    0 <= c < col ==> #[trigger] cpu_buffer.cells@[row as int * cols as int + c]
                        == spec_cell_record(
                        atlas.uv_map@,
                        grid_view(term_state.term)[row as int][c],
                    ),
                atlas.spec_capacity() > 0 ==> forall|i: int|
                    0 <= i < row * cols as int + col ==> (#[trigger] cpu_buffer.cells@[
                    i].glyph_index) < atlas.spec_capacity(),
            decreases cols - col,
        {
            let cell = term_state.cell_at(row, col);
            let record = cell_record(atlas, cell);
            proof {
                assert(row * cols as int + col < rows as int * cols as int) by (nonlinear_arith)
                    requires
                        0 <= row < rows,
                        0 <= col < cols,
                ;
            }
            let index: usize = row * cols + col;
            cpu_buffer.cells[index] = record;
            proof {
                assert forall|r: int, c: int| 0 <= r < row && 0 <= c < cols implies #[trigger]
                    cpu_buffer.cells@[r * cols as int + c] == spec_cell_record(
                    atlas.uv_map@,
                    grid_view(term_state.term)[r][c],
                ) by {
                    assert(r * cols as int + c < row * cols as int) by (nonlinear_arith)
                        requires
                            0 <= r < row,
                            0 <= c < cols,
                    ;
                }
            }
            col = col + 1;
        }
        proof {
            assert((row + 1) * cols as int == row * cols as int + cols as int)
                by (nonlinear_arith);
        }
        row = row + 1;
    }
    proof {
        if atlas.spec_capacity() > 0 {
            assert(rows as int * cols as int == cpu_buffer.cells@.len());
        }
    }
}

/// A grid holding one character at the origin, over an otherwise
/// default grid, builds a buffer whose first record carries that
/// character's slot and the packed default colors — foreground
/// 0xfff5cac0, background 0xff261b1a — and whose every other record is
/// the space-slot record with those same colors.  The record hypothesis
/// is exactly what `prepare_terminal_cpu_buffer` ensures of its output.
pub proof fn lemma_single_char_buffer(
    map: Map<u32, u32>,
    grid: Seq<Seq<GridCell>>,
    rows: int,
    cols: int,
    ch: char,
    cells: Seq<GpuTerminalCell>,
)
    requires
        1 <= rows,
        1 <= cols,
        grid.len() == rows,
        forall|r: int| 0 <= r < rows ==> (#[trigger] grid[r]).len() == cols,
        forall|r: int, c: int|
            0 <= r < rows && 0 <= c < cols ==> cells[r * cols + c] == spec_cell_record(
                map,
                #[trigger] grid[r][c],
            ),
        grid[0][0] == (GridCell {
            ch,
            fg: CellColor::Named(NAMED_FOREGROUND),
            bg: CellColor::Named(NAMED_BACKGROUND),
        }),
        forall|r: int, c: int|
            0 <= r < rows && 0 <= c < cols && !(r == 0 && c == 0) ==> #[trigger] grid[r][c]
                == default_grid_cell(),
    ensures
        cells[0] == (GpuTerminalCell {
            glyph_index: spec_slot_for(map, ch),
            fg_color: 0xfff5cac0,
            bg_color: 0xff261b1a,
            flags: 0,
        }),
        forall|r: int, c: int|
            0 <= r < rows && 0 <= c < cols && !(r == 0 && c == 0) ==> cells[#[trigger] (r * cols
                + c)] == (GpuTerminalCell {
                glyph_index: spec_slot_for(map, ' '),
                fg_color: 0xfff5cac0,
                bg_color: 0xff261b1a,
                flags: 0,
            }),
{
    assert(spec_pack_color(0xc0, 0xca, 0xf5) == 0xfff5cac0) by (bit_vector);
    assert(spec_pack_color(0x1a, 0x1b, 0x26) == 0xff261b1a) by (bit_vector);
    assert(cells[0 * cols + 0] == spec_cell_record(map, grid[0][0]));
    assert forall|r: int, c: int|
        0 <= r < rows && 0 <= c < cols && !(r == 0 && c == 0) implies cells[#[trigger] (r * cols
        + c)] == (GpuTerminalCell {
        glyph_index: spec_slot_for(map, ' '),
        fg_color: 0xfff5cac0,
        bg_color: 0xff261b1a,
        flags: 0,
    }) by {
        assert(grid[r][c] == default_grid_cell());
        assert(cells[r * cols + c] == spec_cell_record(map, grid[r][c]));
    }
}

} // verus!
