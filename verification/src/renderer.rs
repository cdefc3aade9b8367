//! Compositing the cell grid into an output texture.
//!
//! The output texture is `columns x cell_width` by `rows x cell_height`
//! pixels.  Each output pixel belongs to exactly one terminal cell; its
//! color is the cell's background where the glyph's atlas alpha is 0,
//! the foreground where the alpha is 255, and the linear interpolation
//! between them by `alpha / 255` otherwise, always fully opaque.  The
//! computation is a stateless per-pixel map with no dependency between
//! pixels; on the GPU it runs as a compute dispatch over a 2-D grid of
//! 8 by 8 work groups, and [`composite_grid`] is the same map on the
//! CPU, verified pixel by pixel.

use vstd::prelude::*;
use crate::atlas::{GlyphAtlas, pixel_byte_index};
use crate::gpu_types::{GpuTerminalCell, TerminalUniforms, le_byte};

verus! {

/// One color channel of the three-way blend: background at alpha 0,
/// foreground at alpha 255, and the linear interpolation by
/// `alpha / 255` in between.
pub open spec fn spec_blend_channel(fg: u8, bg: u8, alpha: u8) -> u8 {
    if alpha == 0 {
        bg
    } else if alpha == 255 {
        fg
    } else {
        (((fg as int) * (alpha as int) + (bg as int) * (255 - alpha as int)) / 255) as u8
    }
}

/// Blends one color channel of a pixel.
pub fn blend_channel(fg: u8, bg: u8, alpha: u8) -> (r: u8)
    ensures
        r == spec_blend_channel(fg, bg, alpha),
{
    if alpha == 0 {
        bg
    } else if alpha == 255 {
        fg
    } else {
        proof {
            assert((fg as int) * (alpha as int) <= 255 * 255 && 0 <= (fg as int) * (alpha as int))
                by (nonlinear_arith)
                requires
                    0 <= fg < 256,
                    0 <= alpha < 256,
            ;
            assert((bg as int) * (255 - alpha as int) <= 255 * 255 && 0 <= (bg as int) * (255
                - alpha as int)) by (nonlinear_arith)
                requires
                    0 <= bg < 256,
                    0 < alpha < 255,
            ;
        }
        let num: u32 = (fg as u32) * (alpha as u32) + (bg as u32) * (255 - alpha as u32);
        (num / 255) as u8
    }
}

/// The extremes of the blend are exact copies: a fully transparent
/// atlas pixel shows the background unchanged and a fully opaque one
/// the foreground unchanged, on every channel.
pub proof fn lemma_blend_extremes(fg: u8, bg: u8)
    ensures
        spec_blend_channel(fg, bg, 0) == bg,
        spec_blend_channel(fg, bg, 255) == fg,
{
}

/// The alpha the atlas holds for an output pixel: the pixel's offset
/// inside its cell, looked up inside the glyph slot of the cell's
/// record.  `cells` is the row-major record array of a `cols`-wide grid.
pub open spec fn spec_atlas_alpha_at(
    a: GlyphAtlas,
    cells: Seq<GpuTerminalCell>,
    cols: int,
    x: int,
    y: int,
) -> u8 {
    let cw = a.cell_width as int;
    let ch = a.cell_height as int;
    let record = cells[(y / ch) * cols + (x / cw)];
    let slot = record.glyph_index as int;
    let sx = a.spec_slot_x(slot) + (x % cw);
    let sy = a.spec_slot_y(slot) + (y % ch);
    a.texture_data@[pixel_byte_index(a.atlas_width as int, sx, sy) + 3]
}

/// Channel `c` (red, green, blue from 0 to 2; 3 is alpha, always 255)
/// of the output pixel `(x, y)`: the cell's packed colors blended by
/// the glyph's atlas alpha.
pub open spec fn spec_output_channel(
    a: GlyphAtlas,
    cells: Seq<GpuTerminalCell>,
    cols: int,
    x: int,
    y: int,
    c: int,
) -> u8 {
    if c == 3 {
        255
    } else {
        let record = cells[(y / a.cell_height as int) * cols + (x / a.cell_width as int)];
        let alpha = spec_atlas_alpha_at(a, cells, cols, x, y);
        spec_blend_channel(le_byte(record.fg_color, c), le_byte(record.bg_color, c), alpha)
    }
}

/// All glyph slot indices of the records lie within the atlas capacity.
pub open spec fn records_in_capacity(cells: Seq<GpuTerminalCell>, a: GlyphAtlas) -> bool {
    forall|i: int|
        0 <= i < cells.len() ==> (#[trigger] cells[i].glyph_index) < a.spec_capacity()
}

/// Extracts one little-endian byte of a 32-bit word.
fn word_byte(word: u32, c: usize) -> (r: u8)
    requires
        c < 4,
    ensures
        r == le_byte(word, c as int),
{
    if c == 0 {
        ((word >> 0) & 0xff) as u8
    } else if c == 1 {
        ((word >> 8) & 0xff) as u8
    } else if c == 2 {
        ((word >> 16) & 0xff) as u8
    } else {
        ((word >> 24) & 0xff) as u8
    }
}

/// Composites the whole grid into a fresh RGBA texture of
/// `cols * cell_width` by `rows * cell_height` pixels: every output
/// pixel is its cell's background, foreground, or the blend of the two
/// by the glyph's atlas alpha, and fully opaque.
#[verifier::rlimit(100)]
pub fn composite_grid(
    atlas: &GlyphAtlas,
    cells: &Vec<GpuTerminalCell>,
    cols: u32,
    rows: u32,
) -> (out: Vec<u8>)
    requires
        atlas.wf(),
        cells@.len() == cols as int * rows as int,
        records_in_capacity(cells@, *atlas),
        cols as int * atlas.cell_width as int <= 0xffff,
        rows as int * atlas.cell_height as int <= 0xffff,
    ensures
        out@.len() == (cols * atlas.cell_width) as int * (rows * atlas.cell_height) as int * 4,
        forall|x: int, y: int, c: int|
            0 <= x < cols * atlas.cell_width && 0 <= y < rows * atlas.cell_height && 0 <= c < 4
                ==> #[trigger] out@[pixel_byte_index((cols * atlas.cell_width) as int, x, y) + c]
                == spec_output_channel(*atlas, cells@, cols as int, x, y, c),
{
    let width: u32 = cols * atlas.cell_width;
    let height: u32 = rows * atlas.cell_height;
    let ghost w = width as int;
    let mut out: Vec<u8> = Vec::new();
    let mut y: u32 = 0;
    while y < height
        invariant
            y <= height,
            width == cols * atlas.cell_width,
            height == rows * atlas.cell_height,
            width <= 0xffff,
            height <= 0xffff,
            w == width as int,
            atlas.wf(),
            cells@.len() == cols as int * rows as int,
            records_in_capacity(cells@, *atlas),
            out@.len() == y as int * w * 4,
            forall|qx: int, qy: int, c: int|
                0 <= qx < width && 0 <= qy < y && 0 <= c < 4 ==> #[trigger] out@[
                pixel_byte_index(w, qx, qy) + c] == spec_output_channel(
                    *atlas,
                    cells@,
                    cols as int,
                    qx,
                    qy,
                    c,
                ),
        decreases height - y,
    {
        let mut x: u32 = 0;
        while x < width
            invariant
                x <= width,
                y < height,
                width == cols * atlas.cell_width,
                height == rows * atlas.cell_height,
                width <= 0xffff,
                height <= 0xffff,
                w == width as int,
                atlas.wf(),
                cells@.len() == cols as int * rows as int,
                records_in_capacity(cells@, *atlas),
                out@.len() == y as int * w * 4 + x as int * 4,
                forall|qx: int, qy: int, c: int|
                    0 <= qx < width && 0 <= qy < y && 0 <= c < 4 ==> #[trigger] out@[
                    pixel_byte_index(w, qx, qy) + c] == spec_output_channel(
                        *atlas,
                        cells@,
                        cols as int,
                        qx,
                        qy,
                        c,
                    ),
                forall|qx: int, c: int|
                    0 <= qx < x && 0 <= c < 4 ==> #[trigger] out@[pixel_byte_index(w, qx, y as int)
                        + c] == spec_output_channel(
                        *atlas,
                        cells@,
                        cols as int,
                        qx,
                        y as int,
                        c,
                    ),
            decreases width - x,
        {
            let row: u32 = y / atlas.cell_height;
            let col: u32 = x / atlas.cell_width;
            proof {
                assert(row < rows && col < cols) by (nonlinear_arith)
                    requires
                        atlas.cell_width >= 1,
                        atlas.cell_height >= 1,
                        row == y as int / atlas.cell_height as int,
                        col == x as int / atlas.cell_width as int,
                        0 <= y < rows * atlas.cell_height,
                        0 <= x < cols * atlas.cell_width,
                ;
                assert(row as int * cols as int + col < cols as int * rows as int)
                    by (nonlinear_arith)
                    requires
                        0 <= row < rows,
                        0 <= col < cols,
                ;
            }
            let n_cells: usize = cells.len();
            let cell_index: usize = (row as usize) * (cols as usize) + (col as usize);
            let record = cells[cell_index];
            let slot = record.glyph_index;
            proof {
                crate::atlas::lemma_slot_rect_in_bounds(*atlas, slot as int);
            }
            let cpr = atlas.cells_per_row();
            let x_in_cell = x % atlas.cell_width;
            let y_in_cell = y % atlas.cell_height;
            let sx: u32 = (slot % cpr) * atlas.cell_width + x_in_cell;
            let sy: u32 = (slot / cpr) * atlas.cell_height + y_in_cell;
            proof {
                assert(sx < atlas.atlas_width && sy < atlas.atlas_height);
                crate::atlas::lemma_pixel_index_in_bounds(
                    atlas.atlas_width as int,
                    atlas.atlas_height as int,
                    sx as int,
                    sy as int,
                );
                assert(pixel_byte_index(atlas.atlas_width as int, sx as int, sy as int) + 4
                    <= atlas.texture_data@.len());
                assert((sy as usize * (atlas.atlas_width as usize) + sx as usize) * 4
                    == pixel_byte_index(atlas.atlas_width as int, sx as int, sy as int))
                    by (nonlinear_arith)
                    requires
                        sy as usize == sy as int,
                        sx as usize == sx as int,
                ;
            }
            let tex_len: usize = atlas.texture_data.len();
            let alpha_index: usize = (sy as usize * (atlas.atlas_width as usize) + sx as usize)
                * 4 + 3;
            let alpha: u8 = atlas.texture_data[alpha_index];
            let fg0 = word_byte(record.fg_color, 0);
            let fg1 = word_byte(record.fg_color, 1);
            let fg2 = word_byte(record.fg_color, 2);
            let bg0 = word_byte(record.bg_color, 0);
            let bg1 = word_byte(record.bg_color, 1);
            let bg2 = word_byte(record.bg_color, 2);
            let ghost pre = out@;
            out.push(blend_channel(fg0, bg0, alpha));
            out.push(blend_channel(fg1, bg1, alpha));
            out.push(blend_channel(fg2, bg2, alpha));
            out.push(255);
            proof {
                assert(pixel_byte_index(w, x as int, y as int) == y as int * w * 4 + x as int
                    * 4) by (nonlinear_arith)
                    requires
                        w >= 0,
                ;
                assert(alpha == spec_atlas_alpha_at(*atlas, cells@, cols as int, x as int,
                    y as int));
                assert forall|qx: int, qy: int, c: int|
                    0 <= qx < width && 0 <= qy < y && 0 <= c < 4 implies #[trigger] out@[
                pixel_byte_index(w, qx, qy) + c] == spec_output_channel(
                    *atlas,
                    cells@,
                    cols as int,
                    qx,
                    qy,
                    c,
                ) by {
                    assert(0 <= pixel_byte_index(w, qx, qy) && pixel_byte_index(w, qx, qy) + c
                        < pre.len()) by (nonlinear_arith)
                        requires
                            0 <= qx < w,
                            0 <= qy < y,
                            0 <= c < 4,
                            pre.len() == y as int * w * 4 + x as int * 4,
                    ;
                    assert(out@[pixel_byte_index(w, qx, qy) + c] == pre[pixel_byte_index(w, qx,
                        qy) + c]);
                }
                assert forall|qx: int, c: int|
                    0 <= qx < x + 1 && 0 <= c < 4 implies #[trigger] out@[pixel_byte_index(
                    w,
                    qx,
                    y as int,
                ) + c] == spec_output_channel(*atlas, cells@, cols as int, qx, y as int, c) by {
                    assert(pixel_byte_index(w, qx, y as int) == y as int * w * 4 + qx * 4)
                        by (nonlinear_arith)
                        requires
                            w >= 0,
                    ;
                    if qx < x {
                        assert(out@[pixel_byte_index(w, qx, y as int) + c] == pre[
                        pixel_byte_index(w, qx, y as int) + c]);
                    }
                }
            }
            x = x + 1;
        }
        proof {
            assert((y + 1) * w * 4 == y as int * w * 4 + w * 4) by (nonlinear_arith);
            assert forall|qx: int, qy: int, c: int|
                0 <= qx < width && 0 <= qy < y + 1 && 0 <= c < 4 implies #[trigger] out@[
            pixel_byte_index(w, qx, qy) + c] == spec_output_channel(
                *atlas,
                cells@,
                cols as int,
                qx,
                qy,
                c,
            ) by {
                if qy == y as int {
                    assert(out@[pixel_byte_index(w, qx, y as int) + c] == spec_output_channel(
                        *atlas,
                        cells@,
                        cols as int,
                        qx,
                        y as int,
                        c,
                    ));
                }
            }
        }
        y = y + 1;
    }
    proof {
        assert(out@.len() == height as int * w * 4);
        assert(height as int * w * 4 == w * (height as int) * 4) by (nonlinear_arith);
    }
    out
}

/// A cell whose glyph slot the atlas left fully transparent renders
/// exactly its background color at every pixel of the cell's region in
/// the output texture.
pub proof fn lemma_transparent_cell_shows_background(
    a: GlyphAtlas,
    cells: Seq<GpuTerminalCell>,
    cols: int,
    rows: int,
    row: int,
    col: int,
    x: int,
    y: int,
    c: int,
)
    requires
        a.wf(),
        cells.len() == cols * rows,
        0 <= row < rows,
        0 <= col < cols,
        forall|dx: int, dy: int|
            0 <= dx < a.cell_width && 0 <= dy < a.cell_height ==> #[trigger] a.texture_data@[
                pixel_byte_index(
                    a.atlas_width as int,
                    a.spec_slot_x(cells[row * cols + col].glyph_index as int) + dx,
                    a.spec_slot_y(cells[row * cols + col].glyph_index as int) + dy,
                ) + 3] == 0,
        col * a.cell_width <= x < (col + 1) * a.cell_width,
        row * a.cell_height <= y < (row + 1) * a.cell_height,
        0 <= c < 3,
    ensures
        spec_output_channel(a, cells, cols, x, y, c) == le_byte(
            cells[row * cols + col].bg_color,
            c,
        ),
{
    let cw = a.cell_width as int;
    let ch = a.cell_height as int;
    assert(x / cw == col && x % cw == x - col * cw) by (nonlinear_arith)
        requires
            cw >= 1,
            col * cw <= x < (col + 1) * cw,
    ;
    assert(y / ch == row && y % ch == y - row * ch) by (nonlinear_arith)
        requires
            ch >= 1,
            row * ch <= y < (row + 1) * ch,
    ;
    let slot = cells[row * cols + col].glyph_index as int;
    assert(a.texture_data@[pixel_byte_index(
        a.atlas_width as int,
        a.spec_slot_x(slot) + (x % cw),
        a.spec_slot_y(slot) + (y % ch),
    ) + 3] == 0);
    lemma_blend_extremes(
        le_byte(cells[row * cols + col].fg_color, c),
        le_byte(cells[row * cols + col].bg_color, c),
    );
}

/// An output pixel whose glyph alpha in the atlas is fully opaque
/// renders exactly the cell's foreground color.
pub proof fn lemma_opaque_pixel_shows_foreground(
    a: GlyphAtlas,
    cells: Seq<GpuTerminalCell>,
    cols: int,
    rows: int,
    row: int,
    col: int,
    x: int,
    y: int,
    c: int,
)
    requires
        a.wf(),
        cells.len() == cols * rows,
        0 <= row < rows,
        0 <= col < cols,
        col * a.cell_width <= x < (col + 1) * a.cell_width,
        row * a.cell_height <= y < (row + 1) * a.cell_height,
        a.texture_data@[pixel_byte_index(
            a.atlas_width as int,
            a.spec_slot_x(cells[row * cols + col].glyph_index as int) + (x - col
                * a.cell_width),
            a.spec_slot_y(cells[row * cols + col].glyph_index as int) + (y - row
                * a.cell_height),
        ) + 3] == 255,
        0 <= c < 3,
    ensures
        spec_output_channel(a, cells, cols, x, y, c) == le_byte(
            cells[row * cols + col].fg_color,
            c,
        ),
{
    let cw = a.cell_width as int;
    let ch = a.cell_height as int;
    assert(x / cw == col && x % cw == x - col * cw) by (nonlinear_arith)
        requires
            cw >= 1,
            col * cw <= x < (col + 1) * cw,
    ;
    assert(y / ch == row && y % ch == y - row * ch) by (nonlinear_arith)
        requires
            ch >= 1,
            row * ch <= y < (row + 1) * ch,
    ;
    lemma_blend_extremes(
        le_byte(cells[row * cols + col].fg_color, c),
        le_byte(cells[row * cols + col].bg_color, c),
    );
}

/// The uniform block describing this terminal and atlas geometry.
pub fn uniforms_for(atlas: &GlyphAtlas, cols: u32, rows: u32) -> (u: TerminalUniforms)
    requires
        atlas.wf(),
    ensures
        u.term_cols == cols,
        u.term_rows == rows,
        u.cell_width == atlas.cell_width,
        u.cell_height == atlas.cell_height,
        u.atlas_cols == atlas.spec_cells_per_row(),
        u.atlas_rows == atlas.spec_cells_per_column(),
        u.pad0 == 0 && u.pad1 == 0,
{
    TerminalUniforms {
        term_cols: cols,
        term_rows: rows,
        cell_width: atlas.cell_width,
        cell_height: atlas.cell_height,
        atlas_cols: atlas.cells_per_row(),
        atlas_rows: atlas.cells_per_column(),
        pad0: 0,
        pad1: 0,
    }
}

/// How many work groups a dispatch needs along one axis: the extent
/// divided by the work-group size of 8, rounded up — the smallest count
/// whose groups cover every pixel.
pub fn dispatch_groups(extent: u32) -> (groups: u32)
    requires
        extent <= 0xffff_fff8,
    ensures
        groups == (extent + 7) / 8,
        groups * 8 >= extent,
        extent > 0 ==> (groups - 1) * 8 < extent,
{
    (extent + 7) / 8
}

/// The terminal's output texture: RGBA pixel data the host uploads or
/// displays, sized to the grid.
pub struct TerminalTexture {
    /// RGBA pixel data, row-major.
    pub data: Vec<u8>,
    /// Texture width in pixels.
    pub width: u32,
    /// Texture height in pixels.
    pub height: u32,
}

/// Creates the terminal's output texture, sized `cols * cell_width` by
/// `rows * cell_height` and cleared to the opaque default background
/// color: until the first dispatch runs, the cleared background is what
/// remains visible.
pub fn initialize_terminal_texture(atlas: &GlyphAtlas, cols: u32, rows: u32) -> (t:
    TerminalTexture)
    requires
        atlas.wf(),
        cols as int * atlas.cell_width as int <= 0x4000,
        rows as int * atlas.cell_height as int <= 0x4000,
    ensures
        t.width == cols * atlas.cell_width,
        t.height == rows * atlas.cell_height,
        t.data@.len() == t.width as int * t.height as int * 4,
        forall|n: int|
            0 <= n < t.data@.len() ==> #[trigger] t.data@[n] == (if n % 4 == 0 {
                crate::colors::spec_background().0
            } else if n % 4 == 1 {
                crate::colors::spec_background().1
            } else if n % 4 == 2 {
                crate::colors::spec_background().2
            } else {
                255u8
            }),
{
    let width: u32 = cols * atlas.cell_width;
    let height: u32 = rows * atlas.cell_height;
    proof {
        assert(width as int * height as int * 4 <= 0x4000 * 0x4000 * 4) by (nonlinear_arith)
            requires
                0 <= width <= 0x4000,
                0 <= height <= 0x4000,
        ;
        assert((width as int * height as int * 4) % 4 == 0) by (nonlinear_arith);
    }
    let len: usize = (width as usize) * (height as usize) * 4;
    let mut data: Vec<u8> = Vec::new();
    let mut n: usize = 0;
    while n < len
        invariant
            n <= len,
            n % 4 == 0,
            len % 4 == 0,
            data@.len() == n,
            forall|m: int|
                0 <= m < n ==> #[trigger] data@[m] == (if m % 4 == 0 {
                    crate::colors::spec_background().0
                } else if m % 4 == 1 {
                    crate::colors::spec_background().1
                } else if m % 4 == 2 {
                    crate::colors::spec_background().2
                } else {
                    255u8
                }),
        decreases len - n,
    {
        data.push(0x1a);
        data.push(0x1b);
        data.push(0x26);
        data.push(255);
        n = n + 4;
    }
    proof {
        assert(len as int == width as int * height as int * 4);
        assert((width as int * height as int) * 4 % 4 == 0) by (nonlinear_arith);
    }
    TerminalTexture { data, width, height }
}

} // verus!
