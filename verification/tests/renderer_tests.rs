//! Compositing, byte framing and dispatch tests.

use term_render::atlas::{blit_glyph, CellRect, GlyphAtlas};
use term_render::font::CoverageSample;
use term_render::gpu_types::{cells_to_bytes, uniforms_to_bytes, GpuTerminalCell};
use term_render::renderer::{blend_channel, composite_grid, dispatch_groups,
    initialize_terminal_texture, uniforms_for};

fn record(glyph: u32, fg: u32, bg: u32) -> GpuTerminalCell {
    GpuTerminalCell { glyph_index: glyph, fg_color: fg, bg_color: bg, flags: 0 }
}

/// A tiny atlas with 2 x 2 cells holding 'a' (left transparent) and
/// 'b' (blitted fully opaque).
fn tiny_atlas() -> GlyphAtlas {
    let chars = vec!['a', 'b'];
    let mut atlas = GlyphAtlas::with_layout(2, 2, &chars).unwrap();
    let samples = vec![
        CoverageSample { dx: 0, dy: 0, alpha: 255 },
        CoverageSample { dx: 1, dy: 0, alpha: 255 },
        CoverageSample { dx: 0, dy: 1, alpha: 255 },
        CoverageSample { dx: 1, dy: 1, alpha: 255 },
    ];
    let atlas_width = atlas.atlas_width;
    let atlas_height = atlas.atlas_height;
    // slot 1 sits at x = 2
    blit_glyph(
        &mut atlas.texture_data,
        atlas_width,
        atlas_height,
        CellRect { x: 2, y: 0, width: 2, height: 2 },
        0,
        0,
        &samples,
    );
    atlas
}

#[test]
fn test_transparent_cell_renders_background() {
    let atlas = tiny_atlas();
    let fg = 0xFF1E1410; // r=0x10 g=0x14 b=0x1E
    let bg = 0xFF3C3228; // r=0x28 g=0x32 b=0x3C
    let cells = vec![record(0, fg, bg), record(1, fg, bg)];
    let out = composite_grid(&atlas, &cells, 2, 1);
    // output is 4 x 2 pixels; the left cell (x < 2) is pure background
    assert_eq!(out.len(), 4 * 2 * 4);
    for y in 0..2usize {
        for x in 0..2usize {
            let idx = (y * 4 + x) * 4;
            assert_eq!(&out[idx..idx + 4], &[0x28, 0x32, 0x3C, 255]);
        }
    }
    // the right cell (x >= 2) is fully opaque glyph: pure foreground
    for y in 0..2usize {
        for x in 2..4usize {
            let idx = (y * 4 + x) * 4;
            assert_eq!(&out[idx..idx + 4], &[0x10, 0x14, 0x1E, 255]);
        }
    }
}

#[test]
fn test_blend_midpoint() {
    // intermediate alpha interpolates linearly by alpha / 255
    assert_eq!(blend_channel(200, 100, 0), 100);
    assert_eq!(blend_channel(200, 100, 255), 200);
    assert_eq!(blend_channel(200, 100, 128), (200u32 * 128 + 100 * 127).div_euclid(255) as u8);
    assert_eq!(blend_channel(255, 0, 51), 51);
}

#[test]
fn test_cells_to_bytes_layout() {
    // 4 consecutive little-endian 32-bit fields, 16 bytes per cell
    let cells = vec![record(1, 0x04030201, 0x08070605), record(2, 0, 0xFFFFFFFF)];
    let bytes = cells_to_bytes(&cells);
    assert_eq!(bytes.len(), 32);
    assert_eq!(&bytes[0..4], &[1, 0, 0, 0]);
    assert_eq!(&bytes[4..8], &[0x01, 0x02, 0x03, 0x04]);
    assert_eq!(&bytes[8..12], &[0x05, 0x06, 0x07, 0x08]);
    assert_eq!(&bytes[12..16], &[0, 0, 0, 0]);
    assert_eq!(&bytes[16..20], &[2, 0, 0, 0]);
    assert_eq!(&bytes[24..28], &[0xFF, 0xFF, 0xFF, 0xFF]);
}

#[test]
fn test_uniforms_to_bytes_layout() {
    let atlas = tiny_atlas();
    let uniforms = uniforms_for(&atlas, 120, 30);
    assert_eq!(uniforms.term_cols, 120);
    assert_eq!(uniforms.term_rows, 30);
    assert_eq!(uniforms.cell_width, 2);
    assert_eq!(uniforms.cell_height, 2);
    assert_eq!(uniforms.atlas_cols, 2048);
    assert_eq!(uniforms.atlas_rows, 2048);
    let bytes = uniforms_to_bytes(&uniforms);
    assert_eq!(bytes.len(), 32);
    assert_eq!(&bytes[0..4], &[120, 0, 0, 0]);
    assert_eq!(&bytes[4..8], &[30, 0, 0, 0]);
    assert_eq!(&bytes[8..12], &[2, 0, 0, 0]);
    assert_eq!(&bytes[16..20], &[0, 8, 0, 0]); // 2048 = 0x0800
    assert_eq!(&bytes[28..32], &[0, 0, 0, 0]);
}

#[test]
fn test_dispatch_groups_ceiling() {
    assert_eq!(dispatch_groups(0), 0);
    assert_eq!(dispatch_groups(1), 1);
    assert_eq!(dispatch_groups(8), 1);
    assert_eq!(dispatch_groups(9), 2);
    assert_eq!(dispatch_groups(1080), 135);
}

#[test]
fn test_initialize_terminal_texture() {
    // the fresh texture shows the cleared default background,
    // fully opaque, until the first dispatch overwrites it
    let atlas = tiny_atlas();
    let texture = initialize_terminal_texture(&atlas, 120, 30);
    assert_eq!(texture.width, 240);
    assert_eq!(texture.height, 60);
    assert_eq!(texture.data.len(), 240 * 60 * 4);
    assert_eq!(&texture.data[0..4], &[0x1a, 0x1b, 0x26, 255]);
    let last = texture.data.len() - 4;
    assert_eq!(&texture.data[last..], &[0x1a, 0x1b, 0x26, 255]);
}
