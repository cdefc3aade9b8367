//! Atlas layout, capacity and rasterization tests.

use term_render::atlas::{CharacterSets, GlyphAtlas, AtlasError, CellRect, ATLAS_SIZE};
use term_render::font::{CoverageSample, FontMetrics, GlyphBounds, GlyphRaster, FONT_SIZE};

fn empty_rasters(n: usize) -> Vec<GlyphRaster> {
    let mut rasters = Vec::new();
    for _ in 0..n {
        rasters.push(GlyphRaster { bounds: None, samples: Vec::new() });
    }
    rasters
}

#[test]
fn test_character_sets() {
    let ascii = CharacterSets::ascii();
    assert_eq!(ascii.len(), 95); // 32-126 inclusive
    assert_eq!(ascii[0], ' ');
    assert_eq!(ascii[ascii.len() - 1], '~');

    let box_drawing = CharacterSets::box_drawing();
    assert!(!box_drawing.is_empty());

    let blocks = CharacterSets::block_elements();
    assert!(!blocks.is_empty());

    let all = CharacterSets::all_mvp();
    assert_eq!(all.len(), ascii.len() + box_drawing.len() + blocks.len());
}

#[test]
fn test_layout_assigns_slots_in_order() {
    let chars = vec!['A', 'B', 'C', '1', '2', '3'];
    let atlas = GlyphAtlas::with_layout(14, 28, &chars).expect("layout should fit");
    assert_eq!(atlas.atlas_width, ATLAS_SIZE);
    assert_eq!(atlas.atlas_height, ATLAS_SIZE);
    assert_eq!(atlas.texture_data.len(), (ATLAS_SIZE as usize) * (ATLAS_SIZE as usize) * 4);
    for (i, &ch) in chars.iter().enumerate() {
        assert_eq!(atlas.get_glyph_index(ch), Some(i as u32));
    }
    assert_eq!(atlas.get_glyph_index('z'), None);
}

#[test]
fn test_lookup_rects_in_bounds_and_disjoint() {
    let chars = CharacterSets::all_mvp();
    let atlas = GlyphAtlas::with_layout(9, 17, &chars).expect("layout should fit");
    let mut rects: Vec<CellRect> = Vec::new();
    for &ch in chars.iter() {
        let rect = atlas.get_uv(ch).expect("character should be in atlas");
        assert!(rect.x + rect.width <= atlas.atlas_width);
        assert!(rect.y + rect.height <= atlas.atlas_height);
        assert_eq!(rect.width, 9);
        assert_eq!(rect.height, 17);
        rects.push(rect);
    }
    // the count of distinct rectangles equals the inventory size
    for i in 0..rects.len() {
        for j in 0..i {
            let a = rects[i];
            let b = rects[j];
            let overlap_x = a.x < b.x + b.width && b.x < a.x + a.width;
            let overlap_y = a.y < b.y + b.height && b.y < a.y + a.height;
            assert!(!(overlap_x && overlap_y), "rects of two characters overlap");
        }
    }
    assert_eq!(rects.len(), chars.len());
}

#[test]
fn test_capacity_boundary_exact_fill() {
    // 1024 x 1024 cells: exactly 4 x 4 = 16 slots in the atlas
    let cell: u32 = 1024;
    let mut chars: Vec<char> = Vec::new();
    let mut cp: u32 = 65;
    while chars.len() < 16 {
        chars.push(char::from_u32(cp).unwrap());
        cp += 1;
    }
    let rasters = empty_rasters(16);
    let metrics = FontMetrics::new(cell, cell, 10, FONT_SIZE).unwrap();
    let atlas = GlyphAtlas::generate(&metrics, &chars, &rasters)
        .expect("an inventory that exactly fills the atlas must succeed");
    assert_eq!(atlas.uv_map.len(), 16);
}

#[test]
fn test_capacity_boundary_one_over() {
    let cell: u32 = 1024;
    let mut chars: Vec<char> = Vec::new();
    let mut cp: u32 = 65;
    while chars.len() < 17 {
        chars.push(char::from_u32(cp).unwrap());
        cp += 1;
    }
    let rasters = empty_rasters(17);
    let metrics = FontMetrics::new(cell, cell, 10, FONT_SIZE).unwrap();
    let result = GlyphAtlas::generate(&metrics, &chars, &rasters);
    match result {
        Err(AtlasError::CapacityExceeded) => {}
        Ok(_) => panic!("one character over capacity must fail, and produce no atlas"),
    }
}

#[test]
fn test_generate_blits_coverage_into_cell() {
    // cell 4 x 4, two characters: the first invisible, the second with
    // a 2-wide outline starting at the glyph origin
    let metrics = FontMetrics::new(4, 4, 2, FONT_SIZE).unwrap();
    let chars = vec!['a', 'b'];
    let rasters = vec![
        GlyphRaster { bounds: None, samples: Vec::new() },
        GlyphRaster {
            bounds: Some(GlyphBounds { min_y: 0, width: 2 }),
            samples: vec![CoverageSample { dx: 0, dy: 0, alpha: 200 }],
        },
    ];
    let atlas = GlyphAtlas::generate(&metrics, &chars, &rasters).unwrap();
    // slot 0 ('a'): fully transparent
    for py in 0..4u32 {
        for px in 0..4u32 {
            let idx = ((py * atlas.atlas_width + px) * 4) as usize;
            assert_eq!(&atlas.texture_data[idx..idx + 4], &[0, 0, 0, 0]);
        }
    }
    // slot 1 ('b') starts at x = 4; horizontal centering (4-2)/2 = 1,
    // vertical offset = baseline - min_y = 2
    let px = 4 + 1;
    let py = 2;
    let idx = ((py * atlas.atlas_width + px) * 4) as usize;
    assert_eq!(&atlas.texture_data[idx..idx + 4], &[255, 255, 255, 200]);
    // a neighboring pixel of the same cell stays transparent
    let idx2 = ((py * atlas.atlas_width + px + 1) * 4) as usize;
    assert_eq!(&atlas.texture_data[idx2..idx2 + 4], &[0, 0, 0, 0]);
}

#[test]
fn test_overflowing_outline_is_clamped() {
    // a sample whose target lies outside the 4 x 4 cell is discarded
    let metrics = FontMetrics::new(4, 4, 0, FONT_SIZE).unwrap();
    let chars = vec!['x', 'y'];
    let rasters = vec![
        GlyphRaster {
            bounds: Some(GlyphBounds { min_y: 0, width: 4 }),
            samples: vec![CoverageSample { dx: 5, dy: 0, alpha: 255 }],
        },
        GlyphRaster { bounds: None, samples: Vec::new() },
    ];
    let atlas = GlyphAtlas::generate(&metrics, &chars, &rasters).unwrap();
    // nothing anywhere: the only sample fell outside its cell, and in
    // particular the neighboring cell ('y') it pointed into stays clean
    for py in 0..4u32 {
        for px in 0..8u32 {
            let idx = ((py * atlas.atlas_width + px) * 4) as usize;
            assert_eq!(&atlas.texture_data[idx..idx + 4], &[0, 0, 0, 0]);
        }
    }
}

#[test]
fn test_generate_mvp_layout() {
    let metrics = FontMetrics::new(9, 17, 13, FONT_SIZE).unwrap();
    let rasters = empty_rasters(255);
    let atlas = GlyphAtlas::generate_mvp(&metrics, &rasters).expect("inventory fits");
    assert_eq!(atlas.uv_map.len(), 255);
    assert!(atlas.get_uv('A').is_some());
    assert!(atlas.get_uv('z').is_some());
    assert!(atlas.get_uv('0').is_some());
    assert!(atlas.get_uv('@').is_some());
    assert!(atlas.get_uv(' ').is_some());
    assert_eq!(atlas.get_glyph_index(' '), Some(0));
    assert_eq!(atlas.get_glyph_index('A'), Some(33));
    assert_eq!(atlas.get_glyph_index('?'), Some(31));
}

#[test]
fn test_degenerate_metrics_rejected() {
    assert!(FontMetrics::new(0, 17, 13, FONT_SIZE).is_err());
    assert!(FontMetrics::new(9, 0, 13, FONT_SIZE).is_err());
}
