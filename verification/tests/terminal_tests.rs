//! Grid state tests against the real terminal engine.

use term_render::atlas::GlyphAtlas;
use term_render::colors::CellColor;
use term_render::gpu_prep::{prepare_terminal_cpu_buffer, TerminalCpuBuffer};
use term_render::terminal::TerminalState;

#[test]
fn test_round_trip_literal_string() {
    // bytes with no control sequences land in the grid unchanged
    let mut term = TerminalState::new();
    let text = "HELLO 123";
    term.process_bytes(text.as_bytes());
    for (i, expected) in text.chars().enumerate() {
        let cell = term.cell_at(0, i);
        assert_eq!(cell.ch, expected);
    }
    let visible = term.get_visible_text();
    let first_line = visible.lines().next().unwrap();
    assert!(first_line.starts_with("HELLO 123"));
}

#[test]
fn test_fresh_grid_is_blank() {
    let term = TerminalState::new();
    assert_eq!(term.cols, 120);
    assert_eq!(term.rows, 30);
    let cell = term.cell_at(0, 0);
    assert_eq!(cell.ch, ' ');
    assert_eq!(cell.fg, CellColor::Named(256));
    assert_eq!(cell.bg, CellColor::Named(257));
    assert!(term.get_content_summary().is_empty());
}

#[test]
fn test_visible_text_shape() {
    let term = TerminalState::new();
    let visible = term.get_visible_text();
    // 30 rows of 120 cells, each row followed by a newline
    assert_eq!(visible.len(), 30 * 121);
    assert_eq!(visible.lines().count(), 30);
}

#[test]
fn test_content_summary_trims_lines() {
    let mut term = TerminalState::new();
    term.process_bytes(b"  hi there  \r\n\r\nsecond");
    let summary = term.get_content_summary();
    assert_eq!(summary.len(), 2);
    assert_eq!(summary[0].0, 0);
    assert_eq!(summary[0].1, "hi there");
    assert_eq!(summary[1].0, 2);
    assert_eq!(summary[1].1, "second");
}

#[test]
fn test_content_summary_trims_unicode_whitespace() {
    // the summary trims the full white-space set, a no-break space
    // included, not only spaces and tabs
    let mut term = TerminalState::new();
    term.process_bytes("\u{a0}hi\u{a0}".as_bytes());
    let summary = term.get_content_summary();
    assert_eq!(summary.len(), 1);
    assert_eq!(summary[0].0, 0);
    assert_eq!(summary[0].1, "hi");
}

#[test]
fn test_cell_buffer_for_single_character() {
    // a grid holding the single character 'A' at (0,0) with default
    // colors: its record carries the atlas slot of 'A' and the packed
    // default colors; every other cell is the space-slot record
    let mut term = TerminalState::new();
    term.process_bytes(b"A");
    let chars = term_render::atlas::CharacterSets::all_mvp();
    let atlas = GlyphAtlas::with_layout(9, 17, &chars).unwrap();
    let mut buffer = TerminalCpuBuffer::default();
    prepare_terminal_cpu_buffer(&term, &atlas, &mut buffer);

    assert_eq!(buffer.cells.len(), 120 * 30);
    let a_slot = atlas.get_glyph_index('A').unwrap();
    let space_slot = atlas.get_glyph_index(' ').unwrap();
    let first = buffer.cells[0];
    assert_eq!(first.glyph_index, a_slot);
    assert_eq!(first.fg_color, 0xFFF5CAC0);
    assert_eq!(first.bg_color, 0xFF261B1A);
    assert_eq!(first.flags, 0);
    for i in 1..buffer.cells.len() {
        let cell = buffer.cells[i];
        assert_eq!(cell.glyph_index, space_slot);
        assert_eq!(cell.fg_color, 0xFFF5CAC0);
        assert_eq!(cell.bg_color, 0xFF261B1A);
    }
}

#[test]
fn test_missing_character_substitution() {
    // a character outside the inventory falls back to the '?' slot
    let mut term = TerminalState::new();
    term.process_bytes("\u{30A2}".as_bytes());
    let chars = term_render::atlas::CharacterSets::all_mvp();
    let atlas = GlyphAtlas::with_layout(9, 17, &chars).unwrap();
    let mut buffer = TerminalCpuBuffer::default();
    prepare_terminal_cpu_buffer(&term, &atlas, &mut buffer);
    let question_slot = atlas.get_glyph_index('?').unwrap();
    assert_eq!(buffer.cells[0].glyph_index, question_slot);
}

#[test]
fn test_gpu_prep_system() {
    // the grid "GPU_TEST" populates the buffer with the right glyph
    // slots and the packed default colors; the cell after the text is
    // the space slot
    let chars: Vec<char> = (32u8..=126).map(|c| c as char).collect();
    let atlas = GlyphAtlas::with_layout(8, 16, &chars).unwrap();
    let mut term = TerminalState::new();
    let test_str = "GPU_TEST";
    term.process_bytes(test_str.as_bytes());
    let mut buffer = TerminalCpuBuffer::default();
    prepare_terminal_cpu_buffer(&term, &atlas, &mut buffer);

    assert_eq!(buffer.cells.len(), 120 * 30, "Buffer size mismatch");
    for (i, ch) in test_str.chars().enumerate() {
        let cell = buffer.cells[i];
        let expected_index = atlas.get_glyph_index(ch).expect("Char missing from atlas");
        assert_eq!(cell.glyph_index, expected_index, "Wrong glyph index for char '{}'", ch);
        // FG: 0xC0CAF5 -> 0xFFF5CAC0 (little endian)
        assert_eq!(cell.fg_color, 0xFFF5CAC0, "Default FG color mismatch");
        // BG: 0x1A1B26 -> 0xFF261B1A
        assert_eq!(cell.bg_color, 0xFF261B1A, "Default BG color mismatch");
    }
    let space_cell = buffer.cells[test_str.len()];
    let space_index = atlas.get_glyph_index(' ').unwrap();
    assert_eq!(space_cell.glyph_index, space_index, "Space glyph mismatch");
}
