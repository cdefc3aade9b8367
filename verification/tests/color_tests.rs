//! Color conversion and packing tests.

use term_render::colors::{convert_alacritty_color, pack_color, CellColor, NAMED_BACKGROUND,
    NAMED_FOREGROUND};

#[test]
fn test_pack_color_example() {
    // little-endian byte order R, G, B, A with alpha 255
    assert_eq!(pack_color((0xC0, 0xCA, 0xF5)), 0xFFF5CAC0);
}

#[test]
fn test_pack_color_zero() {
    assert_eq!(pack_color((0, 0, 0)), 0xFF000000);
}

#[test]
fn test_named_base_colors() {
    assert_eq!(convert_alacritty_color(CellColor::Named(0)), (0x1a, 0x1b, 0x26));
    assert_eq!(convert_alacritty_color(CellColor::Named(1)), (0xf7, 0x76, 0x8e));
    assert_eq!(convert_alacritty_color(CellColor::Named(2)), (0x9e, 0xce, 0x6a));
    assert_eq!(convert_alacritty_color(CellColor::Named(3)), (0xe0, 0xaf, 0x68));
    assert_eq!(convert_alacritty_color(CellColor::Named(4)), (0x7a, 0xa2, 0xf7));
    assert_eq!(convert_alacritty_color(CellColor::Named(5)), (0xbb, 0x9a, 0xf7));
    assert_eq!(convert_alacritty_color(CellColor::Named(6)), (0x7d, 0xcf, 0xff));
    assert_eq!(convert_alacritty_color(CellColor::Named(7)), (0xc0, 0xca, 0xf5));
}

#[test]
fn test_named_bright_colors() {
    // bright black has its own entry; the other bright colors reuse
    // their base entries
    assert_eq!(convert_alacritty_color(CellColor::Named(8)), (0x41, 0x4b, 0x6b));
    assert_eq!(convert_alacritty_color(CellColor::Named(9)), (0xf7, 0x76, 0x8e));
    assert_eq!(convert_alacritty_color(CellColor::Named(15)), (0xc0, 0xca, 0xf5));
}

#[test]
fn test_named_foreground_background() {
    assert_eq!(convert_alacritty_color(CellColor::Named(NAMED_FOREGROUND)), (0xc0, 0xca, 0xf5));
    assert_eq!(convert_alacritty_color(CellColor::Named(NAMED_BACKGROUND)), (0x1a, 0x1b, 0x26));
    // any other named code defaults to the foreground
    assert_eq!(convert_alacritty_color(CellColor::Named(258)), (0xc0, 0xca, 0xf5));
    assert_eq!(convert_alacritty_color(CellColor::Named(100)), (0xc0, 0xca, 0xf5));
}

#[test]
fn test_rgb_passes_through() {
    assert_eq!(convert_alacritty_color(CellColor::Rgb(1, 2, 3)), (1, 2, 3));
    assert_eq!(convert_alacritty_color(CellColor::Rgb(255, 0, 128)), (255, 0, 128));
}

#[test]
fn test_indexed_colors() {
    // the first 8 indices map to the base palette, the rest default to
    // the foreground: a known simplification of the 256-color table
    assert_eq!(convert_alacritty_color(CellColor::Indexed(0)), (0x1a, 0x1b, 0x26));
    assert_eq!(convert_alacritty_color(CellColor::Indexed(4)), (0x7a, 0xa2, 0xf7));
    assert_eq!(convert_alacritty_color(CellColor::Indexed(7)), (0xc0, 0xca, 0xf5));
    assert_eq!(convert_alacritty_color(CellColor::Indexed(8)), (0xc0, 0xca, 0xf5));
    assert_eq!(convert_alacritty_color(CellColor::Indexed(200)), (0xc0, 0xca, 0xf5));
}
