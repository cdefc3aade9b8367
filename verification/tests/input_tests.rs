//! Keyboard mapping tests.

use term_render::input::{keycode_to_bytes, Key};

#[test]
fn test_basic_ascii_lowercase() {
    assert_eq!(keycode_to_bytes(Key::KeyA, false, false), Some(b"a".to_vec()));
    assert_eq!(keycode_to_bytes(Key::Digit1, false, false), Some(b"1".to_vec()));
    assert_eq!(keycode_to_bytes(Key::Space, false, false), Some(b" ".to_vec()));
}

#[test]
fn test_shift_uppercase() {
    assert_eq!(keycode_to_bytes(Key::KeyA, true, false), Some(b"A".to_vec()));
    assert_eq!(keycode_to_bytes(Key::KeyZ, true, false), Some(b"Z".to_vec()));
    assert_eq!(keycode_to_bytes(Key::KeyM, true, false), Some(b"M".to_vec()));
}

#[test]
fn test_shift_symbols() {
    assert_eq!(keycode_to_bytes(Key::Digit1, true, false), Some(b"!".to_vec()));
    assert_eq!(keycode_to_bytes(Key::Digit2, true, false), Some(b"@".to_vec()));
    assert_eq!(keycode_to_bytes(Key::Digit3, true, false), Some(b"#".to_vec()));
    assert_eq!(keycode_to_bytes(Key::Digit4, true, false), Some(b"$".to_vec()));
    assert_eq!(keycode_to_bytes(Key::Digit5, true, false), Some(b"%".to_vec()));
    assert_eq!(keycode_to_bytes(Key::Digit8, true, false), Some(b"*".to_vec()));
    assert_eq!(keycode_to_bytes(Key::Digit9, true, false), Some(b"(".to_vec()));
    assert_eq!(keycode_to_bytes(Key::Minus, true, false), Some(b"_".to_vec()));
    assert_eq!(keycode_to_bytes(Key::Equal, true, false), Some(b"+".to_vec()));
}

#[test]
fn test_ctrl_sequences() {
    assert_eq!(keycode_to_bytes(Key::KeyC, false, true), Some(vec![0x03]));
    assert_eq!(keycode_to_bytes(Key::KeyD, false, true), Some(vec![0x04]));
    assert_eq!(keycode_to_bytes(Key::KeyL, false, true), Some(vec![0x0C]));
    assert_eq!(keycode_to_bytes(Key::KeyZ, false, true), Some(vec![0x1A]));
}

#[test]
fn test_special_keys() {
    assert_eq!(keycode_to_bytes(Key::Enter, false, false), Some(b"\r".to_vec()));
    assert_eq!(keycode_to_bytes(Key::Tab, false, false), Some(b"\t".to_vec()));
    assert_eq!(keycode_to_bytes(Key::Backspace, false, false), Some(b"\x7f".to_vec()));
}

#[test]
fn test_arrow_keys() {
    assert_eq!(keycode_to_bytes(Key::ArrowUp, false, false), Some(b"\x1b[A".to_vec()));
    assert_eq!(keycode_to_bytes(Key::ArrowDown, false, false), Some(b"\x1b[B".to_vec()));
    assert_eq!(keycode_to_bytes(Key::ArrowRight, false, false), Some(b"\x1b[C".to_vec()));
    assert_eq!(keycode_to_bytes(Key::ArrowLeft, false, false), Some(b"\x1b[D".to_vec()));
}

#[test]
fn test_unmapped_keys() {
    assert_eq!(keycode_to_bytes(Key::ShiftLeft, false, false), None);
    assert_eq!(keycode_to_bytes(Key::ControlLeft, false, false), None);
    assert_eq!(keycode_to_bytes(Key::AltLeft, false, false), None);
}

#[test]
fn test_ctrl_ignores_non_letters() {
    assert_eq!(keycode_to_bytes(Key::Digit1, false, true), None);
    assert_eq!(keycode_to_bytes(Key::Enter, false, true), None);
}

#[test]
fn test_navigation_keys() {
    assert_eq!(keycode_to_bytes(Key::Home, false, false), Some(b"\x1b[H".to_vec()));
    assert_eq!(keycode_to_bytes(Key::End, false, false), Some(b"\x1b[F".to_vec()));
    assert_eq!(keycode_to_bytes(Key::PageUp, false, false), Some(b"\x1b[5~".to_vec()));
    assert_eq!(keycode_to_bytes(Key::PageDown, false, false), Some(b"\x1b[6~".to_vec()));
    assert_eq!(keycode_to_bytes(Key::Delete, false, false), Some(b"\x1b[3~".to_vec()));
    assert_eq!(keycode_to_bytes(Key::Insert, false, false), Some(b"\x1b[2~".to_vec()));
}
