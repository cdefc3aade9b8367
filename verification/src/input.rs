//! Keyboard-to-byte-sequence mapping.
//!
//! The host captures key presses and hands them to the library as plain
//! `Key` values together with the shift and control modifier state; the
//! library answers with the byte sequence to inject into the terminal's
//! input stream: ASCII characters, control bytes, or ANSI escape
//! sequences.  Keys that do not map to terminal input give no bytes.

use vstd::prelude::*;

verus! {

/// A keyboard key, by physical position: letters, digits, punctuation,
/// control keys, arrows and navigation keys, and the modifier keys
/// themselves (which map to no bytes of their own).
#[derive(Clone, Copy, PartialEq, Eq, Structural, Debug)]
#[allow(missing_docs)]
pub enum Key {
    KeyA, KeyB, KeyC, KeyD, KeyE, KeyF, KeyG, KeyH, KeyI, KeyJ, KeyK, KeyL, KeyM,
    KeyN, KeyO, KeyP, KeyQ, KeyR, KeyS, KeyT, KeyU, KeyV, KeyW, KeyX, KeyY, KeyZ,
    Digit0, Digit1, Digit2, Digit3, Digit4, Digit5, Digit6, Digit7, Digit8, Digit9,
    Space, Minus, Equal, BracketLeft, BracketRight, Backslash, Semicolon, Quote,
    Comma, Period, Slash, Backquote,
    Enter, Tab, Backspace, Escape,
    ArrowUp, ArrowDown, ArrowRight, ArrowLeft,
    Home, End, PageUp, PageDown, Delete, Insert,
    ShiftLeft, ShiftRight, ControlLeft, ControlRight, AltLeft, AltRight,
}

/// Whether keyboard input is routed to the terminal; when disabled, key
/// presses are ignored so the host can use them for its own modes.
#[derive(Clone, Copy, PartialEq, Eq, Structural, Debug)]
pub struct TerminalInputEnabled {
    /// True when key presses should reach the terminal.
    pub enabled: bool,
}

impl Default for TerminalInputEnabled {
    /// Input starts disabled until the host opts in.
    fn default() -> (r: Self)
        ensures
            !r.enabled,
    {
        TerminalInputEnabled { enabled: false }
    }
}

/// The control byte for a letter key held with control: byte 0x01 for A
/// through 0x1a for Z; no byte for any other key.
pub open spec fn spec_ctrl_byte(key: Key) -> Option<u8> {
    match key {
        Key::KeyA => Some(0x01u8),
        Key::KeyB => Some(0x02u8),
        Key::KeyC => Some(0x03u8),
        Key::KeyD => Some(0x04u8),
        Key::KeyE => Some(0x05u8),
        Key::KeyF => Some(0x06u8),
        Key::KeyG => Some(0x07u8),
        Key::KeyH => Some(0x08u8),
        Key::KeyI => Some(0x09u8),
        Key::KeyJ => Some(0x0au8),
        Key::KeyK => Some(0x0bu8),
        Key::KeyL => Some(0x0cu8),
        Key::KeyM => Some(0x0du8),
        Key::KeyN => Some(0x0eu8),
        Key::KeyO => Some(0x0fu8),
        Key::KeyP => Some(0x10u8),
        Key::KeyQ => Some(0x11u8),
        Key::KeyR => Some(0x12u8),
        Key::KeyS => Some(0x13u8),
        Key::KeyT => Some(0x14u8),
        Key::KeyU => Some(0x15u8),
        Key::KeyV => Some(0x16u8),
        Key::KeyW => Some(0x17u8),
        Key::KeyX => Some(0x18u8),
        Key::KeyY => Some(0x19u8),
        Key::KeyZ => Some(0x1au8),
        _ => None,
    }
}

/// The ASCII letter for a letter key, upper case when shift is held.
pub open spec fn spec_letter_byte(key: Key, shift: bool) -> Option<u8> {
    let lower = match key {
        Key::KeyA => Some(0x61u8),
        Key::KeyB => Some(0x62u8),
        Key::KeyC => Some(0x63u8),
        Key::KeyD => Some(0x64u8),
        Key::KeyE => Some(0x65u8),
        Key::KeyF => Some(0x66u8),
        Key::KeyG => Some(0x67u8),
        Key::KeyH => Some(0x68u8),
        Key::KeyI => Some(0x69u8),
        Key::KeyJ => Some(0x6au8),
        Key::KeyK => Some(0x6bu8),
        Key::KeyL => Some(0x6cu8),
        Key::KeyM => Some(0x6du8),
        Key::KeyN => Some(0x6eu8),
        Key::KeyO => Some(0x6fu8),
        Key::KeyP => Some(0x70u8),
        Key::KeyQ => Some(0x71u8),
        Key::KeyR => Some(0x72u8),
        Key::KeyS => Some(0x73u8),
        Key::KeyT => Some(0x74u8),
        Key::KeyU => Some(0x75u8),
        Key::KeyV => Some(0x76u8),
        Key::KeyW => Some(0x77u8),
        Key::KeyX => Some(0x78u8),
        Key::KeyY => Some(0x79u8),
        Key::KeyZ => Some(0x7au8),
        _ => None,
    };
    match lower {
        Some(b) => if shift {
            Some((b - 0x20) as u8)
        } else {
            Some(b)
        },
        None => None,
    }
}

/// The byte sequence for the remaining printable and control keys: digits
/// and punctuation with their shifted variants, space, carriage return for
/// enter, tab, delete for backspace, escape, and the ANSI escape sequences
/// of the arrow and navigation keys.
pub open spec fn spec_other_bytes(key: Key, shift: bool) -> Option<Seq<u8>> {
    match key {
        Key::Digit0 => Some(seq![if shift { 0x29u8 } else { 0x30u8 }]),
        Key::Digit1 => Some(seq![if shift { 0x21u8 } else { 0x31u8 }]),
        Key::Digit2 => Some(seq![if shift { 0x40u8 } else { 0x32u8 }]),
        Key::Digit3 => Some(seq![if shift { 0x23u8 } else { 0x33u8 }]),
        Key::Digit4 => Some(seq![if shift { 0x24u8 } else { 0x34u8 }]),
        Key::Digit5 => Some(seq![if shift { 0x25u8 } else { 0x35u8 }]),
        Key::Digit6 => Some(seq![if shift { 0x5eu8 } else { 0x36u8 }]),
        Key::Digit7 => Some(seq![if shift { 0x26u8 } else { 0x37u8 }]),
        Key::Digit8 => Some(seq![if shift { 0x2au8 } else { 0x38u8 }]),
        Key::Digit9 => Some(seq![if shift { 0x28u8 } else { 0x39u8 }]),
        Key::Space => Some(seq![0x20u8]),
        Key::Minus => Some(seq![if shift { 0x5fu8 } else { 0x2du8 }]),
        Key::Equal => Some(seq![if shift { 0x2bu8 } else { 0x3du8 }]),
        Key::BracketLeft => Some(seq![if shift { 0x7bu8 } else { 0x5bu8 }]),
        Key::BracketRight => Some(seq![if shift { 0x7du8 } else { 0x5du8 }]),
        Key::Backslash => Some(seq![if shift { 0x7cu8 } else { 0x5cu8 }]),
        Key::Semicolon => Some(seq![if shift { 0x3au8 } else { 0x3bu8 }]),
        Key::Quote => Some(seq![if shift { 0x22u8 } else { 0x27u8 }]),
        Key::Comma => Some(seq![if shift { 0x3cu8 } else { 0x2cu8 }]),
        Key::Period => Some(seq![if shift { 0x3eu8 } else { 0x2eu8 }]),
        Key::Slash => Some(seq![if shift { 0x3fu8 } else { 0x2fu8 }]),
        Key::Backquote => Some(seq![if shift { 0x7eu8 } else { 0x60u8 }]),
        Key::Enter => Some(seq![0x0du8]),
        Key::Tab => Some(seq![0x09u8]),
        Key::Backspace => Some(seq![0x7fu8]),
        Key::Escape => Some(seq![0x1bu8]),
        Key::ArrowUp => Some(seq![0x1bu8, 0x5bu8, 0x41u8]),
        Key::ArrowDown => Some(seq![0x1bu8, 0x5bu8, 0x42u8]),
        Key::ArrowRight => Some(seq![0x1bu8, 0x5bu8, 0x43u8]),
        Key::ArrowLeft => Some(seq![0x1bu8, 0x5bu8, 0x44u8]),
        Key::Home => Some(seq![0x1bu8, 0x5bu8, 0x48u8]),
        Key::End => Some(seq![0x1bu8, 0x5bu8, 0x46u8]),
        Key::PageUp => Some(seq![0x1bu8, 0x5bu8, 0x35u8, 0x7eu8]),
        Key::PageDown => Some(seq![0x1bu8, 0x5bu8, 0x36u8, 0x7eu8]),
        Key::Delete => Some(seq![0x1bu8, 0x5bu8, 0x33u8, 0x7eu8]),
        Key::Insert => Some(seq![0x1bu8, 0x5bu8, 0x32u8, 0x7eu8]),
        _ => None,
    }
}

/// What `keycode_to_bytes` returns: with control held, the control byte of
/// a letter key and nothing for other keys; otherwise a letter's ASCII
/// byte, or the key's sequence from the table of digits, punctuation and
/// special keys; `None` for keys that do not map to terminal input.
pub open spec fn spec_key_bytes(key: Key, shift: bool, ctrl: bool) -> Option<Seq<u8>> {
    if ctrl {
        match spec_ctrl_byte(key) {
            Some(b) => Some(seq![b]),
            None => None,
        }
    } else {
        match spec_letter_byte(key, shift) {
            Some(b) => Some(seq![b]),
            None => spec_other_bytes(key, shift),
        }
    }
}

/// The control byte of a letter key, if any.
fn ctrl_byte(key: Key) -> (r: Option<u8>)
    ensures
        r == spec_ctrl_byte(key),
{
    match key {
        Key::KeyA => Some(0x01),
        Key::KeyB => Some(0x02),
        Key::KeyC => Some(0x03),
        Key::KeyD => Some(0x04),
        Key::KeyE => Some(0x05),
        Key::KeyF => Some(0x06),
        Key::KeyG => Some(0x07),
        Key::KeyH => Some(0x08),
        Key::KeyI => Some(0x09),
        Key::KeyJ => Some(0x0a),
        Key::KeyK => Some(0x0b),
        Key::KeyL => Some(0x0c),
        Key::KeyM => Some(0x0d),
        Key::KeyN => Some(0x0e),
        Key::KeyO => Some(0x0f),
        Key::KeyP => Some(0x10),
        Key::KeyQ => Some(0x11),
        Key::KeyR => Some(0x12),
        Key::KeyS => Some(0x13),
        Key::KeyT => Some(0x14),
        Key::KeyU => Some(0x15),
        Key::KeyV => Some(0x16),
        Key::KeyW => Some(0x17),
        Key::KeyX => Some(0x18),
        Key::KeyY => Some(0x19),
        Key::KeyZ => Some(0x1a),
        _ => None,
    }
}

/// The ASCII byte of a letter key, upper case when shift is held.
fn letter_byte(key: Key, shift: bool) -> (r: Option<u8>)
    ensures
        r == spec_letter_byte(key, shift),
{
    let lower: Option<u8> = match key {
        Key::KeyA => Some(0x61),
        Key::KeyB => Some(0x62),
        Key::KeyC => Some(0x63),
        Key::KeyD => Some(0x64),
        Key::KeyE => Some(0x65),
        Key::KeyF => Some(0x66),
        Key::KeyG => Some(0x67),
        Key::KeyH => Some(0x68),
        Key::KeyI => Some(0x69),
        Key::KeyJ => Some(0x6a),
        Key::KeyK => Some(0x6b),
        Key::KeyL => Some(0x6c),
        Key::KeyM => Some(0x6d),
        Key::KeyN => Some(0x6e),
        Key::KeyO => Some(0x6f),
        Key::KeyP => Some(0x70),
        Key::KeyQ => Some(0x71),
        Key::KeyR => Some(0x72),
        Key::KeyS => Some(0x73),
        Key::KeyT => Some(0x74),
        Key::KeyU => Some(0x75),
        Key::KeyV => Some(0x76),
        Key::KeyW => Some(0x77),
        Key::KeyX => Some(0x78),
        Key::KeyY => Some(0x79),
        Key::KeyZ => Some(0x7a),
        _ => None,
    };
    match lower {
        Some(b) => if shift {
            Some(b - 0x20)
        } else {
            Some(b)
        },
        None => None,
    }
}

/// The byte sequence of the non-letter keys, if any.
fn other_bytes(key: Key, shift: bool) -> (r: Option<Vec<u8>>)
    ensures
        r is Some <==> spec_other_bytes(key, shift) is Some,
        r is Some ==> r->0@ == spec_other_bytes(key, shift)->0,
{
    match key {
        Key::Digit0 => Some(vec![if shift { 0x29 } else { 0x30 }]),
        Key::Digit1 => Some(vec![if shift { 0x21 } else { 0x31 }]),
        Key::Digit2 => Some(vec![if shift { 0x40 } else { 0x32 }]),
        Key::Digit3 => Some(vec![if shift { 0x23 } else { 0x33 }]),
        Key::Digit4 => Some(vec![if shift { 0x24 } else { 0x34 }]),
        Key::Digit5 => Some(vec![if shift { 0x25 } else { 0x35 }]),
        Key::Digit6 => Some(vec![if shift { 0x5e } else { 0x36 }]),
        Key::Digit7 => Some(vec![if shift { 0x26 } else { 0x37 }]),
        Key::Digit8 => Some(vec![if shift { 0x2a } else { 0x38 }]),
        Key::Digit9 => Some(vec![if shift { 0x28 } else { 0x39 }]),
        Key::Space => Some(vec![0x20]),
        Key::Minus => Some(vec![if shift { 0x5f } else { 0x2d }]),
        Key::Equal => Some(vec![if shift { 0x2b } else { 0x3d }]),
        Key::BracketLeft => Some(vec![if shift { 0x7b } else { 0x5b }]),
        Key::BracketRight => Some(vec![if shift { 0x7d } else { 0x5d }]),
        Key::Backslash => Some(vec![if shift { 0x7c } else { 0x5c }]),
        Key::Semicolon => Some(vec![if shift { 0x3a } else { 0x3b }]),
        Key::Quote => Some(vec![if shift { 0x22 } else { 0x27 }]),
        Key::Comma => Some(vec![if shift { 0x3c } else { 0x2c }]),
        Key::Period => Some(vec![if shift { 0x3e } else { 0x2e }]),
        Key::Slash => Some(vec![if shift { 0x3f } else { 0x2f }]),
        Key::Backquote => Some(vec![if shift { 0x7e } else { 0x60 }]),
        Key::Enter => Some(vec![0x0d]),
        Key::Tab => Some(vec![0x09]),
        Key::Backspace => Some(vec![0x7f]),
        Key::Escape => Some(vec![0x1b]),
        Key::ArrowUp => Some(vec![0x1b, 0x5b, 0x41]),
        Key::ArrowDown => Some(vec![0x1b, 0x5b, 0x42]),
        Key::ArrowRight => Some(vec![0x1b, 0x5b, 0x43]),
        Key::ArrowLeft => Some(vec![0x1b, 0x5b, 0x44]),
        Key::Home => Some(vec![0x1b, 0x5b, 0x48]),
        Key::End => Some(vec![0x1b, 0x5b, 0x46]),
        Key::PageUp => Some(vec![0x1b, 0x5b, 0x35, 0x7e]),
        Key::PageDown => Some(vec![0x1b, 0x5b, 0x36, 0x7e]),
        Key::Delete => Some(vec![0x1b, 0x5b, 0x33, 0x7e]),
        Key::Insert => Some(vec![0x1b, 0x5b, 0x32, 0x7e]),
        _ => None,
    }
}

/// Converts a key press with its modifier state to the byte sequence for
/// the terminal's input stream; `None` for keys with no terminal meaning.
pub fn keycode_to_bytes(key: Key, shift: bool, ctrl: bool) -> (r: Option<Vec<u8>>)
    ensures
        r is Some <==> spec_key_bytes(key, shift, ctrl) is Some,
        r is Some ==> r->0@ == spec_key_bytes(key, shift, ctrl)->0,
{
    if ctrl {
        match ctrl_byte(key) {
            Some(b) => Some(vec![b]),
            None => None,
        }
    } else {
        match letter_byte(key, shift) {
            Some(b) => Some(vec![b]),
            None => other_bytes(key, shift),
        }
    }
}

} // verus!
