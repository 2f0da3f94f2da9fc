//! The keyboard decode boundary: scancode bytes accumulate, one interrupt
//! at a time, in a decoder whose state and layout tables belong to the
//! `pc_keyboard` crate; this module owns only the typed boundary to it.

use vstd::prelude::*;

verus! {

/// A completed key, as handed to the console collaborator: either a
/// printable character or the rendered name of a raw key.
#[derive(Clone, Debug, PartialEq, Eq)]
pub enum KeyOutput {
    Unicode(char),
    RawKey(String),
}

#[verifier::external_type_specification]
#[verifier::external_body]
pub struct ExKeyEvent(pc_keyboard::KeyEvent);

/// The persistent scancode decoder, for the US 104-key layout and scancode
/// set 1. Multi-byte scancodes arrive one interrupt at a time, so this
/// state spans interrupts; its contents belong to the `pc_keyboard` crate
/// and are opaque here. (Verus cannot carry that crate's trait bounds, so
/// the decoder is held behind this opaque struct.)
#[verifier::external_body]
pub struct KeyboardState {
    inner: pc_keyboard::Keyboard<pc_keyboard::layouts::Us104Key, pc_keyboard::ScancodeSet1>,
}

impl KeyboardState {
    /// Relies on pc_keyboard::Keyboard::new: a fresh decoder with empty
    /// accumulation state, US 104-key layout, scancode set 1, and
    /// control-character mapping ignored.
    #[verifier::external_body]
    pub fn new() -> KeyboardState {
        KeyboardState {
            inner: pc_keyboard::Keyboard::new(
                pc_keyboard::ScancodeSet1::new(),
                pc_keyboard::layouts::Us104Key,
                pc_keyboard::HandleControl::Ignore,
            ),
        }
    }
}

/// Relies on pc_keyboard::Keyboard::add_byte: feeds one scancode byte into
/// the decoder's multi-byte accumulation state, yielding a key event when a
/// sequence completes. A decode error is treated like an incomplete
/// sequence, as the trap layer ignores both.
#[verifier::external_body]
pub(crate) fn keyboard_add_byte(keyboard: &mut KeyboardState, scancode: u8) -> Option<
    pc_keyboard::KeyEvent,
> {
    match keyboard.inner.add_byte(scancode) {
        Ok(Some(event)) => Some(event),
        Ok(None) => None,
        Err(_) => None,
    }
}

/// Relies on pc_keyboard::Keyboard::process_keyevent: applies the layout
/// and modifier state to a completed key event; a raw key is rendered to
/// text here, as the console prints it.
#[verifier::external_body]
pub(crate) fn keyboard_process_event(
    keyboard: &mut KeyboardState,
    event: pc_keyboard::KeyEvent,
) -> Option<KeyOutput> {
    match keyboard.inner.process_keyevent(event) {
        Some(pc_keyboard::DecodedKey::Unicode(character)) => Some(KeyOutput::Unicode(character)),
        Some(pc_keyboard::DecodedKey::RawKey(key)) => Some(KeyOutput::RawKey(format!("{:?}", key))),
        None => None,
    }
}

} // verus!
