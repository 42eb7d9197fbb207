//! Scan-code decoding for the keyboard interrupt handler.
//!
//! The decoding itself — scan-code set 1, US 104-key layout, modifier
//! tracking — is delegated to the `pc_keyboard` crate, an external
//! collaborator with no contract stated here beyond its types.  What this
//! module pins down is the handler's use of it: one byte read from the
//! keyboard data port advances one decoder, and whatever comes out is
//! handed back to the caller to display.

use vstd::prelude::*;

verus! {

#[verifier::external_type_specification]
#[verifier::external_body]
pub struct ExKeyEvent(pc_keyboard::KeyEvent);

#[verifier::external_type_specification]
#[verifier::external_body]
pub struct ExKeyCode(pc_keyboard::KeyCode);

/// The scan-code decoder.  Its pc_keyboard state (shift register,
/// decode state, modifiers) is opaque to the verifier: the generic
/// `pc_keyboard::Keyboard` type cannot be declared here because of its
/// trait bounds, so the concrete decoder is held behind this opaque
/// struct instead.
#[verifier::external_body]
pub struct KeyboardState {
    inner: pc_keyboard::Keyboard<pc_keyboard::layouts::Us104Key, pc_keyboard::ScancodeSet1>,
}

/// What one keyboard interrupt decodes to, when a scan-code sequence
/// completes: a printable character, or a key with no character (an
/// arrow key, a function key), reported by its raw code.
pub enum DecodedKey {
    Unicode(char),
    RawKey(pc_keyboard::KeyCode),
}

/// Relies on pc_keyboard::Keyboard::new: a fresh scan-code-set-1 decoder
/// for the US 104-key layout, in its start state, ignoring the control
/// key for character mapping.
#[verifier::external_body]
pub fn new_keyboard() -> KeyboardState {
    KeyboardState {
        inner: pc_keyboard::Keyboard::new(
            pc_keyboard::layouts::Us104Key,
            pc_keyboard::ScancodeSet1,
            pc_keyboard::HandleControl::Ignore,
        ),
    }
}

/// Relies on pc_keyboard::Keyboard::add_byte: feeds one byte from the
/// keyboard data port into the decoder's state machine.  A completed
/// scan-code sequence yields its key event; an incomplete sequence, or a
/// byte the protocol rejects, yields nothing.
#[verifier::external_body]
fn add_byte(keyboard: &mut KeyboardState, scancode: u8) -> Option<pc_keyboard::KeyEvent> {
    match keyboard.inner.add_byte(scancode) {
        Ok(event) => event,
        Err(_) => None,
    }
}

/// Relies on pc_keyboard::Keyboard::process_keyevent and its DecodedKey:
/// applies the decoder's modifier state to a key event and maps it to a
/// printable character or a raw key code; key releases and modifier
/// presses yield nothing.
#[verifier::external_body]
fn process_keyevent(keyboard: &mut KeyboardState, event: pc_keyboard::KeyEvent) -> Option<
    DecodedKey,
> {
    match keyboard.inner.process_keyevent(event) {
        Some(pc_keyboard::DecodedKey::Unicode(c)) => Some(DecodedKey::Unicode(c)),
        Some(pc_keyboard::DecodedKey::RawKey(k)) => Some(DecodedKey::RawKey(k)),
        None => None,
    }
}

/// Decode one byte read from the keyboard data port, as the keyboard
/// interrupt handler does: advance the decoder, and when a key event
/// completes, process it into a decoded key for the caller to display.
/// The decoder's state is opaque, so nothing is promised of the result;
/// the handler around this call must acknowledge the interrupt whatever
/// comes back (see the interrupt module).
pub fn decode_scancode(keyboard: &mut KeyboardState, scancode: u8) -> Option<DecodedKey> {
    match add_byte(keyboard, scancode) {
        Some(event) => process_keyevent(keyboard, event),
        None => None,
    }
}

} // verus!
