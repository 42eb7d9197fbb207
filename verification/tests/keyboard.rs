use qxg_os::keyboard::{decode_scancode, new_keyboard, DecodedKey};

#[test]
fn decode_letter_press() {
    let mut kb = new_keyboard();
    // Scan-code set 1: 0x1E is the press of the A key.
    let key = decode_scancode(&mut kb, 0x1E);
    assert!(matches!(key, Some(DecodedKey::Unicode('a'))));
}

#[test]
fn decode_release_yields_nothing() {
    let mut kb = new_keyboard();
    assert!(matches!(decode_scancode(&mut kb, 0x1E), Some(DecodedKey::Unicode('a'))));
    // 0x9E is the release of the same key: no character.
    assert!(decode_scancode(&mut kb, 0x9E).is_none());
}

#[test]
fn decode_shifted_letter() {
    let mut kb = new_keyboard();
    // Left shift down, A down, A up, left shift up.
    assert!(decode_scancode(&mut kb, 0x2A).is_none());
    assert!(matches!(decode_scancode(&mut kb, 0x1E), Some(DecodedKey::Unicode('A'))));
    assert!(decode_scancode(&mut kb, 0x9E).is_none());
    assert!(decode_scancode(&mut kb, 0xAA).is_none());
    // Shift released: lower case again.
    assert!(matches!(decode_scancode(&mut kb, 0x1E), Some(DecodedKey::Unicode('a'))));
}

#[test]
fn decode_digits_across_interrupts() {
    let mut kb = new_keyboard();
    // The decoder keeps its state between interrupts: each press decodes
    // independently.
    assert!(matches!(decode_scancode(&mut kb, 0x02), Some(DecodedKey::Unicode('1'))));
    assert!(decode_scancode(&mut kb, 0x82).is_none());
    assert!(matches!(decode_scancode(&mut kb, 0x03), Some(DecodedKey::Unicode('2'))));
}
