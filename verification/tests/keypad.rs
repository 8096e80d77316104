use chip8::keypad::{map_key, HostKey, Keypad};

#[test]
fn map_key_follows_the_keypad_layout() {
    assert_eq!(map_key(HostKey::Key1), Some(0x1));
    assert_eq!(map_key(HostKey::Key2), Some(0x2));
    assert_eq!(map_key(HostKey::Key3), Some(0x3));
    assert_eq!(map_key(HostKey::Key4), Some(0xC));
    assert_eq!(map_key(HostKey::Q), Some(0x4));
    assert_eq!(map_key(HostKey::W), Some(0x5));
    assert_eq!(map_key(HostKey::E), Some(0x6));
    assert_eq!(map_key(HostKey::R), Some(0xD));
    assert_eq!(map_key(HostKey::A), Some(0x7));
    assert_eq!(map_key(HostKey::S), Some(0x8));
    assert_eq!(map_key(HostKey::D), Some(0x9));
    assert_eq!(map_key(HostKey::F), Some(0xE));
    assert_eq!(map_key(HostKey::Z), Some(0xA));
    assert_eq!(map_key(HostKey::X), Some(0x0));
    assert_eq!(map_key(HostKey::C), Some(0xB));
    assert_eq!(map_key(HostKey::V), Some(0xF));
    assert_eq!(map_key(HostKey::Other), None);
}

#[test]
fn new_keypad_has_no_key_down() {
    let keypad = Keypad::new();
    for key in 0..=255u8 {
        assert!(!keypad.is_down(key));
    }
    assert_eq!(keypad.pressed_key(), None);
}

#[test]
fn set_key_presses_and_releases() {
    let mut keypad = Keypad::new();
    keypad.set_key(0xA, true);
    assert!(keypad.is_down(0xA));
    assert!(!keypad.is_down(0xB));
    assert_eq!(keypad.pressed_key(), Some(0xA));
    keypad.set_key(0xA, false);
    assert!(!keypad.is_down(0xA));
    assert_eq!(keypad.pressed_key(), None);
}

#[test]
fn pressed_key_is_the_lowest_held() {
    let mut keypad = Keypad::new();
    keypad.set_key(0xF, true);
    keypad.set_key(0x3, true);
    keypad.set_key(0x9, true);
    assert_eq!(keypad.pressed_key(), Some(0x3));
    keypad.set_key(0x0, true);
    assert_eq!(keypad.pressed_key(), Some(0x0));
}

#[test]
fn numbers_above_fifteen_are_never_down() {
    let mut keypad = Keypad::new();
    for key in 0..16u8 {
        keypad.set_key(key, true);
    }
    assert!(keypad.is_down(15));
    assert!(!keypad.is_down(16));
    assert!(!keypad.is_down(0xFF));
}

#[test]
fn from_host_keys_holds_what_the_host_keys_stand_for() {
    let keypad = Keypad::from_host_keys(&[HostKey::Other, HostKey::X, HostKey::V, HostKey::X]);
    for key in 0..16u8 {
        assert_eq!(keypad.is_down(key), key == 0x0 || key == 0xF);
    }
    assert_eq!(keypad.pressed_key(), Some(0));
}

#[test]
fn from_no_host_keys_is_empty() {
    let keypad = Keypad::from_host_keys(&[]);
    assert_eq!(keypad.keys, [false; 16]);
    let keypad = Keypad::from_host_keys(&[HostKey::Other]);
    assert_eq!(keypad.keys, [false; 16]);
}
