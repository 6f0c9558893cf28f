use chip8_kit::keyboard::{keypad_key_for, Keyboard};
use minifb::Key;

#[test]
fn new_keyboard_has_no_key_down() {
    let keyboard = Keyboard::new();
    for key in 0..=255u8 {
        assert!(!keyboard.is_key_pressed(key));
    }
    assert_eq!(keyboard.get_pressed_key(), None);
}

#[test]
fn set_key_presses_and_releases() {
    let mut keyboard = Keyboard::new();
    keyboard.set_key(0xA, true);
    assert!(keyboard.is_key_pressed(0xA));
    assert!(!keyboard.is_key_pressed(0x9));
    keyboard.set_key(0xA, false);
    assert!(!keyboard.is_key_pressed(0xA));
}

#[test]
fn keys_beyond_the_keypad_are_ignored() {
    let mut keyboard = Keyboard::new();
    keyboard.set_key(16, true);
    keyboard.set_key(255, true);
    assert!(!keyboard.is_key_pressed(16));
    assert!(!keyboard.is_key_pressed(255));
    assert_eq!(keyboard.get_pressed_key(), None);
}

#[test]
fn get_pressed_key_returns_the_lowest_key_that_is_down() {
    let mut keyboard = Keyboard::new();
    keyboard.set_key(0xC, true);
    keyboard.set_key(0x3, true);
    keyboard.set_key(0xF, true);
    assert_eq!(keyboard.get_pressed_key(), Some(0x3));
    keyboard.set_key(0x0, true);
    assert_eq!(keyboard.get_pressed_key(), Some(0x0));
}

#[test]
fn host_keys_map_onto_the_keypad() {
    let table = [
        (Key::Key1, 0x1u8),
        (Key::Key2, 0x2),
        (Key::Key3, 0x3),
        (Key::Key4, 0xC),
        (Key::Q, 0x4),
        (Key::W, 0x5),
        (Key::E, 0x6),
        (Key::R, 0xD),
        (Key::A, 0x7),
        (Key::S, 0x8),
        (Key::D, 0x9),
        (Key::F, 0xE),
        (Key::Z, 0xA),
        (Key::X, 0x0),
        (Key::C, 0xB),
        (Key::V, 0xF),
    ];
    for (host, pad) in table {
        let mut keyboard = Keyboard::new();
        keyboard.update_from_minifb(&[host]);
        for key in 0..16u8 {
            assert_eq!(keyboard.is_key_pressed(key), key == pad, "{:?} -> {:X}", host, pad);
        }
    }
}

#[test]
fn other_host_keys_press_nothing() {
    let mut keyboard = Keyboard::new();
    keyboard.update_from_minifb(&[
        Key::Key0,
        Key::Key5,
        Key::B,
        Key::G,
        Key::Escape,
        Key::Space,
        Key::Enter,
        Key::NumPad1,
        Key::F1,
        Key::Unknown,
    ]);
    assert_eq!(keyboard.get_pressed_key(), None);
}

#[test]
fn snapshot_replaces_the_previous_state() {
    let mut keyboard = Keyboard::new();
    keyboard.update_from_minifb(&[Key::Q, Key::V, Key::Q]);
    assert!(keyboard.is_key_pressed(0x4));
    assert!(keyboard.is_key_pressed(0xF));
    keyboard.update_from_minifb(&[Key::X]);
    assert!(!keyboard.is_key_pressed(0x4));
    assert!(!keyboard.is_key_pressed(0xF));
    assert!(keyboard.is_key_pressed(0x0));
    keyboard.update_from_minifb(&[]);
    assert_eq!(keyboard.get_pressed_key(), None);
}

#[test]
fn snapshot_from_codes_follows_the_same_table() {
    let mut keyboard = Keyboard::new();
    keyboard.update_from_codes(&[Key::W as u8, Key::C as u8, 200]);
    assert!(keyboard.is_key_pressed(0x5));
    assert!(keyboard.is_key_pressed(0xB));
    assert_eq!(keyboard.get_pressed_key(), Some(0x5));
    assert_eq!(keypad_key_for(Key::R as u8), Some(0xD));
    assert_eq!(keypad_key_for(Key::Key0 as u8), None);
}

#[test]
fn host_key_numbers_are_those_of_the_window_library() {
    use_numbers(&[
        (Key::Key1, chip8_kit::keyboard::HOST_1),
        (Key::Key2, chip8_kit::keyboard::HOST_2),
        (Key::Key3, chip8_kit::keyboard::HOST_3),
        (Key::Key4, chip8_kit::keyboard::HOST_4),
        (Key::A, chip8_kit::keyboard::HOST_A),
        (Key::C, chip8_kit::keyboard::HOST_C),
        (Key::D, chip8_kit::keyboard::HOST_D),
        (Key::E, chip8_kit::keyboard::HOST_E),
        (Key::F, chip8_kit::keyboard::HOST_F),
        (Key::Q, chip8_kit::keyboard::HOST_Q),
        (Key::R, chip8_kit::keyboard::HOST_R),
        (Key::S, chip8_kit::keyboard::HOST_S),
        (Key::V, chip8_kit::keyboard::HOST_V),
        (Key::W, chip8_kit::keyboard::HOST_W),
        (Key::X, chip8_kit::keyboard::HOST_X),
        (Key::Z, chip8_kit::keyboard::HOST_Z),
    ]);
}

fn use_numbers(table: &[(Key, u8)]) {
    for (key, number) in table {
        assert_eq!(*key as u8, *number, "{:?}", key);
    }
}
