use enteract::input::{
    char_input, char_key_events, check_char_sent, key_press_events, modifier_virtual_key, mouse_button_flags, needs_key_lookup,
    scroll_delta, CharInput, KeyEvent, KeyModifier, MouseButton, ScrollDirection, VK_SHIFT,
};

fn key(vk: u16, scan: u16, up: bool) -> KeyEvent {
    KeyEvent { virtual_key: vk, scan_code: scan, unicode: false, key_up: up }
}

#[test]
fn ascii_letters_use_their_key() {
    assert!(needs_key_lookup('a'));
    assert!(!needs_key_lookup('é'));
    // 'a' on a US layout: key 0x41, no shift.
    assert_eq!(char_input('a', 0x0041), CharInput::Key { virtual_key: 0x41, shift: false });
    // 'A': key 0x41 with shift.
    assert_eq!(char_input('A', 0x0141), CharInput::Key { virtual_key: 0x41, shift: true });
}

#[test]
fn characters_without_a_key_are_sent_as_unicode() {
    assert_eq!(char_input('é', 0), CharInput::Unicode(0xE9));
    assert_eq!(char_input('~', -1), CharInput::Unicode(0x7E));
    // Beyond the basic plane the code point is cut to 16 bits.
    assert_eq!(char_input('😀', 0), CharInput::Unicode(0xF600));
}

#[test]
fn shifted_key_is_wrapped_in_shift() {
    let ev = char_key_events(CharInput::Key { virtual_key: 0x41, shift: true }, 30, 42);
    assert_eq!(ev, vec![key(VK_SHIFT, 42, false), key(0x41, 30, false), key(0x41, 30, true), key(VK_SHIFT, 42, true)]);
    let plain = char_key_events(CharInput::Key { virtual_key: 0x41, shift: false }, 30, 42);
    assert_eq!(plain, vec![key(0x41, 30, false), key(0x41, 30, true)]);
    let uni = char_key_events(CharInput::Unicode(0xE9), 0, 0);
    assert_eq!(
        uni,
        vec![
            KeyEvent { virtual_key: 0, scan_code: 0xE9, unicode: true, key_up: false },
            KeyEvent { virtual_key: 0, scan_code: 0xE9, unicode: true, key_up: true },
        ]
    );
}

#[test]
fn modifiers_are_released_in_reverse() {
    let mods = vec![(modifier_virtual_key(KeyModifier::Ctrl), 29), (modifier_virtual_key(KeyModifier::Shift), 42)];
    let ev = key_press_events(0x53, 31, &mods);
    assert_eq!(
        ev,
        vec![key(0x11, 29, false), key(0x10, 42, false), key(0x53, 31, false), key(0x53, 31, true), key(0x10, 42, true), key(0x11, 29, true)]
    );
    assert_eq!(key_press_events(13, 28, &vec![]), vec![key(13, 28, false), key(13, 28, true)]);
    assert_eq!(modifier_virtual_key(KeyModifier::Alt), 0x12);
    assert_eq!(modifier_virtual_key(KeyModifier::Meta), 0x5B);
}

#[test]
fn button_flags() {
    assert_eq!(mouse_button_flags(MouseButton::Left), (0x2, 0x4));
    assert_eq!(mouse_button_flags(MouseButton::Right), (0x8, 0x10));
    assert_eq!(mouse_button_flags(MouseButton::Middle), (0x20, 0x40));
}

#[test]
fn scroll_amounts() {
    assert_eq!(scroll_delta(ScrollDirection::Up, None), Ok(360));
    assert_eq!(scroll_delta(ScrollDirection::Down, Some(2)), Ok(-240));
    assert_eq!(scroll_delta(ScrollDirection::Up, Some(-1)), Ok(-120));
    assert_eq!(scroll_delta(ScrollDirection::Left, Some(1)), Err("Horizontal scrolling not yet implemented".to_string()));
    assert!(scroll_delta(ScrollDirection::Right, None).is_err());
}

#[test]
fn short_send_stops_typing() {
    let key = CharInput::Key { virtual_key: 0x41, shift: true };
    assert_eq!(check_char_sent('A', key, 4, 4), Ok(()));
    assert_eq!(
        check_char_sent('A', key, 2, 4),
        Err("Failed to send input for character 'A', sent 2/4 inputs".to_string())
    );
    assert_eq!(
        check_char_sent('\u{e9}', CharInput::Unicode(0xe9), 0, 2),
        Err("Failed to send unicode input for character '\u{e9}'".to_string())
    );
}
