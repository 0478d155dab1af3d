//! The keyboard and mouse events that the computer-use tools send: the key
//! strokes for a typed character and for a key pressed with modifiers, the
//! mouse button flags of a click, and the wheel movement of a scroll.
//!
//! Sending the events, and asking the system for key and scan codes, is the
//! caller's part; what is sent, and in which order, is decided here.

use vstd::prelude::*;
use crate::text::{decimal, push_char, push_str, to_owned_string, u64_to_decimal};

verus! {

/// The `VK_SHIFT` virtual-key code.
pub const VK_SHIFT: u16 = 0x10;

/// One keyboard event: a virtual key with its scan code, or a character
/// sent as a Unicode code unit in `scan_code`; pressed or released.
#[derive(Debug, Clone, Copy, PartialEq, Eq, Structural)]
pub struct KeyEvent {
    pub virtual_key: u16,
    pub scan_code: u16,
    pub unicode: bool,
    pub key_up: bool,
}

/// How a character is typed: as a Unicode code unit, or as a virtual key,
/// with or without Shift held.
#[derive(Debug, Clone, Copy, PartialEq, Eq, Structural)]
pub enum CharInput {
    Unicode(u16),
    Key { virtual_key: u16, shift: bool },
}

/// How a character is typed, given what the keyboard layout's key lookup
/// (`VkKeyScanA`) gave for its byte (`-1` for none; ignored for a character
/// beyond ASCII, which is never looked up): beyond ASCII, or without a key,
/// as its code unit (the code point cut to 16 bits); otherwise as the key
/// in the low byte, with Shift where bit 8 is set.
pub open spec fn char_input_spec(ch: char, vk_scan: i16) -> CharInput {
    if (ch as u32) > 127 || vk_scan == -1 {
        CharInput::Unicode(ch as u32 as u16)
    } else {
        CharInput::Key { virtual_key: (vk_scan & 0xFF) as u16, shift: (vk_scan & 0x100) != 0 }
    }
}

/// Whether a character is looked up on the keyboard layout before typing.
pub fn needs_key_lookup(ch: char) -> (b: bool)
    ensures
        b == ((ch as u32) <= 127),
{
    (ch as u32) <= 127
}

/// How a character is typed (see `char_input_spec`).
pub fn char_input(ch: char, vk_scan: i16) -> (r: CharInput)
    ensures
        r == char_input_spec(ch, vk_scan),
{
    let code: u32 = ch as u32;
    if code > 127 || vk_scan == -1 {
        CharInput::Unicode(code as u16)
    } else {
        CharInput::Key { virtual_key: (vk_scan & 0xFF) as u16, shift: (vk_scan & 0x100) != 0 }
    }
}

/// A key pressed or released.
pub open spec fn key_event(vk: u16, scan: u16, up: bool) -> KeyEvent {
    KeyEvent { virtual_key: vk, scan_code: scan, unicode: false, key_up: up }
}

/// The events that type one character: for a code unit, its press and
/// release; for a key, its press and release, inside a press and release of
/// Shift where Shift is needed. `key_scan` and `shift_scan` are the scan
/// codes of the key and of Shift.
pub open spec fn char_events(input: CharInput, key_scan: u16, shift_scan: u16) -> Seq<KeyEvent> {
    match input {
        CharInput::Unicode(c) => seq![
            KeyEvent { virtual_key: 0, scan_code: c, unicode: true, key_up: false },
            KeyEvent { virtual_key: 0, scan_code: c, unicode: true, key_up: true },
        ],
        CharInput::Key { virtual_key, shift } => if shift {
            seq![
                key_event(VK_SHIFT, shift_scan, false),
                key_event(virtual_key, key_scan, false),
                key_event(virtual_key, key_scan, true),
                key_event(VK_SHIFT, shift_scan, true),
            ]
        } else {
            seq![key_event(virtual_key, key_scan, false), key_event(virtual_key, key_scan, true)]
        },
    }
}

/// Whether every key pressed in `s` is released later in it, in the reverse
/// order of the presses: the first half presses, the second half releases
/// the same keys mirrored.
pub open spec fn balanced(s: Seq<KeyEvent>) -> bool {
    &&& s.len() % 2 == 0
    &&& forall|i: int|
        0 <= i < s.len() / 2 ==> {
            let p = #[trigger] s[i];
            let q = s[s.len() - 1 - i];
            &&& !p.key_up
            &&& q.key_up
            &&& q.virtual_key == p.virtual_key
            &&& q.scan_code == p.scan_code
            &&& q.unicode == p.unicode
        }
}

/// The events that type one character.
pub fn char_key_events(input: CharInput, key_scan: u16, shift_scan: u16) -> (r: Vec<KeyEvent>)
    ensures
        r@ == char_events(input, key_scan, shift_scan),
        balanced(r@),
{
    let mut r: Vec<KeyEvent> = Vec::new();
    match input {
        CharInput::Unicode(c) => {
            r.push(KeyEvent { virtual_key: 0, scan_code: c, unicode: true, key_up: false });
            r.push(KeyEvent { virtual_key: 0, scan_code: c, unicode: true, key_up: true });
        },
        CharInput::Key { virtual_key, shift } => {
            if shift {
                r.push(KeyEvent { virtual_key: VK_SHIFT, scan_code: shift_scan, unicode: false, key_up: false });
            }
            r.push(KeyEvent { virtual_key, scan_code: key_scan, unicode: false, key_up: false });
            r.push(KeyEvent { virtual_key, scan_code: key_scan, unicode: false, key_up: true });
            if shift {
                r.push(KeyEvent { virtual_key: VK_SHIFT, scan_code: shift_scan, unicode: false, key_up: true });
            }
        },
    }
    assert(r@ =~= char_events(input, key_scan, shift_scan));
    r
}

/// The error when fewer events of a character were sent than were given: for
/// a code unit, that its input failed; for a key, how many of how many went.
pub open spec fn short_send_message(ch: char, input: CharInput, sent: u32, expected: usize) -> Seq<char> {
    match input {
        CharInput::Unicode(_) => "Failed to send unicode input for character '"@ + seq![ch] + "'"@,
        CharInput::Key { .. } => "Failed to send input for character '"@ + seq![ch] + "', sent "@ + decimal(
            sent as nat,
        ) + "/"@ + decimal(expected as nat) + " inputs"@,
    }
}

/// Checks that all the events of one character were sent: typing goes on
/// only where the system took every event of it, and stops with an error at
/// the first character where it did not.
pub fn check_char_sent(ch: char, input: CharInput, sent: u32, expected: usize) -> (r: Result<(), String>)
    ensures
        sent as int == expected as int ==> r is Ok,
        sent as int != expected as int ==> (r matches Err(m) && m@ == short_send_message(ch, input, sent, expected)),
{
    if sent as u64 == expected as u64 {
        return Ok(());
    }
    match input {
        CharInput::Unicode(_) => {
            let mut m = to_owned_string("Failed to send unicode input for character '");
            push_char(&mut m, ch);
            push_str(&mut m, "'");
            Err(m)
        },
        CharInput::Key { .. } => {
            let mut m = to_owned_string("Failed to send input for character '");
            push_char(&mut m, ch);
            push_str(&mut m, "', sent ");
            let a = u64_to_decimal(sent as u64);
            push_str(&mut m, a.as_str());
            push_str(&mut m, "/");
            let b = u64_to_decimal(expected as u64);
            push_str(&mut m, b.as_str());
            push_str(&mut m, " inputs");
            Err(m)
        },
    }
}

/// A modifier key held during a key press.
#[derive(Debug, Clone, Copy, PartialEq, Eq, Structural)]
pub enum KeyModifier {
    Ctrl,
    Alt,
    Shift,
    Meta,
}

/// The virtual-key code of a modifier: `VK_CONTROL`, `VK_MENU`, `VK_SHIFT`,
/// `VK_LWIN`.
pub open spec fn modifier_key(m: KeyModifier) -> u32 {
    match m {
        KeyModifier::Ctrl => 0x11,
        KeyModifier::Alt => 0x12,
        KeyModifier::Shift => 0x10,
        KeyModifier::Meta => 0x5B,
    }
}

/// The virtual-key code of a modifier.
pub fn modifier_virtual_key(m: KeyModifier) -> (k: u32)
    ensures
        k == modifier_key(m),
{
    match m {
        KeyModifier::Ctrl => 0x11,
        KeyModifier::Alt => 0x12,
        KeyModifier::Shift => 0x10,
        KeyModifier::Meta => 0x5B,
    }
}

/// The events of a key press with modifiers, each key given with its scan
/// code: the modifiers pressed in the order given, the key pressed and
/// released, the modifiers released in reverse order. Key codes are cut to
/// 16 bits.
pub open spec fn press_events(key: (u32, u16), mods: Seq<(u32, u16)>) -> Seq<KeyEvent> {
    let m = mods.len() as int;
    Seq::new(
        (2 * m + 2) as nat,
        |i: int|
            if i < m {
                key_event(mods[i].0 as u16, mods[i].1, false)
            } else if i == m {
                key_event(key.0 as u16, key.1, false)
            } else if i == m + 1 {
                key_event(key.0 as u16, key.1, true)
            } else {
                key_event(mods[2 * m + 1 - i].0 as u16, mods[2 * m + 1 - i].1, true)
            },
    )
}

/// The events of pressing `virtual_key` (with scan code `key_scan`) while
/// holding `modifiers` (each a virtual key with its scan code).
pub fn key_press_events(virtual_key: u32, key_scan: u16, modifiers: &Vec<(u32, u16)>) -> (r: Vec<KeyEvent>)
    ensures
        r@ == press_events((virtual_key, key_scan), modifiers@),
        balanced(r@),
{
    let ghost target = press_events((virtual_key, key_scan), modifiers@);
    let ghost m = modifiers@.len() as int;
    let mut r: Vec<KeyEvent> = Vec::new();
    let mut i: usize = 0;
    while i < modifiers.len()
        invariant
            i <= modifiers@.len(),
            m == modifiers@.len(),
            target == press_events((virtual_key, key_scan), modifiers@),
            r@ == target.take(i as int),
        decreases modifiers@.len() - i,
    {
        let (vk, sc) = modifiers[i];
        r.push(KeyEvent { virtual_key: vk as u16, scan_code: sc, unicode: false, key_up: false });
        assert(r@ =~= target.take(i + 1));
        i = i + 1;
    }
    r.push(KeyEvent { virtual_key: virtual_key as u16, scan_code: key_scan, unicode: false, key_up: false });
    r.push(KeyEvent { virtual_key: virtual_key as u16, scan_code: key_scan, unicode: false, key_up: true });
    assert(r@ =~= target.take(m + 2));
    let mut j: usize = modifiers.len();
    while j > 0
        invariant
            j <= modifiers@.len(),
            m == modifiers@.len(),
            target == press_events((virtual_key, key_scan), modifiers@),
            r@ == target.take(2 * m + 2 - j),
        decreases j,
    {
        j = j - 1;
        let (vk, sc) = modifiers[j];
        r.push(KeyEvent { virtual_key: vk as u16, scan_code: sc, unicode: false, key_up: true });
        assert(r@ =~= target.take(2 * m + 2 - j));
    }
    assert(r@ =~= target);
    r
}

/// A mouse button.
#[derive(Debug, Clone, Copy, PartialEq, Eq, Structural)]
pub enum MouseButton {
    Left,
    Right,
    Middle,
}

/// The `mouse_event` flags that press and release a button
/// (`MOUSEEVENTF_LEFTDOWN` and `MOUSEEVENTF_LEFTUP`, and so on).
pub open spec fn button_flags(b: MouseButton) -> (u32, u32) {
    match b {
        MouseButton::Left => (0x0002, 0x0004),
        MouseButton::Right => (0x0008, 0x0010),
        MouseButton::Middle => (0x0020, 0x0040),
    }
}

/// The flags that press and release a button.
pub fn mouse_button_flags(b: MouseButton) -> (r: (u32, u32))
    ensures
        r == button_flags(b),
{
    match b {
        MouseButton::Left => (0x0002, 0x0004),
        MouseButton::Right => (0x0008, 0x0010),
        MouseButton::Middle => (0x0020, 0x0040),
    }
}

/// A direction to scroll in.
#[derive(Debug, Clone, Copy, PartialEq, Eq, Structural)]
pub enum ScrollDirection {
    Up,
    Down,
    Left,
    Right,
}

/// One notch of the mouse wheel (`WHEEL_DELTA`).
pub const WHEEL_DELTA: i32 = 120;

/// The wheel movement of a scroll: `amount` notches (3 where none is
/// given), up positive and down negative; sideways scrolling is refused.
pub fn scroll_delta(direction: ScrollDirection, amount: Option<i32>) -> (r: Result<i32, String>)
    requires
        amount matches Some(a) ==> -17895697 <= a <= 17895697,
    ensures
        ({
            let n: int = match amount {
                Some(a) => a as int,
                None => 3,
            };
            match direction {
                ScrollDirection::Up => r == Ok::<i32, String>((120 * n) as i32),
                ScrollDirection::Down => r == Ok::<i32, String>((-120 * n) as i32),
                _ => r matches Err(m) && m@ == "Horizontal scrolling not yet implemented"@,
            }
        }),
{
    let n: i32 = match amount {
        Some(a) => a,
        None => 3,
    };
    match direction {
        ScrollDirection::Up => Ok(WHEEL_DELTA * n),
        ScrollDirection::Down => Ok(-WHEEL_DELTA * n),
        _ => Err(crate::text::to_owned_string("Horizontal scrolling not yet implemented")),
    }
}

} // verus!
