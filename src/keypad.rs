//! The host keyboard layout: a 4 x 4 block of QWERTY keys standing for the
//! sixteen hexadecimal keys, and how key events update the key latch.
use vstd::prelude::*;

verus! {

/// The hexadecimal key that a host key stands for, named by the character
/// on it (letters in lower case):
/// ```text
/// 1 2 3 4   ->  1 2 3 C
/// q w e r   ->  4 5 6 D
/// a s d f   ->  7 8 9 E
/// z x c v   ->  A 0 B F
/// ```
pub open spec fn keypad_index(key: char) -> Option<usize> {
    match key {
        '1' => Some(0x1),
        '2' => Some(0x2),
        '3' => Some(0x3),
        '4' => Some(0xC),
        'q' => Some(0x4),
        'w' => Some(0x5),
        'e' => Some(0x6),
        'r' => Some(0xD),
        'a' => Some(0x7),
        's' => Some(0x8),
        'd' => Some(0x9),
        'f' => Some(0xE),
        'z' => Some(0xA),
        'x' => Some(0x0),
        'c' => Some(0xB),
        'v' => Some(0xF),
        _ => None,
    }
}

/// The hexadecimal key for host key `key`, or `None` for a key outside the
/// layout.
pub fn key2btn(key: char) -> (r: Option<usize>)
    ensures
        r == keypad_index(key),
        r matches Some(k) ==> k < 16,
{
    match key {
        '1' => Some(0x1),
        '2' => Some(0x2),
        '3' => Some(0x3),
        '4' => Some(0xC),
        'q' => Some(0x4),
        'w' => Some(0x5),
        'e' => Some(0x6),
        'r' => Some(0xD),
        'a' => Some(0x7),
        's' => Some(0x8),
        'd' => Some(0x9),
        'f' => Some(0xE),
        'z' => Some(0xA),
        'x' => Some(0x0),
        'c' => Some(0xB),
        'v' => Some(0xF),
        _ => None,
    }
}

/// A keyboard event as the host reports it.
#[derive(Debug, Clone, Copy, PartialEq, Eq, Structural)]
pub enum KeyEvent {
    /// The user asked to quit (closed the window or pressed escape).
    Quit,
    /// The key with this character went down.
    Down(char),
    /// The key with this character went up.
    Up(char),
}

/// Applies one event to the key latch. Returns whether the event asks to
/// quit; a key outside the layout changes nothing.
pub fn apply_key_event(keys: &mut [bool; 16], event: KeyEvent) -> (quit: bool)
    ensures
        quit == (event == KeyEvent::Quit),
        final(keys)@ == match event {
            KeyEvent::Down(c) => match keypad_index(c) {
                Some(k) => old(keys)@.update(k as int, true),
                None => old(keys)@,
            },
            KeyEvent::Up(c) => match keypad_index(c) {
                Some(k) => old(keys)@.update(k as int, false),
                None => old(keys)@,
            },
            KeyEvent::Quit => old(keys)@,
        },
{
    match event {
        KeyEvent::Quit => true,
        KeyEvent::Down(c) => {
            if let Some(k) = key2btn(c) {
                keys[k] = true;
            }
            false
        },
        KeyEvent::Up(c) => {
            if let Some(k) = key2btn(c) {
                keys[k] = false;
            }
            false
        },
    }
}

} // verus!
