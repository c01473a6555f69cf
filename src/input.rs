//! Key events, and the token that names the key of an event.
use vstd::prelude::*;

verus! {

/// The key of a key event; keys the keyboard has no token for are `Other`.
#[derive(Clone, Copy, Debug, PartialEq, Eq, Structural)]
pub enum Key {
    Backspace,
    Enter,
    Left,
    Right,
    Up,
    Down,
    Tab,
    Esc,
    Char(char),
    Other,
}

/// The bit of each modifier in `KeyModifiers::bits`.
pub const MOD_SHIFT: u8 = 1;

pub const MOD_CONTROL: u8 = 2;

pub const MOD_ALT: u8 = 4;

/// The modifier keys held during a key event, one bit per modifier.
#[derive(Clone, Copy, Debug, PartialEq, Eq, Structural)]
pub struct KeyModifiers {
    pub bits: u8,
}

/// Every bit of `flag` is held in `m`.
pub open spec fn has_modifier(m: KeyModifiers, flag: u8) -> bool {
    m.bits & flag == flag
}

impl KeyModifiers {
    /// Whether every bit of `flag` is held.
    pub fn contains(&self, flag: u8) -> (r: bool)
        ensures
            r == has_modifier(*self, flag),
    {
        self.bits & flag == flag
    }
}

#[derive(Clone, Copy, Debug, PartialEq, Eq, Structural)]
pub struct KeyEvent {
    pub code: Key,
    pub modifiers: KeyModifiers,
}

/// An input event; the keyboard answers key events only.
#[derive(Clone, Copy, Debug, PartialEq, Eq, Structural)]
pub enum Event {
    Keyboard(KeyEvent),
    Other,
}

/// The token that names a key: a character stands for itself, the space bar
/// is `space`, a few named keys have fixed tokens, every other key has none.
pub open spec fn spec_key_token(code: Key) -> Seq<char> {
    match code {
        Key::Char(c) => if c == ' ' {
            "space"@
        } else {
            seq![c]
        },
        Key::Backspace => "Bs"@,
        Key::Enter => "Enter"@,
        Key::Left => "←"@,
        Key::Right => "→"@,
        Key::Up => "↑"@,
        Key::Down => "↓"@,
        Key::Tab => "tab"@,
        _ => Seq::empty(),
    }
}

/// Relies on `ToString` for `char`: the string of that one character.
#[verifier::external_body]
fn char_text(c: char) -> (r: String)
    ensures
        r@ == seq![c],
{
    c.to_string()
}

/// The token of a key; see `spec_key_token`.
pub fn key_token(code: Key) -> (r: String)
    ensures
        r@ == spec_key_token(code),
{
    match code {
        Key::Char(c) => if c == ' ' {
            "space".to_owned()
        } else {
            char_text(c)
        },
        Key::Backspace => "Bs".to_owned(),
        Key::Enter => "Enter".to_owned(),
        Key::Left => "←".to_owned(),
        Key::Right => "→".to_owned(),
        Key::Up => "↑".to_owned(),
        Key::Down => "↓".to_owned(),
        Key::Tab => "tab".to_owned(),
        _ => String::new(),
    }
}

} // verus!
