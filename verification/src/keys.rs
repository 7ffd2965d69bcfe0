//! Key events as plain values. The terminal front end turns the events it reads into these.
use vstd::prelude::*;

verus! {

/// A key, as the dialogs see it.
#[derive(Debug, Clone, Copy, PartialEq, Eq, Structural)]
pub enum KeyCode {
    Char(char),
    Enter,
    Esc,
    Backspace,
    Delete,
    Insert,
    Tab,
    BackTab,
    Up,
    Down,
    Left,
    Right,
    Home,
    End,
    PageUp,
    PageDown,
    /// A function key, by number.
    F(u8),
    /// Any key that no dialog reacts to.
    Other,
}

/// Modifier keys held with a key, as a bit set (shift 1, control 2, alt 4, super 8,
/// hyper 16, meta 32).
#[derive(Debug, Clone, Copy, PartialEq, Eq, Structural)]
pub struct KeyModifiers {
    pub bits: u8,
}

impl KeyModifiers {
    /// No modifier held.
    pub fn none() -> (m: KeyModifiers)
        ensures
            m.bits == 0,
    {
        KeyModifiers { bits: 0 }
    }

    /// Only shift held.
    pub fn shift() -> (m: KeyModifiers)
        ensures
            m.bits == 1,
    {
        KeyModifiers { bits: 1 }
    }

    /// Only control held.
    pub fn control() -> (m: KeyModifiers)
        ensures
            m.bits == 2,
    {
        KeyModifiers { bits: 2 }
    }

    /// Only alt held.
    pub fn alt() -> (m: KeyModifiers)
        ensures
            m.bits == 4,
    {
        KeyModifiers { bits: 4 }
    }

    /// Exactly the control key is held (no other modifier).
    pub open spec fn is_control_only(self) -> bool {
        self.bits == 2
    }

    /// Exactly the shift key is held (no other modifier).
    pub open spec fn is_shift_only(self) -> bool {
        self.bits == 1
    }
}

/// A key together with the modifiers held.
#[derive(Debug, Clone, Copy, PartialEq, Eq, Structural)]
pub struct KeyEvent {
    pub code: KeyCode,
    pub modifiers: KeyModifiers,
}

impl KeyEvent {
    /// A key event.
    pub fn new(code: KeyCode, modifiers: KeyModifiers) -> (k: KeyEvent)
        ensures
            k.code == code,
            k.modifiers == modifiers,
    {
        KeyEvent { code, modifiers }
    }

    /// The event is Ctrl+`c` with control as the only modifier.
    pub open spec fn is_ctrl_char(self, c: char) -> bool {
        self.modifiers.is_control_only() && self.code == KeyCode::Char(c)
    }
}

/// Whether `key` is Ctrl+`c` with control as the only modifier.
pub fn is_ctrl_char(key: &KeyEvent, c: char) -> (b: bool)
    ensures
        b == key.is_ctrl_char(c),
{
    key.modifiers.bits == 2 && match key.code {
        KeyCode::Char(k) => k == c,
        _ => false,
    }
}


/// A key read from the terminal, with its modifiers, and questions about them.
#[derive(Debug, Clone, Copy, PartialEq, Eq, Structural)]
pub struct ParsedKey {
    pub code: KeyCode,
    pub modifiers: KeyModifiers,
}

/// The parsed form of a key event: its key and modifiers.
pub open spec fn parsed_of(key: KeyEvent) -> ParsedKey {
    ParsedKey { code: key.code, modifiers: key.modifiers }
}

/// The key event of a parsed key: a press of its key with its modifiers.
pub open spec fn event_of(p: ParsedKey) -> KeyEvent {
    KeyEvent { code: p.code, modifiers: p.modifiers }
}

/// Parsing a key event and turning it back into an event gives the same event, and the
/// other way round.
pub proof fn lemma_parsed_key_roundtrip(key: KeyEvent, p: ParsedKey)
    ensures
        event_of(parsed_of(key)) == key,
        parsed_of(event_of(p)) == p,
{
}

impl ParsedKey {
    /// The key of a key event.
    pub fn from_event(key: KeyEvent) -> (p: ParsedKey)
        ensures
            p == parsed_of(key),
    {
        ParsedKey { code: key.code, modifiers: key.modifiers }
    }

    /// The key event of this key.
    pub fn to_event(&self) -> (k: KeyEvent)
        ensures
            k == event_of(*self),
    {
        KeyEvent { code: self.code, modifiers: self.modifiers }
    }

    /// Control is among the modifiers.
    pub fn ctrl(&self) -> (b: bool)
        ensures
            b == (self.modifiers.bits & 2 == 2),
    {
        self.modifiers.bits & 2 == 2
    }

    /// Alt (meta) is among the modifiers.
    pub fn meta(&self) -> (b: bool)
        ensures
            b == (self.modifiers.bits & 4 == 4),
    {
        self.modifiers.bits & 4 == 4
    }

    /// Shift is among the modifiers.
    pub fn shift(&self) -> (b: bool)
        ensures
            b == (self.modifiers.bits & 1 == 1),
    {
        self.modifiers.bits & 1 == 1
    }
}
} // verus!
