//! Key events as the panels read them.

use vstd::prelude::*;

verus! {

/// The key of an event.
#[derive(Debug, Clone, Copy, PartialEq, Eq, Structural)]
pub enum KeyCode {
    Backspace,
    Enter,
    Left,
    Right,
    Up,
    Down,
    Home,
    End,
    PageUp,
    PageDown,
    Tab,
    BackTab,
    Delete,
    Insert,
    /// A function key, by its number.
    F(u8),
    /// A character key.
    Char(char),
    Null,
    Esc,
    CapsLock,
    ScrollLock,
    NumLock,
    PrintScreen,
    Pause,
    Menu,
    KeypadBegin,
    /// A media key, by its number.
    Media(u8),
    /// A modifier key pressed on its own, by its number.
    Modifier(u8),
}

/// The modifier keys held during an event.
#[derive(Debug, Clone, Copy, PartialEq, Eq, Structural)]
pub struct KeyModifiers {
    pub shift: bool,
    pub control: bool,
    pub alt: bool,
    pub logo: bool,
    pub hyper: bool,
    pub meta: bool,
}

/// Whether a key went down, is held, or went up.
#[derive(Debug, Clone, Copy, PartialEq, Eq, Structural)]
pub enum KeyEventKind {
    Press,
    Repeat,
    Release,
}

/// What else the keyboard reported with an event.
#[derive(Debug, Clone, Copy, PartialEq, Eq, Structural)]
pub struct KeyEventState {
    pub keypad: bool,
    pub caps_lock: bool,
    pub num_lock: bool,
}

/// One key event.
#[derive(Debug, Clone, Copy, PartialEq, Eq, Structural)]
pub struct KeyEvent {
    pub code: KeyCode,
    pub modifiers: KeyModifiers,
    pub kind: KeyEventKind,
    pub state: KeyEventState,
}

/// Whether `c` is one of `A` to `Z`.
pub open spec fn is_upper(c: char) -> bool {
    'A' <= c && c <= 'Z'
}

/// The upper-case letter for one of `a` to `z`, any other character as it is.
pub open spec fn to_upper(c: char) -> char {
    if 'a' <= c && c <= 'z' {
        ((c as u8) - 32) as char
    } else {
        c
    }
}

impl KeyModifiers {
    /// No modifier held.
    pub open spec fn spec_none() -> KeyModifiers {
        KeyModifiers {
            shift: false,
            control: false,
            alt: false,
            logo: false,
            hyper: false,
            meta: false,
        }
    }

    /// No modifier held.
    #[verifier::when_used_as_spec(spec_none)]
    pub fn none() -> (modifiers: KeyModifiers)
        ensures
            modifiers == Self::spec_none(),
    {
        KeyModifiers {
            shift: false,
            control: false,
            alt: false,
            logo: false,
            hyper: false,
            meta: false,
        }
    }

    /// Only the control key held.
    pub fn control() -> (modifiers: KeyModifiers)
        ensures
            modifiers == (KeyModifiers { control: true, ..Self::spec_none() }),
    {
        KeyModifiers { control: true, ..Self::none() }
    }

    /// Only the alt key held.
    pub fn alt() -> (modifiers: KeyModifiers)
        ensures
            modifiers == (KeyModifiers { alt: true, ..Self::spec_none() }),
    {
        KeyModifiers { alt: true, ..Self::none() }
    }

    /// Only the shift key held.
    pub fn shift() -> (modifiers: KeyModifiers)
        ensures
            modifiers == (KeyModifiers { shift: true, ..Self::spec_none() }),
    {
        KeyModifiers { shift: true, ..Self::none() }
    }
}

impl KeyEventState {
    /// Nothing reported.
    pub open spec fn spec_none() -> KeyEventState {
        KeyEventState { keypad: false, caps_lock: false, num_lock: false }
    }

    /// Nothing reported.
    #[verifier::when_used_as_spec(spec_none)]
    pub fn none() -> (state: KeyEventState)
        ensures
            state == Self::spec_none(),
    {
        KeyEventState { keypad: false, caps_lock: false, num_lock: false }
    }
}

impl KeyEvent {
    /// The press of `code` with `modifiers` held.
    pub open spec fn spec_new(code: KeyCode, modifiers: KeyModifiers) -> KeyEvent {
        KeyEvent { code, modifiers, kind: KeyEventKind::Press, state: KeyEventState::spec_none() }
    }

    /// The press of `code` with `modifiers` held.
    #[verifier::when_used_as_spec(spec_new)]
    pub fn new(code: KeyCode, modifiers: KeyModifiers) -> (event: KeyEvent)
        ensures
            event == Self::spec_new(code, modifiers),
    {
        KeyEvent { code, modifiers, kind: KeyEventKind::Press, state: KeyEventState::none() }
    }

    /// The event with shift and letter case made to agree: an upper-case
    /// letter counts as shifted, and a shifted letter counts as upper case.
    pub open spec fn normalized(self) -> KeyEvent {
        match self.code {
            KeyCode::Char(c) => {
                if is_upper(c) {
                    KeyEvent { modifiers: KeyModifiers { shift: true, ..self.modifiers }, ..self }
                } else if self.modifiers.shift {
                    KeyEvent { code: KeyCode::Char(to_upper(c)), ..self }
                } else {
                    self
                }
            },
            _ => self,
        }
    }

    /// Whether two events are the same key stroke: equal once normalized.
    pub open spec fn spec_matches(&self, other: &KeyEvent) -> bool {
        self.normalized() == other.normalized()
    }

    fn normalize(self) -> (event: KeyEvent)
        ensures
            event == self.normalized(),
    {
        match self.code {
            KeyCode::Char(c) => {
                if 'A' <= c && c <= 'Z' {
                    KeyEvent { modifiers: KeyModifiers { shift: true, ..self.modifiers }, ..self }
                } else if self.modifiers.shift {
                    let upper = if 'a' <= c && c <= 'z' {
                        ((c as u8) - 32) as char
                    } else {
                        c
                    };
                    KeyEvent { code: KeyCode::Char(upper), ..self }
                } else {
                    self
                }
            },
            _ => self,
        }
    }

    /// Whether two events are the same key stroke.
    #[verifier::when_used_as_spec(spec_matches)]
    pub fn matches(&self, other: &KeyEvent) -> (same: bool)
        ensures
            same == self.spec_matches(other),
    {
        self.normalize() == other.normalize()
    }

    /// Whether this is the press of a key, not its repeat or release.
    pub open spec fn spec_is_press(&self) -> bool {
        self.kind == KeyEventKind::Press
    }

    /// Whether this is the press of a key, not its repeat or release.
    #[verifier::when_used_as_spec(spec_is_press)]
    pub fn is_press(&self) -> (press: bool)
        ensures
            press == self.spec_is_press(),
    {
        self.kind == KeyEventKind::Press
    }
}

} // verus!
