//! Keys as the terminal reports them.

use vstd::prelude::*;

verus! {

/// A media key.
#[derive(Debug, Clone, Copy, PartialEq, Eq, Structural)]
pub enum MediaKeyCode {
    Play,
    Pause,
    PlayPause,
    Reverse,
    Stop,
    FastForward,
    Rewind,
    TrackNext,
    TrackPrevious,
    Record,
    LowerVolume,
    RaiseVolume,
    MuteVolume,
}

/// A modifier key.
#[derive(Debug, Clone, Copy, PartialEq, Eq, Structural)]
pub enum ModifierKeyCode {
    LeftShift,
    LeftControl,
    LeftAlt,
    LeftSuper,
    LeftHyper,
    LeftMeta,
    RightShift,
    RightControl,
    RightAlt,
    RightSuper,
    RightHyper,
    RightMeta,
    IsoLevel3Shift,
    IsoLevel5Shift,
}

/// A key, without its modifiers.
#[derive(Debug, Clone, Copy, PartialEq, Eq, Structural)]
pub enum KeyCode {
    Backspace,
    Enter,
    Left,
    Right,
    Up,
    Down,
    Home,
    End,
    PageUp,
    PageDown,
    Tab,
    BackTab,
    Delete,
    Insert,
    F(u8),
    Char(char),
    Null,
    Esc,
    CapsLock,
    ScrollLock,
    NumLock,
    PrintScreen,
    Pause,
    Menu,
    KeypadBegin,
    Media(MediaKeyCode),
    /// A modifier, pressed by itself.
    Modifier(ModifierKeyCode),
}

/// The modifiers held with a key.
#[derive(Debug, Clone, Copy, PartialEq, Eq, Structural)]
pub struct KeyModifiers {
    pub shift: bool,
    pub control: bool,
    pub alt: bool,
    pub super_key: bool,
    pub hyper: bool,
    pub meta: bool,
}

impl KeyModifiers {
    pub open spec fn spec_none() -> Self {
        KeyModifiers {
            shift: false,
            control: false,
            alt: false,
            super_key: false,
            hyper: false,
            meta: false,
        }
    }

    /// No modifier at all.
    #[verifier::when_used_as_spec(spec_none)]
    pub fn none() -> (r: Self)
        ensures
            r == Self::spec_none(),
    {
        KeyModifiers {
            shift: false,
            control: false,
            alt: false,
            super_key: false,
            hyper: false,
            meta: false,
        }
    }

    pub open spec fn spec_shift() -> Self {
        KeyModifiers { shift: true, ..Self::spec_none() }
    }

    /// Shift alone.
    #[verifier::when_used_as_spec(spec_shift)]
    pub fn shift() -> (r: Self)
        ensures
            r == Self::spec_shift(),
    {
        KeyModifiers { shift: true, ..Self::none() }
    }

    pub open spec fn spec_control() -> Self {
        KeyModifiers { control: true, ..Self::spec_none() }
    }

    /// Control alone.
    #[verifier::when_used_as_spec(spec_control)]
    pub fn control() -> (r: Self)
        ensures
            r == Self::spec_control(),
    {
        KeyModifiers { control: true, ..Self::none() }
    }

    pub open spec fn spec_alt() -> Self {
        KeyModifiers { alt: true, ..Self::spec_none() }
    }

    /// Alt alone.
    #[verifier::when_used_as_spec(spec_alt)]
    pub fn alt() -> (r: Self)
        ensures
            r == Self::spec_alt(),
    {
        KeyModifiers { alt: true, ..Self::none() }
    }

    pub open spec fn spec_control_alt() -> Self {
        KeyModifiers { control: true, alt: true, ..Self::spec_none() }
    }

    /// Control and Alt together.
    #[verifier::when_used_as_spec(spec_control_alt)]
    pub fn control_alt() -> (r: Self)
        ensures
            r == Self::spec_control_alt(),
    {
        KeyModifiers { control: true, alt: true, ..Self::none() }
    }
}

/// A key press with its modifiers.
#[derive(Debug, Clone, Copy, PartialEq, Eq, Structural)]
pub struct KeyEvent {
    pub code: KeyCode,
    pub modifiers: KeyModifiers,
}

impl KeyEvent {
    pub fn new(code: KeyCode, modifiers: KeyModifiers) -> (r: Self)
        ensures
            r == (KeyEvent { code, modifiers }),
    {
        KeyEvent { code, modifiers }
    }
}

/// Whether a key went down, is held, or came up.
#[derive(Debug, Clone, Copy, PartialEq, Eq, Structural)]
pub enum KeyEventKind {
    Press,
    Repeat,
    Release,
}

/// A key as the terminal's input parser delivers it.
#[derive(Debug, Clone, Copy, PartialEq, Eq, Structural)]
pub struct TerminalKey {
    pub code: KeyCode,
    pub modifiers: KeyModifiers,
    pub kind: KeyEventKind,
}

impl TerminalKey {
    /// A press of `code`.
    pub fn new(code: KeyCode, modifiers: KeyModifiers) -> (r: Self)
        ensures
            r == (TerminalKey { code, modifiers, kind: KeyEventKind::Press }),
    {
        TerminalKey { code, modifiers, kind: KeyEventKind::Press }
    }

    pub fn with_kind(self, kind: KeyEventKind) -> (r: Self)
        ensures
            r == (TerminalKey { kind, ..self }),
    {
        TerminalKey { kind, ..self }
    }
}

} // verus!
