//! Keys, modifiers and key events as plain values.

use vstd::prelude::*;

verus! {

/// A media key.
#[derive(Clone, Copy, Debug, PartialEq, Eq, Hash, Structural)]
pub enum MediaKeyCode {
    Play,
    Pause,
    PlayPause,
    Reverse,
    Stop,
    FastForward,
    Rewind,
    TrackNext,
    TrackPrevious,
    Record,
    LowerVolume,
    RaiseVolume,
    MuteVolume,
}

/// A modifier key pressed on its own.
#[derive(Clone, Copy, Debug, PartialEq, Eq, Hash, Structural)]
pub enum ModifierKeyCode {
    LeftShift,
    LeftControl,
    LeftAlt,
    LeftSuper,
    LeftHyper,
    LeftMeta,
    RightShift,
    RightControl,
    RightAlt,
    RightSuper,
    RightHyper,
    RightMeta,
    IsoLevel3Shift,
    IsoLevel5Shift,
}

/// A key of the keyboard.
#[derive(Clone, Copy, Debug, PartialEq, Eq, Hash, Structural)]
pub enum KeyCode {
    Backspace,
    Enter,
    Left,
    Right,
    Up,
    Down,
    Home,
    End,
    PageUp,
    PageDown,
    Tab,
    BackTab,
    Delete,
    Insert,
    /// A function key, by its number.
    F(u8),
    /// A key that types a character.
    Char(char),
    Null,
    Esc,
    CapsLock,
    ScrollLock,
    NumLock,
    PrintScreen,
    Pause,
    Menu,
    KeypadBegin,
    Media(MediaKeyCode),
    Modifier(ModifierKeyCode),
}

/// The modifier keys held with a key.
#[derive(Clone, Copy, Debug, PartialEq, Eq, Hash, Structural)]
pub struct KeyModifiers {
    pub shift: bool,
    pub control: bool,
    pub alt: bool,
    pub super_key: bool,
    pub hyper: bool,
    pub meta: bool,
}

impl KeyModifiers {
    /// No modifier.
    pub open spec fn no_modifiers() -> KeyModifiers {
        KeyModifiers {
            shift: false,
            control: false,
            alt: false,
            super_key: false,
            hyper: false,
            meta: false,
        }
    }

    /// Shift alone.
    pub open spec fn only_shift() -> KeyModifiers {
        KeyModifiers { shift: true, ..Self::no_modifiers() }
    }

    /// The modifiers of either set.
    pub open spec fn union(self, other: KeyModifiers) -> KeyModifiers {
        KeyModifiers {
            shift: self.shift || other.shift,
            control: self.control || other.control,
            alt: self.alt || other.alt,
            super_key: self.super_key || other.super_key,
            hyper: self.hyper || other.hyper,
            meta: self.meta || other.meta,
        }
    }

    /// Control, Alt or Super is held.
    pub open spec fn has_command_modifier(self) -> bool {
        self.control || self.alt || self.super_key
    }

    /// The same modifiers without Shift.
    pub open spec fn without_shift(self) -> KeyModifiers {
        KeyModifiers { shift: false, ..self }
    }

    /// No modifier.
    pub fn none() -> (mods: KeyModifiers)
        ensures
            mods == Self::no_modifiers(),
    {
        KeyModifiers {
            shift: false,
            control: false,
            alt: false,
            super_key: false,
            hyper: false,
            meta: false,
        }
    }

    /// Shift alone.
    pub fn shift() -> (mods: KeyModifiers)
        ensures
            mods == Self::only_shift(),
    {
        KeyModifiers {
            shift: true,
            control: false,
            alt: false,
            super_key: false,
            hyper: false,
            meta: false,
        }
    }

    /// Control alone.
    pub fn control() -> (mods: KeyModifiers)
        ensures
            mods == (KeyModifiers { control: true, ..Self::no_modifiers() }),
    {
        KeyModifiers {
            shift: false,
            control: true,
            alt: false,
            super_key: false,
            hyper: false,
            meta: false,
        }
    }

    /// Alt alone.
    pub fn alt() -> (mods: KeyModifiers)
        ensures
            mods == (KeyModifiers { alt: true, ..Self::no_modifiers() }),
    {
        KeyModifiers {
            shift: false,
            control: false,
            alt: true,
            super_key: false,
            hyper: false,
            meta: false,
        }
    }

    /// Super alone.
    pub fn super_key() -> (mods: KeyModifiers)
        ensures
            mods == (KeyModifiers { super_key: true, ..Self::no_modifiers() }),
    {
        KeyModifiers {
            shift: false,
            control: false,
            alt: false,
            super_key: true,
            hyper: false,
            meta: false,
        }
    }

    /// Joins two sets of modifiers.
    pub fn with(self, other: KeyModifiers) -> (mods: KeyModifiers)
        ensures
            mods == self.union(other),
    {
        KeyModifiers {
            shift: self.shift || other.shift,
            control: self.control || other.control,
            alt: self.alt || other.alt,
            super_key: self.super_key || other.super_key,
            hyper: self.hyper || other.hyper,
            meta: self.meta || other.meta,
        }
    }

    /// Tests whether Control, Alt or Super is held.
    pub fn intersects_command(self) -> (held: bool)
        ensures
            held == self.has_command_modifier(),
    {
        self.control || self.alt || self.super_key
    }

    /// Drops Shift.
    pub fn remove_shift(self) -> (mods: KeyModifiers)
        ensures
            mods == self.without_shift(),
    {
        KeyModifiers {
            shift: false,
            control: self.control,
            alt: self.alt,
            super_key: self.super_key,
            hyper: self.hyper,
            meta: self.meta,
        }
    }
}

/// Whether a key went down, repeats, or went up.
#[derive(Clone, Copy, Debug, PartialEq, Eq, Hash, Structural)]
pub enum KeyEventKind {
    Press,
    Repeat,
    Release,
}

/// A key event: the key, the modifiers held with it, and its kind.
#[derive(Clone, Copy, Debug, PartialEq, Eq, Hash, Structural)]
pub struct KeyEvent {
    pub code: KeyCode,
    pub modifiers: KeyModifiers,
    pub kind: KeyEventKind,
}

impl KeyEvent {
    /// The press of a key with modifiers.
    pub fn new(code: KeyCode, modifiers: KeyModifiers) -> (event: KeyEvent)
        ensures
            event == (KeyEvent { code, modifiers, kind: KeyEventKind::Press }),
    {
        KeyEvent { code, modifiers, kind: KeyEventKind::Press }
    }
}

} // verus!
