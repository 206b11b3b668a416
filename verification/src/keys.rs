use vstd::prelude::*;

verus! {

/// The key of a key press, as far as the path field tells keys apart.
#[derive(Clone, Copy, Debug, PartialEq, Eq)]
pub enum PathKey {
    Right,
    End,
    Home,
    Left,
    Char(char),
    Other,
}

/// The modifier keys held during a key press.
#[derive(Clone, Copy, Debug, PartialEq, Eq)]
pub struct PathModifiers {
    pub shift: bool,
    pub control: bool,
    pub alt: bool,
    pub super_key: bool,
    pub hyper: bool,
    pub meta: bool,
}

/// A key press: the key and the modifiers held with it.
#[derive(Clone, Copy, Debug, PartialEq, Eq)]
pub struct KeyPress {
    pub code: PathKey,
    pub modifiers: PathModifiers,
}

/// What a key press asks of the path field.
#[derive(Clone, Copy, Debug, PartialEq, Eq)]
pub enum PathShortcut {
    AcceptGhost,
    JumpToStart,
    JumpToPreviousSegment,
}

impl PathModifiers {
    /// No modifier is held.
    pub open spec fn is_none(self) -> bool {
        !self.shift && !self.control && !self.alt && !self.super_key && !self.hyper && !self.meta
    }

    /// No modifier held.
    pub fn none() -> (modifiers: PathModifiers)
        ensures
            modifiers.is_none(),
    {
        PathModifiers {
            shift: false,
            control: false,
            alt: false,
            super_key: false,
            hyper: false,
            meta: false,
        }
    }

    /// Whether no modifier is held.
    pub fn is_empty(&self) -> (empty: bool)
        ensures
            empty == self.is_none(),
    {
        !self.shift && !self.control && !self.alt && !self.super_key && !self.hyper && !self.meta
    }
}

/// The shortcut that `key` stands for, if any. Right and End without a
/// modifier accept the ghost, and mean nothing with one. Home, and `a` with
/// Control, jump to the start. Left with Control, and `b` with Alt, jump to
/// the previous segment. The first that applies, in this order, decides.
pub open spec fn shortcut_of(key: KeyPress) -> Option<PathShortcut> {
    if key.code is Right || key.code is End {
        if key.modifiers.is_none() {
            Some(PathShortcut::AcceptGhost)
        } else {
            None
        }
    } else if key.code is Home || (key.code == PathKey::Char('a') && key.modifiers.control) {
        Some(PathShortcut::JumpToStart)
    } else if (key.code is Left && key.modifiers.control) || (key.code == PathKey::Char('b')
        && key.modifiers.alt) {
        Some(PathShortcut::JumpToPreviousSegment)
    } else {
        None
    }
}

/// The shortcut that `key` stands for, if any.
pub fn classify_key(key: KeyPress) -> (shortcut: Option<PathShortcut>)
    ensures
        shortcut == shortcut_of(key),
{
    match key.code {
        PathKey::Right | PathKey::End => {
            if key.modifiers.is_empty() {
                Some(PathShortcut::AcceptGhost)
            } else {
                None
            }
        },
        PathKey::Home => Some(PathShortcut::JumpToStart),
        PathKey::Left => {
            if key.modifiers.control {
                Some(PathShortcut::JumpToPreviousSegment)
            } else {
                None
            }
        },
        PathKey::Char(c) => {
            if c == 'a' && key.modifiers.control {
                Some(PathShortcut::JumpToStart)
            } else if c == 'b' && key.modifiers.alt {
                Some(PathShortcut::JumpToPreviousSegment)
            } else {
                None
            }
        },
        PathKey::Other => None,
    }
}

} // verus!
