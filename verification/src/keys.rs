//! Keys of a keyboard.

use vstd::prelude::*;

verus! {

#[derive(Clone, Copy, Debug, PartialEq, Eq, Structural)]
pub enum Code {
    Char(char),
    Esc,
    Enter,
    Backspace,
    Delete,
    Left,
    Right,
    Up,
    Down,
    Home,
    End,
    PageUp,
    PageDown,
    Other,
}

/// What happens to a key.
#[derive(Clone, Copy, Debug, PartialEq, Eq, Structural)]
pub enum Kind {
    /// It goes down.
    Press,
    /// It is held down.
    Repeat,
    /// It goes up.
    Release,
}

/// A key with what is held down beside it.
#[derive(Clone, Copy, Debug, PartialEq, Eq, Structural)]
pub struct Key {
    pub code: Code,
    pub ctrl: bool,
    pub alt: bool,
    pub shift: bool,
    /// Any other modifier.
    pub meta: bool,
    pub kind: Kind,
}

impl Key {
    /// Nothing but shift is held down.
    pub open spec fn plain(&self) -> bool {
        !self.ctrl && !self.alt && !self.meta
    }

    pub fn is_plain(&self) -> (out: bool)
        ensures
            out == self.plain(),
    {
        !self.ctrl && !self.alt && !self.meta
    }

    /// A key that goes down with nothing held beside it.
    pub fn of(code: Code) -> (out: Key)
        ensures
            out == (Key {
                code,
                ctrl: false,
                alt: false,
                shift: false,
                meta: false,
                kind: Kind::Press,
            }),
    {
        Key { code, ctrl: false, alt: false, shift: false, meta: false, kind: Kind::Press }
    }

    /// A key that goes down with control held.
    pub fn with_ctrl(code: Code) -> (out: Key)
        ensures
            out == (Key {
                code,
                ctrl: true,
                alt: false,
                shift: false,
                meta: false,
                kind: Kind::Press,
            }),
    {
        Key { code, ctrl: true, alt: false, shift: false, meta: false, kind: Kind::Press }
    }
}

} // verus!
