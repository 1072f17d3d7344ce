//! Colors and the other things that set one piece of a line off from another.

use vstd::prelude::*;

verus! {

#[derive(Clone, Copy, Debug, PartialEq, Eq, Structural)]
pub enum Color {
    Reset,
    Red,
    Green,
    Yellow,
    Blue,
    Cyan,
    White,
    DarkGray,
    Indexed(u8),
}

/// What a piece of text looks like. What is not set here stays as it is around the piece.
#[derive(Clone, Copy, Debug, PartialEq, Eq, Structural)]
pub struct Look {
    pub fg: Option<Color>,
    pub bold: bool,
    pub italic: bool,
}

/// One style laid over another: its color wins where it has one, and bold and italic add up.
pub open spec fn laid_over(below: Look, above: Look) -> Look {
    Look {
        fg: if above.fg is Some {
            above.fg
        } else {
            below.fg
        },
        bold: below.bold || above.bold,
        italic: below.italic || above.italic,
    }
}

pub open spec fn plain() -> Look {
    Look { fg: None, bold: false, italic: false }
}

pub open spec fn colored(color: Color) -> Look {
    Look { fg: Some(color), bold: false, italic: false }
}

impl Look {
    pub fn new() -> (out: Self)
        ensures
            out == plain(),
    {
        Look { fg: None, bold: false, italic: false }
    }

    pub fn of(color: Color) -> (out: Self)
        ensures
            out == colored(color),
    {
        Look { fg: Some(color), bold: false, italic: false }
    }

    pub fn with_bold(self) -> (out: Self)
        ensures
            out == (Look { bold: true, ..self }),
    {
        Look { fg: self.fg, bold: true, italic: self.italic }
    }

    pub fn with_italic(self) -> (out: Self)
        ensures
            out == (Look { italic: true, ..self }),
    {
        Look { fg: self.fg, bold: self.bold, italic: true }
    }

    pub fn patch(self, above: Look) -> (out: Self)
        ensures
            out == laid_over(self, above),
    {
        Look {
            fg: match above.fg {
                Some(color) => Some(color),
                None => self.fg,
            },
            bold: self.bold || above.bold,
            italic: self.italic || above.italic,
        }
    }
}

} // verus!
