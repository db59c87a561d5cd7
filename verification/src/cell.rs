//! The cells of the screen and the pen that they are drawn with.

use crate::color::Color;
use vstd::prelude::*;

verus! {

/// One character cell of the screen. A colour that is `None` is the default
/// colour of the terminal.
#[derive(Clone, Copy, Debug, PartialEq)]
pub struct Cell {
    pub ch: char,
    pub fg: Option<Color>,
    pub bg: Option<Color>,
    pub bold: bool,
    pub dim: bool,
    pub italic: bool,
    pub underline: bool,
    pub strikethrough: bool,
    pub reverse: bool,
}

/// The rendition that printed characters get.
#[derive(Clone, Copy, Debug, PartialEq)]
pub struct Pen {
    pub fg: Color,
    pub bg: Color,
    pub bold: bool,
    pub dim: bool,
    pub italic: bool,
    pub underline: bool,
    pub strikethrough: bool,
    pub reverse: bool,
}

/// The cell that holds nothing.
pub open spec fn blank_cell() -> Cell {
    Cell {
        ch: ' ',
        fg: None,
        bg: None,
        bold: false,
        dim: false,
        italic: false,
        underline: false,
        strikethrough: false,
        reverse: false,
    }
}

impl Pen {
    /// The pen without any attribute, in the given colours.
    pub open spec fn plain(fg: Color, bg: Color) -> Pen {
        Pen {
            fg,
            bg,
            bold: false,
            dim: false,
            italic: false,
            underline: false,
            strikethrough: false,
            reverse: false,
        }
    }

    /// The cell that this pen leaves for `c`. The cell keeps the colours as they
    /// are; reverse video exchanges them when the cell is shown.
    pub open spec fn cell(self, c: char) -> Cell {
        Cell {
            ch: c,
            fg: Some(self.fg),
            bg: Some(self.bg),
            bold: self.bold,
            dim: self.dim,
            italic: self.italic,
            underline: self.underline,
            strikethrough: self.strikethrough,
            reverse: self.reverse,
        }
    }
}

impl Cell {
    /// The cell that holds nothing.
    pub fn blank() -> (cell: Self)
        ensures
            cell == blank_cell(),
    {
        Self {
            ch: ' ',
            fg: None,
            bg: None,
            bold: false,
            dim: false,
            italic: false,
            underline: false,
            strikethrough: false,
            reverse: false,
        }
    }
}

} // verus!
