//! Select Graphic Rendition: the codes that change the pen.

use crate::cell::Pen;
use crate::color::{
    ansi_color, basic_color, palette_color, rgb_color, true_color, xterm_color, Color,
};
use vstd::prelude::*;

verus! {

/// The colour that an extended colour code selects, if the codes behind it are
/// complete: `5` and a palette index, or `2` and three intensities.
pub open spec fn extended_color(codes: Seq<u16>) -> Option<Color> {
    if codes.len() > 2 && codes[1] == 5 {
        Some(palette_color(codes[2] as int))
    } else if codes.len() > 4 && codes[1] == 2 {
        Some(true_color(codes[2] as int, codes[3] as int, codes[4] as int))
    } else {
        None
    }
}

/// How many codes the first code of a sequence takes up, itself included.
pub open spec fn code_width(codes: Seq<u16>) -> int {
    if codes[0] == 38 || codes[0] == 48 {
        if codes.len() > 2 && codes[1] == 5 {
            3
        } else if codes.len() > 4 && codes[1] == 2 {
            5
        } else {
            1
        }
    } else {
        1
    }
}

impl Pen {
    /// The pen after the first code of a non-empty sequence, on a terminal
    /// with the given default colours.
    pub open spec fn selected(self, codes: Seq<u16>, fg: Color, bg: Color) -> Pen {
        let code = codes[0] as int;
        if code == 0 {
            Pen::plain(fg, bg)
        } else if code == 1 {
            Pen { bold: true, ..self }
        } else if code == 2 {
            Pen { dim: true, ..self }
        } else if code == 3 {
            Pen { italic: true, ..self }
        } else if code == 4 {
            Pen { underline: true, ..self }
        } else if code == 7 {
            Pen { reverse: true, ..self }
        } else if code == 9 {
            Pen { strikethrough: true, ..self }
        } else if code == 22 {
            Pen { bold: false, dim: false, ..self }
        } else if code == 23 {
            Pen { italic: false, ..self }
        } else if code == 24 {
            Pen { underline: false, ..self }
        } else if code == 27 {
            Pen { reverse: false, ..self }
        } else if code == 29 {
            Pen { strikethrough: false, ..self }
        } else if 30 <= code <= 37 {
            Pen { fg: basic_color(code - 30, false), ..self }
        } else if code == 38 {
            match extended_color(codes) {
                Some(c) => Pen { fg: c, ..self },
                None => self,
            }
        } else if code == 39 {
            Pen { fg, ..self }
        } else if 40 <= code <= 47 {
            Pen { bg: basic_color(code - 40, false), ..self }
        } else if code == 48 {
            match extended_color(codes) {
                Some(c) => Pen { bg: c, ..self },
                None => self,
            }
        } else if code == 49 {
            Pen { bg, ..self }
        } else if 90 <= code <= 97 {
            Pen { fg: basic_color(code - 90, true), ..self }
        } else if 100 <= code <= 107 {
            Pen { bg: basic_color(code - 100, true), ..self }
        } else {
            self
        }
    }

    /// The pen after all codes of a sequence, one after the other.
    pub open spec fn selected_all(self, codes: Seq<u16>, fg: Color, bg: Color) -> Pen
        decreases codes.len(),
    {
        if codes.len() == 0 {
            self
        } else {
            self.selected(codes, fg, bg).selected_all(codes.skip(code_width(codes)), fg, bg)
        }
    }

    /// The pen after a Select Graphic Rendition sequence. Without any code the
    /// pen becomes plain.
    pub open spec fn rendition(self, codes: Seq<u16>, fg: Color, bg: Color) -> Pen {
        if codes.len() == 0 {
            Pen::plain(fg, bg)
        } else {
            self.selected_all(codes, fg, bg)
        }
    }

    /// The pen without any attribute, in the given colours.
    pub fn new(fg: Color, bg: Color) -> (pen: Pen)
        ensures
            pen == Pen::plain(fg, bg),
    {
        Pen {
            fg,
            bg,
            bold: false,
            dim: false,
            italic: false,
            underline: false,
            strikethrough: false,
            reverse: false,
        }
    }

    /// The pen after the code at `at`.
    fn select(self, codes: &[u16], at: usize, fg: Color, bg: Color) -> (pen: Pen)
        requires
            at < codes@.len(),
        ensures
            pen == self.selected(codes@.skip(at as int), fg, bg),
    {
        let code: u16 = codes[at];
        assert(codes@.skip(at as int)[0] == code);
        match code {
            0 => Pen::new(fg, bg),
            1 => Pen { bold: true, ..self },
            2 => Pen { dim: true, ..self },
            3 => Pen { italic: true, ..self },
            4 => Pen { underline: true, ..self },
            7 => Pen { reverse: true, ..self },
            9 => Pen { strikethrough: true, ..self },
            22 => Pen { bold: false, dim: false, ..self },
            23 => Pen { italic: false, ..self },
            24 => Pen { underline: false, ..self },
            27 => Pen { reverse: false, ..self },
            29 => Pen { strikethrough: false, ..self },
            30..=37 => Pen { fg: ansi_color(code - 30, false), ..self },
            38 => match extended_color_at(codes, at) {
                Some(c) => Pen { fg: c, ..self },
                None => self,
            },
            39 => Pen { fg, ..self },
            40..=47 => Pen { bg: ansi_color(code - 40, false), ..self },
            48 => match extended_color_at(codes, at) {
                Some(c) => Pen { bg: c, ..self },
                None => self,
            },
            49 => Pen { bg, ..self },
            90..=97 => Pen { fg: ansi_color(code - 90, true), ..self },
            100..=107 => Pen { bg: ansi_color(code - 100, true), ..self },
            _ => self,
        }
    }

    /// The pen after a Select Graphic Rendition sequence.
    pub fn render(self, codes: &[u16], fg: Color, bg: Color) -> (pen: Pen)
        ensures
            pen == self.rendition(codes@, fg, bg),
    {
        if codes.len() == 0 {
            return Pen::new(fg, bg);
        }
        let mut pen: Pen = self;
        let mut i: usize = 0;
        assert(codes@.skip(0) =~= codes@);
        while i < codes.len()
            invariant
                i <= codes@.len(),
                pen.selected_all(codes@.skip(i as int), fg, bg) == self.selected_all(
                    codes@,
                    fg,
                    bg,
                ),
            decreases codes@.len() - i,
        {
            let ghost rest = codes@.skip(i as int);
            pen = pen.select(codes, i, fg, bg);
            let width: usize = code_width_at(codes, i);
            assert(rest.skip(width as int) =~= codes@.skip(i + width));
            i = i + width;
        }
        pen
    }
}

fn extended_color_at(codes: &[u16], at: usize) -> (c: Option<Color>)
    requires
        at < codes@.len(),
    ensures
        c == extended_color(codes@.skip(at as int)),
{
    let left: usize = codes.len() - at;
    if left > 2 && codes[at + 1] == 5 {
        Some(xterm_color(codes[at + 2]))
    } else if left > 4 && codes[at + 1] == 2 {
        Some(rgb_color(codes[at + 2] as i64, codes[at + 3] as i64, codes[at + 4] as i64))
    } else {
        None
    }
}

fn code_width_at(codes: &[u16], at: usize) -> (width: usize)
    requires
        at < codes@.len(),
    ensures
        width == code_width(codes@.skip(at as int)),
        0 < width <= codes@.len() - at,
{
    let left: usize = codes.len() - at;
    if codes[at] != 38 && codes[at] != 48 {
        1
    } else if left > 2 && codes[at + 1] == 5 {
        3
    } else if left > 4 && codes[at + 1] == 2 {
        5
    } else {
        1
    }
}

} // verus!
