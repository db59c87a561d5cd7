//! What every operation keeps, and what follows from it.

use crate::cell::Cell;
use crate::csi::{count, param};
use crate::grid::blank_rows;
use crate::model::{lemma_scrolled_keeps, Screen};
use vstd::prelude::*;

verus! {

/// The grid has just `rows` rows of `cols` cells.
pub open spec fn shaped(grid: Seq<Seq<Cell>>, cols: int, rows: int) -> bool {
    grid.len() == rows && forall|y: int| 0 <= y < rows ==> (#[trigger] grid[y]).len() == cols
}

/// What a terminal receives.
pub enum Input {
    /// A character to print.
    Print(char),
    /// A control character.
    Execute(u8),
    /// A control sequence: its parameters, its first intermediate byte, and its
    /// final character.
    Csi(Seq<u16>, Option<u8>, char),
    /// The parts of an operating system command.
    Osc(Seq<Seq<u8>>),
}

impl Screen {
    /// The screen has at least one cell, the grid has its shape, and the cursor
    /// is on it.
    pub open spec fn well_formed(self) -> bool {
        &&& self.cols > 0
        &&& self.rows > 0
        &&& shaped(self.grid, self.cols, self.rows)
        &&& self.cursor_on_screen()
    }

    /// A screen that was put aside has the shape of the one that is shown, and
    /// its cursor is on it.
    pub open spec fn alt_fits(self) -> bool {
        match self.alt_screen {
            Some((grid, x, y)) => shaped(grid, self.cols, self.rows) && 0 <= x < self.cols && 0 <= y
                < self.rows,
            None => true,
        }
    }

    /// The saved cursor is on the screen.
    pub open spec fn saved_fits(self) -> bool {
        0 <= self.saved_cursor_x < self.cols && 0 <= self.saved_cursor_y < self.rows
    }

    /// The history has no more rows than its limit.
    pub open spec fn history_fits(self) -> bool {
        self.scrollback.len() <= self.scrollback_limit
    }

    /// All parts of the terminal agree with each other.
    pub open spec fn consistent(self) -> bool {
        self.well_formed() && self.alt_fits() && self.saved_fits() && self.history_fits()
    }

    /// The screen after an input.
    pub open spec fn after(self, input: Input) -> Screen {
        match input {
            Input::Print(c) => self.print(c),
            Input::Execute(byte) => self.execute(byte),
            Input::Csi(p, marker, command) => self.csi(p, marker, command),
            Input::Osc(parts) => self.osc(parts),
        }
    }

    /// The input can be taken in.
    pub open spec fn accepts(self, input: Input) -> bool {
        match input {
            Input::Print(c) => self.print_defined(),
            Input::Execute(byte) => self.execute_defined(byte),
            Input::Csi(p, marker, command) => self.csi_defined(p, command),
            Input::Osc(parts) => true,
        }
    }

    /// The screen after several inputs, in their order.
    pub open spec fn after_all(self, inputs: Seq<Input>) -> Screen
        decreases inputs.len(),
    {
        if inputs.len() == 0 {
            self
        } else {
            self.after_all(inputs.drop_last()).after(inputs.last())
        }
    }
}

/// A new terminal with at least one cell is consistent.
pub proof fn law_initial(cols: int, rows: int)
    requires
        cols > 0,
        rows > 0,
    ensures
        Screen::initial(cols, rows).consistent(),
{
}

proof fn lemma_scrolled(s: Screen, n: int)
    requires
        s.well_formed(),
        n >= 0,
    ensures
        s.scrolled(n).well_formed(),
        s.history_fits() ==> s.scrolled(n).history_fits(),
{
    reveal(Screen::scrolled);
    let all = s.grid + blank_rows(n, s.cols);
    if n > 0 {
        assert forall|y: int| 0 <= y < s.rows implies (#[trigger] all.skip(n)[y]).len()
            == s.cols by {
            assert(all.skip(n)[y] == all[y + n]);
        }
    }
}

proof fn lemma_line_feed(s: Screen)
    requires
        s.well_formed(),
    ensures
        s.line_feed().well_formed(),
        s.history_fits() ==> s.line_feed().history_fits(),
        s.alt_fits() ==> s.line_feed().alt_fits(),
        s.saved_fits() ==> s.line_feed().saved_fits(),
{
    lemma_scrolled(s, 1);
    lemma_scrolled_keeps(s, 1);
}

/// A wrap keeps a terminal well-formed, with its size and its pen.
pub proof fn lemma_wrapped(s: Screen)
    requires
        s.well_formed(),
    ensures
        s.wrapped().well_formed(),
        s.wrapped().cols == s.cols,
        s.wrapped().rows == s.rows,
        s.wrapped().pen == s.pen,
{
    lemma_line_feed(s);
    lemma_scrolled_keeps(s, 1);
}

/// Printing keeps a terminal well-formed, and keeps it consistent.
pub proof fn law_print(s: Screen, c: char)
    requires
        s.well_formed(),
    ensures
        s.print(c).well_formed(),
        s.consistent() ==> s.print(c).consistent(),
{
    lemma_line_feed(s);
    lemma_scrolled_keeps(s, 1);
}

/// A control character keeps a terminal well-formed, and keeps it consistent.
pub proof fn law_execute(s: Screen, byte: u8)
    requires
        s.well_formed(),
    ensures
        s.execute(byte).well_formed(),
        s.consistent() ==> s.execute(byte).consistent(),
{
    lemma_line_feed(s);
}

/// An operating system command keeps a terminal well-formed, and keeps it
/// consistent.
pub proof fn law_osc(s: Screen, parts: Seq<Seq<u8>>)
    requires
        s.well_formed(),
    ensures
        s.osc(parts).well_formed(),
        s.consistent() ==> s.osc(parts).consistent(),
{
}

proof fn lemma_modes(s: Screen, modes: Seq<u16>, enable: bool)
    requires
        s.well_formed(),
        !enable && modes.contains(1049) ==> s.alt_fits(),
    ensures
        s.with_modes(modes, enable).well_formed(),
        s.alt_fits() ==> s.with_modes(modes, enable).alt_fits(),
        s.with_modes(modes, enable).cols == s.cols,
        s.with_modes(modes, enable).rows == s.rows,
        s.with_modes(modes, enable).saved_cursor_x == s.saved_cursor_x,
        s.with_modes(modes, enable).saved_cursor_y == s.saved_cursor_y,
        s.with_modes(modes, enable).scrollback == s.scrollback,
        s.with_modes(modes, enable).scrollback_limit == s.scrollback_limit,
    decreases modes.len(),
{
    if modes.len() > 0 {
        let rest = modes.drop_last();
        if rest.contains(1049) {
            let i = choose|i: int| 0 <= i < rest.len() && rest[i] == 1049;
            assert(modes[i] == 1049);
        }
        lemma_modes(s, rest, enable);
        if modes.last() == 1049 {
            assert(modes[modes.len() - 1] == 1049);
        }
    }
}

/// A control sequence keeps a terminal well-formed, and keeps it consistent.
/// To restore the cursor, the saved one has to be on the screen; to leave the
/// alternate screen, the one that was put aside has to fit.
pub proof fn law_csi(s: Screen, p: Seq<u16>, marker: Option<u8>, command: char)
    requires
        s.well_formed(),
        command == 'u' ==> s.saved_fits(),
        command == 'l' && marker == Some(0x3fu8) && p.contains(1049) ==> s.alt_fits(),
    ensures
        s.csi(p, marker, command).well_formed(),
        s.consistent() ==> s.csi(p, marker, command).consistent(),
{
    let t = s.csi_started();
    let r = s.csi(p, marker, command);
    if command == 'S' {
        lemma_scrolled(t, count(p, 0));
        lemma_scrolled_keeps(t, count(p, 0));
    } else if command == 'h' || command == 'l' {
        if marker == Some(0x3fu8) {
            lemma_modes(t, p, command == 'h');
        }
    } else if command == 'L' || command == 'M' || command == 'P' || command == '@' || command
        == 'J' || command == 'K' {
        assert(r.grid.len() == s.rows);
        assert forall|y: int| 0 <= y < s.rows implies (#[trigger] r.grid[y]).len() == s.cols by {}
    }
}

/// A new size keeps a terminal well-formed. It stays consistent unless a
/// screen was put aside, whose size does not change, or the saved cursor is
/// off the new screen.
pub proof fn law_resize(s: Screen, cols: int, rows: int)
    requires
        s.well_formed(),
        cols > 0,
        rows > 0,
    ensures
        s.resized(cols, rows).well_formed(),
        s.consistent() ==> (s.resized(cols, rows).consistent() <==> {
            &&& s.alt_screen is None || cols == s.cols && rows == s.rows
            &&& s.saved_cursor_x < cols
            &&& s.saved_cursor_y < rows
        }),
{
    if let Some((grid, x, y)) = s.alt_screen {
        if s.consistent() && !(cols == s.cols && rows == s.rows) {
            assert(grid.len() == s.rows);
            assert(grid[0].len() == s.cols);
        }
    }
}

/// Entering and leaving the alternate screen and clearing keep a terminal
/// consistent.
pub proof fn law_screens(s: Screen)
    requires
        s.consistent(),
    ensures
        s.alt_entered().consistent(),
        s.alt_exited().consistent(),
        s.cleared().consistent(),
{
}

/// Scrolling keeps a terminal consistent.
pub proof fn law_scroll(s: Screen, n: int)
    requires
        s.consistent(),
        n >= 0,
    ensures
        s.scrolled(n).consistent(),
{
    lemma_scrolled(s, n);
    lemma_scrolled_keeps(s, n);
}

/// A well-formed terminal takes every input in, and can get every size.
pub proof fn law_accepts(s: Screen, input: Input, cols: int, rows: int)
    requires
        s.well_formed(),
    ensures
        s.accepts(input),
        s.resize_defined(cols, rows),
{
    lemma_scrolled(s, 1);
    lemma_scrolled_keeps(s, 1);
    if let Input::Csi(p, marker, command) = input {
        if command == 'J' || command == 'K' {
            let area = s.area(command == 'J', param(p, 0, 0));
            assert forall|y: int| #[trigger] area.row_fits(s.grid, y) by {}
        }
    }
}

/// Whatever a terminal of a fixed size receives, it stays consistent, and it
/// takes in whatever comes next.
pub proof fn law_session(s: Screen, inputs: Seq<Input>, next: Input)
    requires
        s.consistent(),
    ensures
        s.after_all(inputs).consistent(),
        s.after_all(inputs).accepts(next),
    decreases inputs.len(),
{
    if inputs.len() > 0 {
        let t = s.after_all(inputs.drop_last());
        law_session(s, inputs.drop_last(), inputs.last());
        match inputs.last() {
            Input::Print(c) => law_print(t, c),
            Input::Execute(byte) => law_execute(t, byte),
            Input::Csi(p, marker, command) => law_csi(t, p, marker, command),
            Input::Osc(parts) => law_osc(t, parts),
        }
    }
    law_accepts(s.after_all(inputs), next, 0, 0);
}

} // verus!
