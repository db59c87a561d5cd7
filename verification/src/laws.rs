//! What holds of the operations together.

use crate::bounds::least;
use crate::cell::{blank_cell, Cell, Pen};
use crate::color::{basic_color, palette_color, rgba, true_color, Color, Rgba};
use crate::csi::count;
use crate::frame::{
    cell_background, cell_foreground, cell_style, cursor_color, grid_quads, grid_runs, line_break,
    quad, row_quads, row_runs, Corner, Run,
};
use crate::grid::{blank_cells, blank_rows};
use crate::integrity::{
    law_accepts, law_print, law_screens, law_scroll, law_session, lemma_wrapped, Input,
};
use crate::model::{lemma_scrolled_keeps, Screen};
use crate::osc::{
    command_number, digits_value, file_scheme, from_slash, is_digit, percent_decoded, rejoined,
};
use crate::reply::{cursor_report, decimal, hex_digit};
use crate::sgr::code_width;
use vstd::prelude::*;

verus! {

// The history.

/// Scrolling loses no row but the oldest ones of the history: the history and
/// the grid in a row stay what they were, with blank rows behind them. With
/// room in the history nothing is lost.
pub proof fn law_scroll_loses_oldest(s: Screen, n: int)
    requires
        s.grid.len() > 0,
        n >= 0,
    ensures
        ({
            let before = s.scrollback + s.grid + blank_rows(n, s.cols);
            let after = s.scrolled(n).scrollback + s.scrolled(n).grid;
            &&& after.len() <= before.len()
            &&& after == before.skip(before.len() - after.len())
            &&& s.scrollback.len() + n <= s.scrollback_limit ==> after == before
        }),
{
    reveal(Screen::scrolled);
    let before = s.scrollback + s.grid + blank_rows(n, s.cols);
    let after = s.scrolled(n).scrollback + s.scrolled(n).grid;
    assert(after =~= before.skip(before.len() - after.len()));
    if s.scrollback.len() + n <= s.scrollback_limit {
        assert(after =~= before);
    }
}

// Steps.

/// What happens to a terminal between two moments.
pub enum Step {
    /// It receives an input.
    Receive(Input),
    /// It is cleared.
    Clear,
    /// It scrolls by one row.
    Scroll,
    /// It enters the alternate screen.
    EnterAlt,
    /// It leaves the alternate screen.
    ExitAlt,
    /// It gets a new size.
    Resize(int, int),
    /// It is drawn.
    Draw,
}

impl Screen {
    /// The screen after a step.
    pub open spec fn stepped(self, step: Step) -> Screen {
        match step {
            Step::Receive(input) => self.after(input),
            Step::Clear => self.cleared(),
            Step::Scroll => self.scrolled(1),
            Step::EnterAlt => self.alt_entered(),
            Step::ExitAlt => self.alt_exited(),
            Step::Resize(cols, rows) => self.resized(cols, rows),
            Step::Draw => self.drawn(),
        }
    }

    /// The screen after several steps, in their order.
    pub open spec fn stepped_all(self, steps: Seq<Step>) -> Screen
        decreases steps.len(),
    {
        if steps.len() == 0 {
            self
        } else {
            self.stepped_all(steps.drop_last()).stepped(steps.last())
        }
    }
}

/// Whatever happens to a terminal of a fixed size, it stays consistent.
pub proof fn law_steps_consistent(s: Screen, steps: Seq<Step>)
    requires
        s.consistent(),
        forall|i: int| 0 <= i < steps.len() ==> !((#[trigger] steps[i]) is Resize),
    ensures
        s.stepped_all(steps).consistent(),
    decreases steps.len(),
{
    if steps.len() > 0 {
        let rest = steps.drop_last();
        assert forall|i: int| 0 <= i < rest.len() implies !((#[trigger] rest[i]) is Resize) by {
            assert(!(steps[i] is Resize));
        }
        assert(!(steps[steps.len() - 1] is Resize));
        law_steps_consistent(s, rest);
        let t = s.stepped_all(rest);
        law_screens(t);
        law_scroll(t, 1);
        if let Step::Receive(input) = steps.last() {
            law_session(t, seq![input], input);
            reveal_with_fuel(Screen::after_all, 2);
            assert(seq![input].drop_last() =~= Seq::empty());
        }
    }
}

// The alternate screen.

/// Leaving the alternate screen undoes entering it, but for the need to draw.
pub proof fn law_alt_round_trip(s: Screen)
    requires
        s.alt_screen is None,
    ensures
        s.alt_entered().alt_exited() == s.touched(),
        s.alt_entered().grid == blank_rows(s.rows, s.cols),
{
}

/// The step leaves the alternate screen.
pub open spec fn leaves_alt(step: Step) -> bool {
    match step {
        Step::Receive(Input::Csi(p, marker, command)) => command == 'l' && marker == Some(0x3fu8)
            && p.contains(1049),
        Step::ExitAlt => true,
        _ => false,
    }
}

proof fn lemma_modes_keep_alt(s: Screen, modes: Seq<u16>, enable: bool)
    requires
        s.alt_screen is Some,
        !enable ==> !modes.contains(1049),
    ensures
        s.with_modes(modes, enable).alt_screen == s.alt_screen,
    decreases modes.len(),
{
    if modes.len() > 0 {
        let rest = modes.drop_last();
        if rest.contains(1049) {
            let i = choose|i: int| 0 <= i < rest.len() && rest[i] == 1049;
            assert(modes[i] == 1049);
        }
        lemma_modes_keep_alt(s, rest, enable);
        assert(modes[modes.len() - 1] == modes.last());
    }
}

/// The screen that was put aside stays as it is until the alternate screen is
/// left.
pub proof fn law_alt_kept(s: Screen, step: Step)
    requires
        s.alt_screen is Some,
        !leaves_alt(step),
    ensures
        s.stepped(step).alt_screen == s.alt_screen,
{
    lemma_scrolled_keeps(s, 1);
    if let Step::Receive(Input::Csi(p, marker, command)) = step {
        let t = s.csi_started();
        lemma_scrolled_keeps(t, count(p, 0));
        if command == 'h' {
            lemma_modes_keep_alt(t, p, true);
        } else if command == 'l' && marker == Some(0x3fu8) {
            lemma_modes_keep_alt(t, p, false);
        }
    }
}

proof fn lemma_alt_kept(s: Screen, steps: Seq<Step>)
    requires
        s.alt_screen is Some,
        forall|i: int| 0 <= i < steps.len() ==> !leaves_alt(#[trigger] steps[i]),
    ensures
        s.stepped_all(steps).alt_screen == s.alt_screen,
    decreases steps.len(),
{
    if steps.len() > 0 {
        let rest = steps.drop_last();
        assert(!leaves_alt(steps[steps.len() - 1]));
        assert forall|i: int| 0 <= i < rest.len() implies !leaves_alt(#[trigger] rest[i]) by {
            assert(!leaves_alt(steps[i]));
        }
        lemma_alt_kept(s, rest);
        law_alt_kept(s.stepped_all(rest), steps.last());
    }
}

/// Whatever happens on the alternate screen, leaving it brings back the grid
/// and the cursor that were there when it was entered.
pub proof fn law_alt_restores(s: Screen, steps: Seq<Step>)
    requires
        s.alt_screen is None,
        forall|i: int| 0 <= i < steps.len() ==> !leaves_alt(#[trigger] steps[i]),
    ensures
        ({
            let t = s.alt_entered().stepped_all(steps).alt_exited();
            &&& t.grid == s.grid
            &&& t.cursor_x == s.cursor_x
            &&& t.cursor_y == s.cursor_y
            &&& t.alt_screen is None
        }),
{
    lemma_alt_kept(s.alt_entered(), steps);
}

/// Entering the alternate screen again changes nothing, nor does leaving the
/// main screen.
pub proof fn law_alt_idempotent(s: Screen)
    ensures
        s.alt_entered().alt_entered() == s.alt_entered(),
        s.alt_exited().alt_exited() == s.alt_exited(),
{
}

/// Setting and resetting the private mode 1049 enters and leaves the alternate
/// screen: afterwards only a wrap that was due is forgotten.
pub proof fn law_alt_mode_round_trip(s: Screen)
    requires
        s.alt_screen is None,
    ensures
        s.csi(seq![1049u16], Some(0x3fu8), 'h').csi(seq![1049u16], Some(0x3fu8), 'l')
            == s.csi_started(),
{
    let modes = seq![1049u16];
    let t = s.csi_started();
    reveal_with_fuel(Screen::with_modes, 2);
    assert(modes.drop_last() =~= Seq::empty());
    assert(t.with_modes(modes, true) == t.alt_entered());
}

// The saved cursor.

proof fn lemma_modes_keep_saved(s: Screen, modes: Seq<u16>, enable: bool)
    ensures
        s.with_modes(modes, enable).saved_cursor_x == s.saved_cursor_x,
        s.with_modes(modes, enable).saved_cursor_y == s.saved_cursor_y,
        s.with_modes(modes, enable).pending_wrap == s.pending_wrap,
        s.dirty ==> s.with_modes(modes, enable).dirty,
    decreases modes.len(),
{
    if modes.len() > 0 {
        lemma_modes_keep_saved(s, modes.drop_last(), enable);
    }
}

/// The step saves the cursor.
pub open spec fn saves_cursor(step: Step) -> bool {
    step matches Step::Receive(Input::Csi(p, marker, command)) && command == 's'
}

/// Nothing but saving the cursor changes the saved cursor.
pub proof fn law_saved_cursor_kept(s: Screen, step: Step)
    requires
        !saves_cursor(step),
    ensures
        s.stepped(step).saved_cursor_x == s.saved_cursor_x,
        s.stepped(step).saved_cursor_y == s.saved_cursor_y,
{
    lemma_scrolled_keeps(s, 1);
    if let Step::Receive(Input::Csi(p, marker, command)) = step {
        let t = s.csi_started();
        lemma_scrolled_keeps(t, count(p, 0));
        lemma_modes_keep_saved(t, p, true);
        lemma_modes_keep_saved(t, p, false);
    }
}

proof fn lemma_saved_cursor_kept(s: Screen, steps: Seq<Step>)
    requires
        forall|i: int| 0 <= i < steps.len() ==> !saves_cursor(#[trigger] steps[i]),
    ensures
        s.stepped_all(steps).saved_cursor_x == s.saved_cursor_x,
        s.stepped_all(steps).saved_cursor_y == s.saved_cursor_y,
    decreases steps.len(),
{
    if steps.len() > 0 {
        let rest = steps.drop_last();
        assert(!saves_cursor(steps[steps.len() - 1]));
        assert forall|i: int| 0 <= i < rest.len() implies !saves_cursor(#[trigger] rest[i]) by {
            assert(!saves_cursor(steps[i]));
        }
        lemma_saved_cursor_kept(s, rest);
        law_saved_cursor_kept(s.stepped_all(rest), steps.last());
    }
}

/// Whatever happens after the cursor was saved, short of saving it again,
/// restoring it brings it back to where it was saved. The parameters and the
/// marks of the two sequences make no difference.
pub proof fn law_cursor_restored(
    s: Screen,
    p: Seq<u16>,
    saving: Option<u8>,
    steps: Seq<Step>,
    q: Seq<u16>,
    restoring: Option<u8>,
)
    requires
        forall|i: int| 0 <= i < steps.len() ==> !saves_cursor(#[trigger] steps[i]),
    ensures
        ({
            let t = s.csi(p, saving, 's').stepped_all(steps).csi(q, restoring, 'u');
            t.cursor_x == s.cursor_x && t.cursor_y == s.cursor_y
        }),
{
    lemma_saved_cursor_kept(s.csi(p, saving, 's'), steps);
}

/// Every input asks for the screen to be drawn anew.
pub proof fn law_input_touches(s: Screen, input: Input)
    ensures
        s.after(input).dirty,
{
    lemma_scrolled_keeps(s, 1);
    if let Input::Csi(p, marker, command) = input {
        let t = s.csi_started();
        reveal(Screen::scrolled);
        lemma_modes_keep_saved(t, p, true);
        lemma_modes_keep_saved(t, p, false);
    }
}

/// After a control sequence no wrap is due.
pub proof fn law_csi_ends_wrap(s: Screen, p: Seq<u16>, marker: Option<u8>, command: char)
    ensures
        !s.csi(p, marker, command).pending_wrap,
{
    let t = s.csi_started();
    lemma_scrolled_keeps(t, count(p, 0));
    lemma_modes_keep_saved(t, p, true);
    lemma_modes_keep_saved(t, p, false);
}

// Cursor motion.

/// A program that moves the cursor to a position on the screen and asks for
/// the position is told the same position.
pub proof fn law_position_reported(s: Screen, row: u16, col: u16, marker: Option<u8>)
    requires
        1 <= row <= s.rows,
        1 <= col <= s.cols,
    ensures
        s.csi(seq![row, col], marker, 'H').csi_reply(seq![6u16], None, 'n') == Some(
            cursor_report(col - 1, row - 1),
        ),
{
}

/// Moving up and then down by as much, or left and then right, leads back, as
/// long as the edge of the screen is not in the way.
pub proof fn law_motion_back(s: Screen, p: Seq<u16>, marker: Option<u8>)
    requires
        s.cursor_on_screen(),
    ensures
        count(p, 0) <= s.cursor_y ==> s.csi(p, marker, 'A').csi(p, marker, 'B') == s.csi_started(),
        count(p, 0) <= s.cursor_x ==> s.csi(p, marker, 'D').csi(p, marker, 'C') == s.csi_started(),
{
}

// Sizes.

/// What fits into a new size stays at its place, and the rest of the screen is
/// blank.
pub proof fn law_resize_keeps_cells(s: Screen, cols: int, rows: int, y: int, x: int)
    requires
        s.well_formed(),
        0 <= y < rows,
        0 <= x < cols,
    ensures
        s.resized(cols, rows).grid[y][x] == if y < s.rows && x < s.cols {
            s.grid[y][x]
        } else {
            blank_cell()
        },
{
}

/// Growing and shrinking back brings back the grid and the cursor.
pub proof fn law_resize_round_trip(s: Screen, cols: int, rows: int)
    requires
        s.well_formed(),
        cols >= s.cols,
        rows >= s.rows,
    ensures
        s.resized(cols, rows).resized(s.cols, s.rows).grid == s.grid,
        s.resized(cols, rows).resized(s.cols, s.rows).cursor_x == s.cursor_x,
        s.resized(cols, rows).resized(s.cols, s.rows).cursor_y == s.cursor_y,
{
    let t = s.resized(cols, rows).resized(s.cols, s.rows);
    assert(t.grid.len() == s.grid.len());
    assert forall|y: int| 0 <= y < s.rows implies #[trigger] t.grid[y] == s.grid[y] by {
        assert(t.grid[y] =~= s.grid[y]);
    }
    assert(t.grid =~= s.grid);
}

// Erasing.

/// Erasing the whole display makes every cell blank and moves the cursor home.
pub proof fn law_erase_all(s: Screen, marker: Option<u8>, mode: u16)
    requires
        s.well_formed(),
        mode == 2 || mode == 3,
    ensures
        s.csi(seq![mode], marker, 'J').grid == blank_rows(s.rows, s.cols),
        s.csi(seq![mode], marker, 'J').cursor_x == 0,
        s.csi(seq![mode], marker, 'J').cursor_y == 0,
{
    let t = s.csi(seq![mode], marker, 'J');
    assert forall|y: int| 0 <= y < s.rows implies #[trigger] t.grid[y] == blank_cells(s.cols) by {
        assert(t.grid[y] =~= blank_cells(s.cols));
    }
    assert(t.grid =~= blank_rows(s.rows, s.cols));
}

/// Erasing from the cursor on and then up to the cursor makes every cell
/// blank, and leaves the cursor where it is.
pub proof fn law_erase_both_parts(s: Screen, marker: Option<u8>)
    requires
        s.well_formed(),
    ensures
        ({
            let t = s.csi(seq![0u16], marker, 'J').csi(seq![1u16], marker, 'J');
            &&& t.grid == blank_rows(s.rows, s.cols)
            &&& t.cursor_x == s.cursor_x
            &&& t.cursor_y == s.cursor_y
        }),
{
    let t = s.csi(seq![0u16], marker, 'J').csi(seq![1u16], marker, 'J');
    assert forall|y: int| 0 <= y < s.rows implies #[trigger] t.grid[y] == blank_cells(s.cols) by {
        assert(t.grid[y] =~= blank_cells(s.cols));
    }
    assert(t.grid =~= blank_rows(s.rows, s.cols));
}

/// Erasing in a line leaves all other lines as they are.
pub proof fn law_erase_line_keeps_others(s: Screen, p: Seq<u16>, marker: Option<u8>, y: int)
    requires
        0 <= y < s.grid.len(),
        y != s.cursor_y,
    ensures
        s.csi(p, marker, 'K').grid[y] == s.grid[y],
{
    assert(s.csi(p, marker, 'K').grid[y] =~= s.grid[y]);
}

// Inserting and deleting.

/// Deleting the lines that were just inserted brings the lines back, but for
/// those that left at the bottom.
pub proof fn law_lines_round_trip(s: Screen, p: Seq<u16>, marker: Option<u8>, y: int)
    requires
        s.well_formed(),
        0 <= y < s.rows,
    ensures
        s.csi(p, marker, 'L').csi(p, marker, 'M').grid[y] == if y < s.cursor_y || y + count(p, 0)
            < s.rows {
            s.grid[y]
        } else {
            blank_cells(s.cols)
        },
{
}

/// Deleting the cells that were just inserted brings the cells back, but for
/// those that left at the right.
pub proof fn law_cells_round_trip(s: Screen, p: Seq<u16>, marker: Option<u8>, x: int)
    requires
        s.well_formed(),
        0 <= x < s.cols,
    ensures
        s.csi(p, marker, '@').csi(p, marker, 'P').grid[s.cursor_y][x] == if x < s.cursor_x || x
            + count(p, 0) < s.cols {
            s.grid[s.cursor_y][x]
        } else {
            blank_cell()
        },
{
}

// Printing.

/// A printed character stands in the cell under the cursor, after a wrap that
/// was due, drawn with the pen; no other cell changes.
pub proof fn law_print_puts(s: Screen, c: char, y: int, x: int)
    requires
        s.well_formed(),
        0 <= y < s.rows,
        0 <= x < s.cols,
    ensures
        s.print(c).grid[y][x] == if y == s.wrapped().cursor_y && x == s.wrapped().cursor_x {
            s.pen.cell(c)
        } else {
            s.wrapped().grid[y][x]
        },
{
    law_print(s, c);
    lemma_scrolled_keeps(s, 1);
    law_accepts(s, Input::Print(c), s.cols, s.rows);
    lemma_wrapped(s);
}

/// The screen after a text was printed.
pub open spec fn printed(s: Screen, text: Seq<char>) -> Screen
    decreases text.len(),
{
    if text.len() == 0 {
        s
    } else {
        printed(s, text.drop_last()).print(text.last())
    }
}

pub proof fn lemma_printed(s: Screen, text: Seq<char>)
    requires
        s.well_formed(),
        !s.pending_wrap,
        s.cursor_x + text.len() <= s.cols,
    ensures
        ({
            let t = printed(s, text);
            &&& t.well_formed()
            &&& t.cols == s.cols
            &&& t.rows == s.rows
            &&& t.pen == s.pen
            &&& t.cursor_y == s.cursor_y
            &&& t.cursor_x == least(s.cursor_x + text.len(), s.cols - 1)
            &&& t.pending_wrap == (s.cursor_x + text.len() == s.cols)
            &&& forall|y: int, x: int|
                0 <= y < s.rows && 0 <= x < s.cols ==> #[trigger] t.grid[y][x] == if y
                    == s.cursor_y && s.cursor_x <= x < s.cursor_x + text.len() {
                    s.pen.cell(text[x - s.cursor_x])
                } else {
                    s.grid[y][x]
                }
        }),
    decreases text.len(),
{
    if text.len() > 0 {
        let t = printed(s, text.drop_last());
        lemma_printed(s, text.drop_last());
        law_print(t, text.last());
        let u = printed(s, text);
        assert forall|y: int, x: int|
            0 <= y < s.rows && 0 <= x < s.cols implies #[trigger] u.grid[y][x] == if y == s.cursor_y
            && s.cursor_x <= x < s.cursor_x + text.len() {
            s.pen.cell(text[x - s.cursor_x])
        } else {
            s.grid[y][x]
        } by {
            law_print_puts(t, text.last(), y, x);
            let v = t.grid[y][x];
        }
    }
}

/// A text that fits into the rest of the line stands there afterwards, drawn
/// with the pen, and nothing else on the screen has changed.
pub proof fn law_print_text(s: Screen, text: Seq<char>, y: int, x: int)
    requires
        s.well_formed(),
        !s.pending_wrap,
        s.cursor_x + text.len() <= s.cols,
        0 <= y < s.rows,
        0 <= x < s.cols,
    ensures
        printed(s, text).grid[y][x] == if y == s.cursor_y && s.cursor_x <= x < s.cursor_x
            + text.len() {
            s.pen.cell(text[x - s.cursor_x])
        } else {
            s.grid[y][x]
        },
{
    lemma_printed(s, text);
}

/// The character after a full line goes to the first column of the next line,
/// or of the last line when the screen scrolls.
pub proof fn law_print_wraps(s: Screen, c: char)
    requires
        s.well_formed(),
        s.pending_wrap,
    ensures
        s.print(c).grid[least(s.cursor_y + 1, s.rows - 1)][0] == s.pen.cell(c),
        s.print(c).cursor_y == least(s.cursor_y + 1, s.rows - 1),
        s.cursor_y == s.rows - 1 ==> s.print(c).scrollback == s.scrolled(1).scrollback,
{
    lemma_scrolled_keeps(s, 1);
    law_print_puts(s, c, least(s.cursor_y + 1, s.rows - 1), 0);
}

// Rendition.

/// The code 0, alone or left out, makes the pen plain.
pub proof fn law_rendition_reset(pen: Pen, fg: Color, bg: Color)
    ensures
        pen.rendition(seq![0u16], fg, bg) == Pen::plain(fg, bg),
        pen.rendition(Seq::empty(), fg, bg) == Pen::plain(fg, bg),
{
    reveal_with_fuel(Pen::selected_all, 2);
    assert(seq![0u16].skip(1) =~= Seq::empty());
}

/// No extended colour reaches from the first codes into the second ones.
pub open spec fn splits(first: Seq<u16>, second: Seq<u16>) -> bool
    decreases first.len(),
{
    first.len() == 0 || {
        &&& code_width(first + second) == code_width(first)
        &&& splits(first.skip(code_width(first)), second)
    }
}

/// Codes in one sequence do what they do in two sequences, as long as no
/// extended colour is torn apart.
pub proof fn law_rendition_parts(pen: Pen, first: Seq<u16>, second: Seq<u16>, fg: Color, bg: Color)
    requires
        splits(first, second),
    ensures
        pen.selected_all(first + second, fg, bg) == pen.selected_all(first, fg, bg).selected_all(
            second,
            fg,
            bg,
        ),
    decreases first.len(),
{
    let all = first + second;
    if first.len() == 0 {
        assert(all =~= second);
    } else {
        let width = code_width(first);
        assert(all[0] == first[0]);
        assert(pen.selected(all, fg, bg) == pen.selected(first, fg, bg));
        assert(all.skip(width) =~= first.skip(width) + second);
        law_rendition_parts(pen.selected(first, fg, bg), first.skip(width), second, fg, bg);
    }
}

/// A final code 0 undoes all codes before it, unless it is part of an extended
/// colour.
pub proof fn law_rendition_reset_last(pen: Pen, codes: Seq<u16>, fg: Color, bg: Color)
    requires
        splits(codes, seq![0u16]),
    ensures
        pen.rendition(codes.push(0), fg, bg) == Pen::plain(fg, bg),
{
    law_rendition_parts(pen, codes, seq![0u16], fg, bg);
    law_rendition_reset(pen.selected_all(codes, fg, bg), fg, bg);
    assert(codes.push(0) =~= codes + seq![0u16]);
}

// Colours.

/// The palette begins with the eight basic colours and their bright forms.
pub proof fn law_palette_basic(index: int)
    requires
        0 <= index < 16,
    ensures
        palette_color(index) == if index < 8 {
            basic_color(index, false)
        } else {
            basic_color(index - 8, true)
        },
{
}

/// The rest of the palette consists of 24 bit colours: the cube with the
/// intensities 0, 95, 135, 175, 215 and 255, and the greys in steps of ten.
pub proof fn law_palette_rest(index: int)
    requires
        16 <= index < 256,
    ensures
        index < 232 ==> palette_color(index) == true_color(
            cube_intensity((index - 16) / 36),
            cube_intensity((index - 16) / 6 % 6),
            cube_intensity((index - 16) % 6),
        ),
        index >= 232 ==> palette_color(index) == true_color(
            8 + 10 * (index - 232),
            8 + 10 * (index - 232),
            8 + 10 * (index - 232),
        ),
{
}

/// The intensity of a step of the colour cube.
pub open spec fn cube_intensity(step: int) -> int {
    if step == 0 {
        0
    } else {
        55 + 40 * step
    }
}

/// A 24 bit colour is drawn with the very intensities that it was given by.
pub proof fn law_true_color_drawn(r: u8, g: u8, b: u8)
    ensures
        rgba(true_color(r as int, g as int, b as int)) == (Rgba { r, g, b, a: 255 }),
{
}

// The frame.

/// The characters of all runs in a row.
pub open spec fn runs_text(runs: Seq<Run>) -> Seq<char>
    decreases runs.len(),
{
    if runs.len() == 0 {
        Seq::empty()
    } else {
        runs_text(runs.drop_last()) + runs.last().text
    }
}

/// The characters of a row of cells.
pub open spec fn row_text(row: Seq<Cell>) -> Seq<char> {
    Seq::new(row.len(), |x: int| row[x].ch)
}

/// The characters of a grid, with a line break after every row.
pub open spec fn grid_text(grid: Seq<Seq<Cell>>) -> Seq<char>
    decreases grid.len(),
{
    if grid.len() == 0 {
        Seq::empty()
    } else {
        (grid_text(grid.drop_last()) + row_text(grid.last())).push('\n')
    }
}

proof fn lemma_runs_text_push(runs: Seq<Run>, run: Run)
    ensures
        runs_text(runs.push(run)) == runs_text(runs) + run.text,
{
    assert(runs.push(run).drop_last() =~= runs);
}

proof fn lemma_runs_text_concat(a: Seq<Run>, b: Seq<Run>)
    ensures
        runs_text(a + b) == runs_text(a) + runs_text(b),
    decreases b.len(),
{
    if b.len() == 0 {
        assert(a + b =~= a);
        assert(runs_text(a) + runs_text(b) =~= runs_text(a));
    } else {
        lemma_runs_text_concat(a, b.drop_last());
        assert((a + b).drop_last() =~= a + b.drop_last());
        assert(runs_text(a + b) =~= runs_text(a) + runs_text(b));
    }
}

/// The runs of a row hold the characters of the row, in their order.
pub proof fn law_row_runs_text(row: Seq<Cell>, fg: Color, bg: Color)
    ensures
        runs_text(row_runs(row, fg, bg)) == row_text(row),
    decreases row.len(),
{
    if row.len() == 0 {
        assert(runs_text(row_runs(row, fg, bg)) =~= row_text(row));
    } else {
        let before = row_runs(row.drop_last(), fg, bg);
        let style = cell_style(row.last(), fg, bg);
        law_row_runs_text(row.drop_last(), fg, bg);
        assert(row_text(row) =~= row_text(row.drop_last()).push(row.last().ch));
        if before.len() > 0 && before.last().style == Some(style) {
            let run = Run { text: before.last().text.push(row.last().ch), style: Some(style) };
            lemma_runs_text_push(before.drop_last(), run);
            assert(runs_text(before) == runs_text(before.drop_last()) + before.last().text);
            assert(runs_text(before.drop_last()) + run.text =~= runs_text(before).push(
                row.last().ch,
            ));
        } else {
            lemma_runs_text_push(before, Run { text: seq![row.last().ch], style: Some(style) });
            assert(runs_text(before) + seq![row.last().ch] =~= runs_text(before).push(
                row.last().ch,
            ));
        }
    }
}

/// A printed cell is shown in the colours of the pen, and in exchanged colours
/// if the pen is reversed.
pub proof fn law_printed_colors(pen: Pen, c: char, fg: Color, bg: Color)
    ensures
        pen.reverse ==> cell_background(pen.cell(c), fg, bg) == pen.fg,
        pen.reverse ==> cell_foreground(pen.cell(c), fg, bg) == pen.bg,
        !pen.reverse ==> cell_background(pen.cell(c), fg, bg) == pen.bg,
        !pen.reverse ==> cell_foreground(pen.cell(c), fg, bg) == pen.fg,
{
}

/// Reverse video is shown: after the code 7, a character is printed at the
/// cursor and shown in the exchanged colours of the pen.
pub proof fn law_reverse_video(s: Screen, marker: Option<u8>, c: char)
    requires
        s.well_formed(),
    ensures
        ({
            let t = s.csi(seq![7u16], marker, 'm').print(c);
            let cell = t.grid[s.cursor_y][s.cursor_x];
            &&& cell.ch == c
            &&& cell_background(cell, t.fg_color, t.bg_color) == s.pen.fg
            &&& cell_foreground(cell, t.fg_color, t.bg_color) == s.pen.bg
        }),
{
    let codes = seq![7u16];
    let t = s.csi(codes, marker, 'm');
    assert(codes.skip(1) =~= Seq::empty());
    reveal_with_fuel(Pen::selected_all, 2);
    assert(t.pen == Pen { reverse: true, ..s.pen });
    law_print_puts(t, c, s.cursor_y, s.cursor_x);
    law_printed_colors(t.pen, c, s.fg_color, s.bg_color);
}

/// What a screen shows as text is what its grid holds, line by line.
pub proof fn law_picture_text(s: Screen)
    ensures
        runs_text(s.picture().runs) == grid_text(s.grid),
{
    lemma_grid_runs_text(s.grid, s.fg_color, s.bg_color);
}

proof fn lemma_grid_runs_text(grid: Seq<Seq<Cell>>, fg: Color, bg: Color)
    ensures
        runs_text(grid_runs(grid, fg, bg)) == grid_text(grid),
    decreases grid.len(),
{
    if grid.len() > 0 {
        let before = grid_runs(grid.drop_last(), fg, bg);
        let last = row_runs(grid.last(), fg, bg);
        lemma_grid_runs_text(grid.drop_last(), fg, bg);
        law_row_runs_text(grid.last(), fg, bg);
        lemma_runs_text_concat(before, last);
        lemma_runs_text_push(before + last, line_break());
        assert(runs_text(grid_runs(grid, fg, bg)) =~= grid_text(grid));
    }
}

/// Runs are as long as can be: two neighbours in a row differ in style. And no
/// run is empty.
pub proof fn law_row_runs_maximal(row: Seq<Cell>, fg: Color, bg: Color, i: int)
    requires
        0 <= i < row_runs(row, fg, bg).len(),
    ensures
        row_runs(row, fg, bg)[i].text.len() > 0,
        i > 0 ==> row_runs(row, fg, bg)[i].style != row_runs(row, fg, bg)[i - 1].style,
    decreases row.len(),
{
    if row.len() > 0 {
        let before = row_runs(row.drop_last(), fg, bg);
        if i < before.len() {
            law_row_runs_maximal(row.drop_last(), fg, bg, i);
        }
    }
}

proof fn lemma_blank_row_quads(cols: int, y: int, fg: Color, bg: Color)
    requires
        cols >= 0,
    ensures
        row_quads(blank_cells(cols), y, fg, bg) == Seq::<Corner>::empty(),
    decreases cols,
{
    if cols > 0 {
        assert(blank_cells(cols).drop_last() =~= blank_cells(cols - 1));
        lemma_blank_row_quads(cols - 1, y, fg, bg);
    }
}

proof fn lemma_blank_grid_quads(rows: int, cols: int, fg: Color, bg: Color)
    requires
        cols >= 0,
        rows >= 0,
    ensures
        grid_quads(blank_rows(rows, cols), fg, bg) == Seq::<Corner>::empty(),
    decreases rows,
{
    if rows > 0 {
        assert(blank_rows(rows, cols).drop_last() =~= blank_rows(rows - 1, cols));
        lemma_blank_row_quads(cols, rows - 1, fg, bg);
        lemma_blank_grid_quads(rows - 1, cols, fg, bg);
    }
}

/// A blank screen shows no rectangle but that of the cursor.
pub proof fn law_blank_picture(s: Screen, rows: int, cols: int)
    requires
        rows >= 0,
        cols >= 0,
        s.grid == blank_rows(rows, cols),
    ensures
        s.picture().corners == if s.cursor_visible {
            quad(s.cursor_x, s.cursor_y, cursor_color())
        } else {
            Seq::<Corner>::empty()
        },
{
    lemma_blank_grid_quads(rows, cols, s.fg_color, s.bg_color);
    assert(Seq::<Corner>::empty() + quad(s.cursor_x, s.cursor_y, cursor_color()) =~= quad(
        s.cursor_x,
        s.cursor_y,
        cursor_color(),
    ));
}

/// A screen that was just drawn is not drawn again before something changes.
pub proof fn law_drawn_once(s: Screen)
    ensures
        !s.drawn().dirty,
        s.drawn().picture() == s.picture(),
{
}

// Numbers.

proof fn lemma_decimal(n: nat)
    ensures
        decimal(n).len() > 0,
        forall|i: int| 0 <= i < decimal(n).len() ==> is_digit(#[trigger] decimal(n)[i]),
        digits_value(decimal(n)) == n,
    decreases n,
{
    if n < 10 {
        reveal_with_fuel(digits_value, 2);
        assert(decimal(n).drop_last() =~= Seq::empty());
    } else {
        lemma_decimal(n / 10);
        assert(decimal(n).drop_last() =~= decimal(n / 10));
    }
}

/// The digits of a number stand for that number.
pub proof fn law_decimal_value(n: nat)
    ensures
        digits_value(decimal(n)) == n,
{
    lemma_decimal(n);
}

/// The digits of a number of sixteen bits are the number of a command.
pub proof fn law_command_number(n: nat)
    requires
        n <= 65535,
    ensures
        command_number(decimal(n)) == n,
{
    lemma_decimal(n);
    assert(is_digit(decimal(n)[0]));
}

// The working directory.

proof fn lemma_from_slash(host: Seq<u8>, path: Seq<u8>)
    requires
        path.len() > 0,
        path[0] == 0x2f,
        !host.contains(0x2f),
    ensures
        from_slash(host + path) == Some(path),
    decreases host.len(),
{
    if host.len() == 0 {
        assert(host + path =~= path);
    } else {
        let rest = host.skip(1);
        assert(host[0] != 0x2f) by {
            assert(host.contains(host[0]));
        }
        assert(!rest.contains(0x2f)) by {
            if rest.contains(0x2f) {
                let i = choose|i: int| 0 <= i < rest.len() && rest[i] == 0x2f;
                assert(host[i + 1] == 0x2f);
            }
        }
        lemma_from_slash(rest, path);
        assert((host + path).skip(1) =~= rest + path);
    }
}

proof fn lemma_plain_bytes(bytes: Seq<u8>)
    requires
        !bytes.contains(0x25),
    ensures
        percent_decoded(bytes) == bytes,
    decreases bytes.len(),
{
    if bytes.len() > 0 {
        let rest = bytes.skip(1);
        assert(bytes.contains(bytes[0]));
        assert(!rest.contains(0x25)) by {
            if rest.contains(0x25) {
                let i = choose|i: int| 0 <= i < rest.len() && rest[i] == 0x25;
                assert(bytes[i + 1] == 0x25);
            }
        }
        lemma_plain_bytes(rest);
        assert(seq![bytes[0]] + rest =~= bytes);
    } else {
        assert(bytes =~= Seq::empty());
    }
}

/// The bytes, each written as a percent sign and two hexadecimal digits.
pub open spec fn percent_encoded(bytes: Seq<u8>) -> Seq<u8>
    decreases bytes.len(),
{
    if bytes.len() == 0 {
        Seq::empty()
    } else {
        seq![0x25u8, hex_digit(bytes[0] as int / 16), hex_digit(bytes[0] as int % 16)]
            + percent_encoded(bytes.skip(1))
    }
}

/// Decoding undoes encoding, and leaves bytes without a percent sign as they
/// are.
pub proof fn law_percent_round_trip(bytes: Seq<u8>)
    ensures
        percent_decoded(percent_encoded(bytes)) == bytes,
        !bytes.contains(0x25) ==> percent_decoded(bytes) == bytes,
    decreases bytes.len(),
{
    if bytes.len() > 0 {
        let rest = bytes.skip(1);
        law_percent_round_trip(rest);
        let all = percent_encoded(bytes);
        assert(all.skip(3) =~= percent_encoded(rest));
        assert(percent_decoded(all) =~= seq![bytes[0]] + rest);
        assert(seq![bytes[0]] + rest =~= bytes);
    } else {
        assert(bytes =~= Seq::empty());
    }
    if !bytes.contains(0x25) {
        lemma_plain_bytes(bytes);
    }
}

/// A shell that reports a directory as a URL has it tracked: whatever the host
/// is called, the directory is the path, decoded. Where the path has
/// semicolons, at which the parser takes it apart, they are put back.
pub proof fn law_directory_tracked(
    s: Screen,
    number: Seq<u8>,
    host: Seq<u8>,
    path: Seq<u8>,
    parts: Seq<Seq<u8>>,
)
    requires
        command_number(number) == 7,
        !host.contains(0x2f),
        path.len() > 0,
        path[0] == 0x2f,
        rejoined(parts) == file_scheme() + host + path,
    ensures
        s.osc(seq![number] + parts).working_directory == Some(percent_decoded(path)),
        s.osc(seq![number] + parts) == s.osc(seq![number, file_scheme() + host + path]),
{
    let url = file_scheme() + host + path;
    let whole = seq![number] + parts;
    assert(whole.skip(1) =~= parts);
    assert(seq![number, url].skip(1) =~= seq![url]);
    assert(file_scheme() =~= url.subrange(0, 7));
    assert(url.skip(7) =~= host + path);
    lemma_from_slash(host, path);
}

} // verus!
