//! Control sequences: cursor motion, erasing, editing, rendition, modes, and
//! queries.

use crate::bounds::{greatest, least, smaller};
use crate::cell::Pen;
use crate::erase::{Area, Region};
use crate::grid::{
    cells_deleted, cells_inserted, delete_cells, delete_lines, grid_truncated, insert_cells,
    insert_lines, lines_deleted, lines_inserted, truncate_grid,
};
use crate::model::{law_scrolled_twice, Screen};
use crate::reply::{
    addressed, attributes_reply, cursor_report, primary_attributes, secondary_attributes,
    write_view, PtyWrite,
};
use crate::terminal::TerminalState;
use vstd::prelude::*;

verus! {

/// The parameter list of a control sequence, as the parser collects it.
#[verifier::external_type_specification]
#[verifier::external_body]
pub struct ExParams(vte::Params);

/// What a parameter list holds: the parameters in their order, each with its
/// subparameters.
pub uninterp spec fn params_groups(params: vte::Params) -> Seq<Seq<u16>>;

/// The contents of vectors of numbers.
pub open spec fn groups_view(groups: Seq<Vec<u16>>) -> Seq<Seq<u16>> {
    Seq::new(groups.len(), |i: int| groups[i]@)
}

/// The first number of every parameter that has one.
pub open spec fn leading_values(groups: Seq<Seq<u16>>) -> Seq<u16>
    decreases groups.len(),
{
    if groups.len() == 0 {
        Seq::empty()
    } else if groups.last().len() == 0 {
        leading_values(groups.drop_last())
    } else {
        leading_values(groups.drop_last()).push(groups.last()[0])
    }
}

/// The parameter at `i`, or `default` where there is none.
pub open spec fn param(p: Seq<u16>, i: int, default: int) -> int {
    if 0 <= i < p.len() {
        p[i] as int
    } else {
        default
    }
}

/// The parameter at `i` as a count or a position from one: at least one.
pub open spec fn count(p: Seq<u16>, i: int) -> int {
    greatest(param(p, i, 1), 1)
}

/// The first byte of a sequence.
pub open spec fn first_byte(bytes: Seq<u8>) -> Option<u8> {
    if bytes.len() > 0 {
        Some(bytes[0])
    } else {
        None
    }
}

impl Screen {
    /// The screen at the start of a control sequence: no wrap is due any more,
    /// and the screen has to be drawn anew.
    pub open spec fn csi_started(self) -> Screen {
        Screen { dirty: true, pending_wrap: false, ..self }
    }

    /// The screen with the cursor in column `x` and row `y`.
    pub open spec fn at(self, x: int, y: int) -> Screen {
        Screen { cursor_x: x, cursor_y: y, ..self }
    }

    /// The last column.
    pub open spec fn last_col(self) -> int {
        greatest(self.cols - 1, 0)
    }

    /// The last row.
    pub open spec fn last_row(self) -> int {
        greatest(self.rows - 1, 0)
    }

    /// The column and the row that a cursor motion leads to.
    pub open spec fn motion(self, p: Seq<u16>, command: char) -> Option<(int, int)> {
        let n = count(p, 0);
        match command {
            'A' => Some((self.cursor_x, greatest(self.cursor_y - n, 0))),
            'B' => Some((self.cursor_x, least(self.cursor_y + n, self.last_row()))),
            'C' => Some((least(self.cursor_x + n, self.last_col()), self.cursor_y)),
            'D' => Some((greatest(self.cursor_x - n, 0), self.cursor_y)),
            'E' => Some((0, least(self.cursor_y + n, self.last_row()))),
            'F' => Some((0, greatest(self.cursor_y - n, 0))),
            'G' => Some((least(n - 1, self.last_col()), self.cursor_y)),
            'H' => Some((least(count(p, 1) - 1, self.last_col()), least(n - 1, self.last_row()))),
            'f' => Some((least(count(p, 1) - 1, self.last_col()), least(n - 1, self.last_row()))),
            'd' => Some((self.cursor_x, least(n - 1, self.last_row()))),
            'u' => Some((self.saved_cursor_x, self.saved_cursor_y)),
            _ => None,
        }
    }

    /// The area that an erase function makes blank.
    pub open spec fn area(self, display: bool, mode: int) -> Region {
        Region {
            display,
            mode,
            cursor_x: self.cursor_x,
            cursor_y: self.cursor_y,
            cols: self.cols,
            rows: self.rows,
        }
    }

    /// Part of the display is erased. Erasing all of it moves the cursor home.
    pub open spec fn display_erased(self, mode: int) -> Screen {
        let grid = self.area(true, mode).erased(self.grid);
        if mode == 2 || mode == 3 {
            Screen { grid, cursor_x: 0, cursor_y: 0, ..self }
        } else {
            Screen { grid, ..self }
        }
    }

    /// Part of the cursor's line is erased.
    pub open spec fn line_erased(self, mode: int) -> Screen {
        Screen { grid: self.area(false, mode).erased(self.grid), ..self }
    }

    /// `n` blank lines are inserted at the cursor's line.
    pub open spec fn with_lines(self, n: int) -> Screen {
        Screen {
            grid: grid_truncated(
                lines_inserted(self.grid, self.cursor_y, n, self.cols),
                self.rows,
            ),
            ..self
        }
    }

    /// `n` lines are deleted from the cursor's line on.
    pub open spec fn without_lines(self, n: int) -> Screen {
        let grid = if self.cursor_y < self.grid.len() {
            lines_deleted(self.grid, self.cursor_y, n, self.cols)
        } else {
            self.grid
        };
        Screen { grid: grid_truncated(grid, self.rows), ..self }
    }

    /// `n` blank cells are inserted at the cursor.
    pub open spec fn with_cells(self, n: int) -> Screen {
        Screen {
            grid: self.grid.update(
                self.cursor_y,
                cells_inserted(self.grid[self.cursor_y], self.cursor_x, n, self.cols),
            ),
            ..self
        }
    }

    /// `n` cells are deleted from the cursor on.
    pub open spec fn without_cells(self, n: int) -> Screen {
        Screen {
            grid: self.grid.update(
                self.cursor_y,
                cells_deleted(self.grid[self.cursor_y], self.cursor_x, n),
            ),
            ..self
        }
    }

    /// The rendition of what is printed from now on changes.
    pub open spec fn rendered(self, codes: Seq<u16>) -> Screen {
        Screen { pen: self.pen.rendition(codes, self.fg_color, self.bg_color), ..self }
    }

    /// A private mode is set or reset.
    pub open spec fn with_mode(self, mode: int, enable: bool) -> Screen {
        if mode == 25 {
            Screen { cursor_visible: enable, ..self }
        } else if mode == 1004 {
            Screen { focus_reporting: enable, ..self }
        } else if mode == 1049 {
            if enable {
                self.alt_entered()
            } else {
                self.alt_exited()
            }
        } else if mode == 2004 {
            Screen { bracketed_paste: enable, ..self }
        } else {
            self
        }
    }

    /// Private modes are set or reset, one after the other.
    pub open spec fn with_modes(self, modes: Seq<u16>, enable: bool) -> Screen
        decreases modes.len(),
    {
        if modes.len() == 0 {
            self
        } else {
            self.with_modes(modes.drop_last(), enable).with_mode(modes.last() as int, enable)
        }
    }

    /// The position of the cursor is saved.
    pub open spec fn cursor_saved(self) -> Screen {
        Screen { saved_cursor_x: self.cursor_x, saved_cursor_y: self.cursor_y, ..self }
    }

    /// The effect of a control sequence, once it has started.
    pub open spec fn csi_effect(self, p: Seq<u16>, marker: Option<u8>, command: char) -> Screen {
        match command {
            'J' => self.display_erased(param(p, 0, 0)),
            'K' => self.line_erased(param(p, 0, 0)),
            'L' => self.with_lines(count(p, 0)),
            'M' => self.without_lines(count(p, 0)),
            'P' => self.without_cells(count(p, 0)),
            '@' => self.with_cells(count(p, 0)),
            'S' => self.scrolled(count(p, 0)),
            'm' => self.rendered(p),
            'h' => if marker == Some(0x3fu8) {
                self.with_modes(p, true)
            } else {
                self
            },
            'l' => if marker == Some(0x3fu8) {
                self.with_modes(p, false)
            } else {
                self
            },
            's' => self.cursor_saved(),
            _ => match self.motion(p, command) {
                Some((x, y)) => self.at(x, y),
                None => self,
            },
        }
    }

    /// A control sequence is carried out. `marker` is its first intermediate
    /// byte.
    pub open spec fn csi(self, p: Seq<u16>, marker: Option<u8>, command: char) -> Screen {
        self.csi_started().csi_effect(p, marker, command)
    }

    /// A control sequence can be carried out: the grid has what the sequence
    /// works on.
    pub open spec fn csi_defined(self, p: Seq<u16>, command: char) -> bool {
        match command {
            'J' => self.area(true, param(p, 0, 0)).fits(self.grid),
            'K' => self.area(false, param(p, 0, 0)).fits(self.grid),
            'L' => self.cursor_y < greatest(self.grid.len() as int, 1),
            'P' => self.cursor_y < self.grid.len(),
            '@' => self.cursor_y < self.grid.len(),
            _ => true,
        }
    }

    /// The reply to a control sequence: device attributes or the position of
    /// the cursor.
    pub open spec fn csi_reply(self, p: Seq<u16>, marker: Option<u8>, command: char) -> Option<
        Seq<u8>,
    > {
        if marker == Some(0x3fu8) {
            None
        } else if command == 'c' {
            Some(
                if marker == Some(0x3eu8) {
                    secondary_attributes()
                } else {
                    primary_attributes()
                },
            )
        } else if command == 'n' && param(p, 0, 0) == 6 {
            Some(cursor_report(self.cursor_x, self.cursor_y))
        } else {
            None
        }
    }
}

/// Copies the parameters out of a list. It calls `vte::Params::iter`, which
/// hands the parameters out in their order, each as the slice of its
/// subparameters; the contract claims that the copy holds just that.
#[verifier::external_body]
pub(crate) fn copy_params(params: &vte::Params) -> (groups: Vec<Vec<u16>>)
    ensures
        groups_view(groups@) == params_groups(*params),
{
    params.iter().map(|group| group.to_vec()).collect()
}

/// The first number of every parameter that has one.
pub fn first_values(groups: &Vec<Vec<u16>>) -> (values: Vec<u16>)
    ensures
        values@ == leading_values(groups_view(groups@)),
{
    let ghost all = groups_view(groups@);
    let mut values: Vec<u16> = Vec::new();
    for i in 0..groups.len()
        invariant
            all == groups_view(groups@),
            values@ == leading_values(all.take(i as int)),
    {
        assert(all.take(i + 1).drop_last() =~= all.take(i as int));
        assert(all.take(i + 1).last() == groups@[i as int]@);
        if groups[i].len() > 0 {
            values.push(groups[i][0]);
        }
    }
    assert(all.take(all.len() as int) =~= all);
    values
}

fn param_at(p: &[u16], i: usize, default: u16) -> (v: u16)
    ensures
        v == param(p@, i as int, default as int),
{
    if i < p.len() {
        p[i]
    } else {
        default
    }
}

fn count_at(p: &[u16], i: usize) -> (n: usize)
    ensures
        n == count(p@, i as int),
{
    let v: u16 = param_at(p, i, 1);
    if v == 0 {
        1
    } else {
        v as usize
    }
}

fn first_of(bytes: &[u8]) -> (b: Option<u8>)
    ensures
        b == first_byte(bytes@),
{
    if bytes.len() > 0 {
        Some(bytes[0])
    } else {
        None
    }
}

impl TerminalState {
    fn start_csi(&mut self)
        ensures
            final(self)@ == old(self)@.csi_started(),
    {
        self.dirty = true;
        self.pending_wrap = false;
    }

    fn move_to(&mut self, x: usize, y: usize)
        ensures
            final(self)@ == old(self)@.at(x as int, y as int),
    {
        self.cursor_x = x;
        self.cursor_y = y;
    }

    /// The column and the row that a cursor motion leads to.
    fn motion_target(&self, p: &[u16], command: char) -> (target: Option<(usize, usize)>)
        ensures
            match target {
                Some((x, y)) => self@.motion(p@, command) == Some((x as int, y as int)),
                None => self@.motion(p@, command) is None,
            },
    {
        let n: usize = count_at(p, 0);
        let x: usize = self.cursor_x;
        let y: usize = self.cursor_y;
        let last_col: usize = self.cols.saturating_sub(1);
        let last_row: usize = self.rows.saturating_sub(1);
        let up: usize = y.saturating_sub(n);
        let down: usize = smaller(y.saturating_add(n), last_row);
        let left: usize = x.saturating_sub(n);
        let right: usize = smaller(x.saturating_add(n), last_col);
        match command {
            'A' => Some((x, up)),
            'B' => Some((x, down)),
            'C' => Some((right, y)),
            'D' => Some((left, y)),
            'E' => Some((0, down)),
            'F' => Some((0, up)),
            'G' => Some((smaller(n - 1, last_col), y)),
            'H' | 'f' => {
                let col: usize = count_at(p, 1);
                Some((smaller(col - 1, last_col), smaller(n - 1, last_row)))
            },
            'd' => Some((x, smaller(n - 1, last_row))),
            'u' => Some((self.saved_cursor_x, self.saved_cursor_y)),
            _ => None,
        }
    }

    fn erase_area(&self, display: bool, mode: u16) -> (area: Area)
        ensures
            area@ == self@.area(display, mode as int),
    {
        Area {
            display,
            mode,
            cursor_x: self.cursor_x,
            cursor_y: self.cursor_y,
            cols: self.cols,
            rows: self.rows,
        }
    }

    fn erase(&mut self, display: bool, mode: u16)
        requires
            old(self)@.area(display, mode as int).fits(old(self)@.grid),
        ensures
            final(self)@ == (Screen {
                grid: old(self)@.area(display, mode as int).erased(old(self)@.grid),
                ..old(self)@
            }),
    {
        let area: Area = self.erase_area(display, mode);
        area.erase(&mut self.grid);
    }

    fn erase_display(&mut self, mode: u16)
        requires
            old(self)@.area(true, mode as int).fits(old(self)@.grid),
        ensures
            final(self)@ == old(self)@.display_erased(mode as int),
    {
        self.erase(true, mode);
        if mode == 2 || mode == 3 {
            self.move_to(0, 0);
        }
    }

    fn insert_lines(&mut self, n: usize)
        requires
            old(self).cursor_y < greatest(old(self)@.grid.len() as int, 1),
            n > 0,
        ensures
            final(self)@ == old(self)@.with_lines(n as int),
    {
        insert_lines(&mut self.grid, self.cursor_y, n, self.cols);
        truncate_grid(&mut self.grid, self.rows);
    }

    fn delete_lines(&mut self, n: usize)
        ensures
            final(self)@ == old(self)@.without_lines(n as int),
    {
        if self.cursor_y < self.grid.len() {
            delete_lines(&mut self.grid, self.cursor_y, n, self.cols);
        }
        truncate_grid(&mut self.grid, self.rows);
    }

    fn insert_cells(&mut self, n: usize)
        requires
            old(self).cursor_y < old(self)@.grid.len(),
            n > 0,
        ensures
            final(self)@ == old(self)@.with_cells(n as int),
    {
        let y: usize = self.cursor_y;
        insert_cells(&mut self.grid[y], self.cursor_x, n, self.cols);
        assert(self@.grid =~= old(self)@.with_cells(n as int).grid);
    }

    fn delete_cells(&mut self, n: usize)
        requires
            old(self).cursor_y < old(self)@.grid.len(),
        ensures
            final(self)@ == old(self)@.without_cells(n as int),
    {
        let y: usize = self.cursor_y;
        delete_cells(&mut self.grid[y], self.cursor_x, n);
        assert(self@.grid =~= old(self)@.without_cells(n as int).grid);
    }

    fn scroll_lines(&mut self, n: usize)
        ensures
            final(self)@ == old(self)@.scrolled(n as int),
    {
        proof {
            reveal(Screen::scrolled);
        }
        for k in 0..n
            invariant
                self@ == old(self)@.scrolled(k as int),
        {
            proof {
                law_scrolled_twice(old(self)@, k as int, 1);
            }
            self.scroll_up();
        }
    }

    fn pen(&self) -> (pen: Pen)
        ensures
            pen == self@.pen,
    {
        Pen {
            fg: self.current_fg,
            bg: self.current_bg,
            bold: self.bold,
            dim: self.dim,
            italic: self.italic,
            underline: self.underline,
            strikethrough: self.strikethrough,
            reverse: self.reverse,
        }
    }

    fn set_pen(&mut self, pen: Pen)
        ensures
            final(self)@ == (Screen { pen, ..old(self)@ }),
    {
        self.current_fg = pen.fg;
        self.current_bg = pen.bg;
        self.bold = pen.bold;
        self.dim = pen.dim;
        self.italic = pen.italic;
        self.underline = pen.underline;
        self.strikethrough = pen.strikethrough;
        self.reverse = pen.reverse;
    }

    fn render(&mut self, codes: &[u16])
        ensures
            final(self)@ == old(self)@.rendered(codes@),
    {
        let pen: Pen = self.pen().render(codes, self.fg_color, self.bg_color);
        self.set_pen(pen);
    }

    fn show_cursor(&mut self, enable: bool)
        ensures
            final(self)@ == (Screen { cursor_visible: enable, ..old(self)@ }),
    {
        self.cursor_visible = enable;
    }

    fn report_focus(&mut self, enable: bool)
        ensures
            final(self)@ == (Screen { focus_reporting: enable, ..old(self)@ }),
    {
        self.focus_reporting = enable;
    }

    fn bracket_paste(&mut self, enable: bool)
        ensures
            final(self)@ == (Screen { bracketed_paste: enable, ..old(self)@ }),
    {
        self.bracketed_paste = enable;
    }

    fn switch_alt_screen(&mut self, enable: bool)
        ensures
            final(self)@ == if enable {
                old(self)@.alt_entered()
            } else {
                old(self)@.alt_exited()
            },
    {
        if enable {
            self.enter_alt_screen();
        } else {
            self.exit_alt_screen();
        }
    }

    fn set_mode(&mut self, mode: u16, enable: bool)
        ensures
            final(self)@ == old(self)@.with_mode(mode as int, enable),
    {
        match mode {
            25 => self.show_cursor(enable),
            1004 => self.report_focus(enable),
            1049 => self.switch_alt_screen(enable),
            2004 => self.bracket_paste(enable),
            _ => {},
        }
    }

    fn set_modes(&mut self, modes: &[u16], enable: bool)
        ensures
            final(self)@ == old(self)@.with_modes(modes@, enable),
    {
        for i in 0..modes.len()
            invariant
                self@ == old(self)@.with_modes(modes@.take(i as int), enable),
        {
            assert(modes@.take(i + 1).drop_last() =~= modes@.take(i as int));
            self.set_mode(modes[i], enable);
        }
        assert(modes@.take(modes@.len() as int) =~= modes@);
    }

    fn save_cursor(&mut self)
        ensures
            final(self)@ == old(self)@.cursor_saved(),
    {
        self.saved_cursor_x = self.cursor_x;
        self.saved_cursor_y = self.cursor_y;
    }

    fn carry_out(&mut self, p: &[u16], marker: Option<u8>, command: char)
        requires
            old(self)@.csi_defined(p@, command),
        ensures
            final(self)@ == old(self)@.csi_effect(p@, marker, command),
    {
        match command {
            'J' => self.erase_display(param_at(p, 0, 0)),
            'K' => self.erase(false, param_at(p, 0, 0)),
            'L' => self.insert_lines(count_at(p, 0)),
            'M' => self.delete_lines(count_at(p, 0)),
            'P' => self.delete_cells(count_at(p, 0)),
            '@' => self.insert_cells(count_at(p, 0)),
            'S' => self.scroll_lines(count_at(p, 0)),
            'm' => self.render(p),
            'h' => {
                if is_private(marker) {
                    self.set_modes(p, true);
                }
            },
            'l' => {
                if is_private(marker) {
                    self.set_modes(p, false);
                }
            },
            's' => self.save_cursor(),
            _ => match self.motion_target(p, command) {
                Some((x, y)) => self.move_to(x, y),
                None => {},
            },
        }
    }

    /// What is to be written in reply to a control sequence.
    fn csi_answer(&self, p: &[u16], marker: Option<u8>, command: char) -> (w: Option<PtyWrite>)
        ensures
            write_view(w) == addressed(self.pty_fd, self@.csi_reply(p@, marker, command)),
    {
        if is_private(marker) {
            None
        } else if command == 'c' {
            let response: Vec<u8> = attributes_reply(is_secondary(marker));
            self.write_pty(response.as_slice())
        } else if command == 'n' && param_at(p, 0, 0) == 6 {
            self.send_cursor_position()
        } else {
            None
        }
    }

    /// Carries a control sequence with the given parameters out. The result is
    /// what is to be written in reply.
    pub fn csi_dispatch(&mut self, p: &[u16], intermediates: &[u8], command: char) -> (w: Option<
        PtyWrite,
    >)
        requires
            old(self)@.csi_defined(p@, command),
        ensures
            final(self)@ == old(self)@.csi(p@, first_byte(intermediates@), command),
            write_view(w) == addressed(
                old(self).pty_fd,
                old(self)@.csi_reply(p@, first_byte(intermediates@), command),
            ),
    {
        let marker: Option<u8> = first_of(intermediates);
        let w: Option<PtyWrite> = self.csi_answer(p, marker, command);
        self.start_csi();
        self.carry_out(p, marker, command);
        w
    }

    /// Whether a control sequence can be carried out in this state.
    pub fn accepts_csi(&self, p: &[u16], command: char) -> (ok: bool)
        ensures
            ok == self@.csi_defined(p@, command),
    {
        match command {
            'J' => self.erase_area(true, param_at(p, 0, 0)).accepts(&self.grid),
            'K' => self.erase_area(false, param_at(p, 0, 0)).accepts(&self.grid),
            'L' => self.cursor_y == 0 || self.cursor_y < self.grid.len(),
            'P' | '@' => self.cursor_y < self.grid.len(),
            _ => true,
        }
    }

    /// Carries a control sequence out, as the parser hands it over. The result
    /// is what is to be written in reply.
    pub fn perform_csi_dispatch(
        &mut self,
        params: &vte::Params,
        intermediates: &[u8],
        _ignore: bool,
        command: char,
    ) -> (w: Option<PtyWrite>)
        requires
            old(self)@.csi_defined(leading_values(params_groups(*params)), command),
        ensures
            final(self)@ == old(self)@.csi(
                leading_values(params_groups(*params)),
                first_byte(intermediates@),
                command,
            ),
            write_view(w) == addressed(
                old(self).pty_fd,
                old(self)@.csi_reply(
                    leading_values(params_groups(*params)),
                    first_byte(intermediates@),
                    command,
                ),
            ),
    {
        let p: Vec<u16> = first_values(&copy_params(params));
        self.csi_dispatch(p.as_slice(), intermediates, command)
    }

    /// Carries a control sequence out if the grid has what it works on;
    /// otherwise nothing changes and the result is `None`.
    pub fn try_csi_dispatch(
        &mut self,
        params: &vte::Params,
        intermediates: &[u8],
        ignore: bool,
        command: char,
    ) -> (done: Option<Option<PtyWrite>>)
        ensures
            done is Some <==> old(self)@.csi_defined(
                leading_values(params_groups(*params)),
                command,
            ),
            match done {
                Some(w) => {
                    &&& final(self)@ == old(self)@.csi(
                        leading_values(params_groups(*params)),
                        first_byte(intermediates@),
                        command,
                    )
                    &&& write_view(w) == addressed(
                        old(self).pty_fd,
                        old(self)@.csi_reply(
                            leading_values(params_groups(*params)),
                            first_byte(intermediates@),
                            command,
                        ),
                    )
                },
                None => final(self)@ == old(self)@,
            },
    {
        let p: Vec<u16> = first_values(&copy_params(params));
        if self.accepts_csi(p.as_slice(), command) {
            Some(self.perform_csi_dispatch(params, intermediates, ignore, command))
        } else {
            None
        }
    }
}

fn is_private(marker: Option<u8>) -> (yes: bool)
    ensures
        yes == (marker == Some(0x3fu8)),
{
    match marker {
        Some(b) => b == 0x3f,
        None => false,
    }
}

fn is_secondary(marker: Option<u8>) -> (yes: bool)
    ensures
        yes == (marker == Some(0x3eu8)),
{
    match marker {
        Some(b) => b == 0x3e,
        None => false,
    }
}

} // verus!
