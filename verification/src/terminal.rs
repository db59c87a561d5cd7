//! The state of the terminal and the operations that change it.

use crate::bounds::{least, smaller};
use crate::cell::{Cell, Pen};
use crate::color::{palette_color, xterm_color, Color};
use crate::grid::{
    blank_grid, blank_row, blank_rows, copy_grid, erase_grid, grid_view, in_grid, with_cell,
};
use crate::model::{grid_resized, history, lemma_scrolled_keeps, Screen};
use crate::reply::{
    addressed, color_reply, color_report, cursor_reply, cursor_report, push_all, write_view,
    PtyWrite, WindowSize,
};
use vstd::prelude::*;

verus! {

/// A terminal: the grid that is shown, the cursor, the pen, the history, and
/// the modes. Font and cell sizes are in tenths of a pixel.
pub struct TerminalState {
    pub grid: Vec<Vec<Cell>>,
    pub cursor_x: usize,
    pub cursor_y: usize,
    pub cols: usize,
    pub rows: usize,
    pub fg_color: Color,
    pub bg_color: Color,
    pub font_size: u32,
    pub char_width: u32,
    pub char_height: u32,
    pub pixel_width: u32,
    pub pixel_height: u32,
    pub pty_fd: Option<i32>,
    pub saved_cursor_x: usize,
    pub saved_cursor_y: usize,
    pub current_fg: Color,
    pub current_bg: Color,
    pub bold: bool,
    pub dim: bool,
    pub italic: bool,
    pub underline: bool,
    pub strikethrough: bool,
    pub reverse: bool,
    pub scrollback: Vec<Vec<Cell>>,
    pub scrollback_limit: usize,
    pub scroll_offset: usize,
    pub pty_master_fd: Option<i32>,
    pub alt_screen: Option<(Vec<Vec<Cell>>, usize, usize)>,
    pub cursor_visible: bool,
    pub pending_wrap: bool,
    pub bracketed_paste: bool,
    pub focus_reporting: bool,
    /// The working directory that the shell reported last, as a path.
    pub working_directory: Option<Vec<u8>>,
    pub dirty: bool,
}

/// A screen that was put aside, as a value.
pub open spec fn alt_view(alt: Option<(Vec<Vec<Cell>>, usize, usize)>) -> Option<
    (Seq<Seq<Cell>>, int, int),
> {
    match alt {
        Some((grid, x, y)) => Some((grid_view(grid@), x as int, y as int)),
        None => None,
    }
}

/// Optional bytes, as a value.
pub open spec fn bytes_view(bytes: Option<Vec<u8>>) -> Option<Seq<u8>> {
    match bytes {
        Some(bytes) => Some(bytes@),
        None => None,
    }
}

impl View for TerminalState {
    type V = Screen;

    open spec fn view(&self) -> Screen {
        Screen {
            grid: grid_view(self.grid@),
            cursor_x: self.cursor_x as int,
            cursor_y: self.cursor_y as int,
            cols: self.cols as int,
            rows: self.rows as int,
            fg_color: self.fg_color,
            bg_color: self.bg_color,
            font_size: self.font_size as int,
            char_width: self.char_width as int,
            char_height: self.char_height as int,
            pixel_width: self.pixel_width as int,
            pixel_height: self.pixel_height as int,
            pty_fd: self.pty_fd,
            saved_cursor_x: self.saved_cursor_x as int,
            saved_cursor_y: self.saved_cursor_y as int,
            pen: Pen {
                fg: self.current_fg,
                bg: self.current_bg,
                bold: self.bold,
                dim: self.dim,
                italic: self.italic,
                underline: self.underline,
                strikethrough: self.strikethrough,
                reverse: self.reverse,
            },
            scrollback: grid_view(self.scrollback@),
            scrollback_limit: self.scrollback_limit as int,
            scroll_offset: self.scroll_offset as int,
            pty_master_fd: self.pty_master_fd,
            alt_screen: alt_view(self.alt_screen),
            cursor_visible: self.cursor_visible,
            pending_wrap: self.pending_wrap,
            bracketed_paste: self.bracketed_paste,
            focus_reporting: self.focus_reporting,
            working_directory: bytes_view(self.working_directory),
            dirty: self.dirty,
        }
    }
}

/// Adds a row to a history of at most `limit` rows.
fn push_history(rows: &mut Vec<Vec<Cell>>, row: Vec<Cell>, limit: usize)
    ensures
        grid_view(final(rows)@) == history(grid_view(old(rows)@), seq![row@], limit as int),
{
    rows.push(row);
    if rows.len() > limit {
        rows.remove(0);
    }
    assert(grid_view(rows@) =~= history(grid_view(old(rows)@), seq![row@], limit as int));
}

impl TerminalState {
    /// A terminal of `cols` columns and `rows` rows with nothing on it.
    pub fn new(cols: usize, rows: usize) -> (state: Self)
        ensures
            state@ == Screen::initial(cols as int, rows as int),
    {
        let fg: Color = Color::foreground();
        let bg: Color = Color::background();
        let state = Self {
            grid: blank_grid(cols, rows),
            cursor_x: 0,
            cursor_y: 0,
            cols,
            rows,
            fg_color: fg,
            bg_color: bg,
            font_size: 160,
            char_width: 96,
            char_height: 200,
            pixel_width: 800,
            pixel_height: 600,
            pty_fd: None,
            saved_cursor_x: 0,
            saved_cursor_y: 0,
            current_fg: fg,
            current_bg: bg,
            bold: false,
            dim: false,
            italic: false,
            underline: false,
            strikethrough: false,
            reverse: false,
            scrollback: Vec::new(),
            scrollback_limit: 10000,
            scroll_offset: 0,
            pty_master_fd: None,
            alt_screen: None,
            cursor_visible: true,
            pending_wrap: false,
            bracketed_paste: false,
            focus_reporting: false,
            working_directory: None,
            dirty: true,
        };
        assert(state@.scrollback =~= Seq::<Seq<Cell>>::empty());
        assert(state@ == Screen::initial(cols as int, rows as int));
        state
    }

    /// Changes the size of the screen. The result is the size to set on the
    /// pseudo-terminal, if the size changed and there is one.
    pub fn resize(&mut self, cols: usize, rows: usize) -> (size: Option<WindowSize>)
        requires
            old(self)@.resize_defined(cols as int, rows as int),
        ensures
            final(self)@ == old(self)@.resized(cols as int, rows as int),
            size == old(self)@.window_size(cols as int, rows as int),
    {
        if cols == self.cols && rows == self.rows {
            return None;
        }
        self.dirty = true;
        let mut new_grid: Vec<Vec<Cell>> = Vec::with_capacity(rows);
        for y in 0..rows
            invariant
                self@.resize_defined(cols as int, rows as int),
                !(cols == self.cols && rows == self.rows),
                new_grid@.len() == y,
                forall|i: int|
                    0 <= i < y ==> (#[trigger] new_grid@[i])@ == grid_resized(
                        self@.grid,
                        self.cols as int,
                        self.rows as int,
                        cols as int,
                        rows as int,
                    )[i],
        {
            let mut row: Vec<Cell> = Vec::with_capacity(cols);
            let ghost target = grid_resized(
                self@.grid,
                self.cols as int,
                self.rows as int,
                cols as int,
                rows as int,
            )[y as int];
            for x in 0..cols
                invariant
                    y < rows,
                    self@.resize_defined(cols as int, rows as int),
                    !(cols == self.cols && rows == self.rows),
                    target == grid_resized(
                        self@.grid,
                        self.cols as int,
                        self.rows as int,
                        cols as int,
                        rows as int,
                    )[y as int],
                    row@ == target.take(x as int),
            {
                let cell: Cell = if y < self.rows && x < self.cols {
                    assert(in_grid(self@.grid, y as int, x as int));
                    self.grid[y][x]
                } else {
                    Cell::blank()
                };
                row.push(cell);
                assert(row@ =~= target.take(x + 1));
            }
            assert(target.take(cols as int) =~= target);
            new_grid.push(row);
        }
        proof {
            assert(grid_view(new_grid@) =~= grid_resized(
                self@.grid,
                self.cols as int,
                self.rows as int,
                cols as int,
                rows as int,
            ));
        }
        self.grid = new_grid;
        self.cols = cols;
        self.rows = rows;
        self.cursor_x = smaller(self.cursor_x, cols.saturating_sub(1));
        self.cursor_y = smaller(self.cursor_y, rows.saturating_sub(1));
        assert(self@ == old(self)@.resized(cols as int, rows as int));
        match self.pty_master_fd {
            Some(fd) => Some(
                WindowSize {
                    fd,
                    ws_row: (rows % 0x1_0000) as u16,
                    ws_col: (cols % 0x1_0000) as u16,
                },
            ),
            None => None,
        }
    }

    /// Whether the grid has the cells that stay when the size changes.
    pub fn accepts_resize(&self, cols: usize, rows: usize) -> (ok: bool)
        ensures
            ok == self@.resize_defined(cols as int, rows as int),
    {
        if cols == self.cols && rows == self.rows {
            return true;
        }
        let height: usize = smaller(rows, self.rows);
        let width: usize = smaller(cols, self.cols);
        if width == 0 {
            return true;
        }
        for y in 0..height
            invariant
                width > 0,
                height == least(rows as int, self.rows as int),
                width == least(cols as int, self.cols as int),
                !(cols == self.cols && rows == self.rows),
                forall|i: int, x: int|
                    0 <= i < y && 0 <= x < width ==> #[trigger] in_grid(self@.grid, i, x),
        {
            if y >= self.grid.len() || self.grid[y].len() < width {
                assert(!in_grid(self@.grid, y as int, width - 1));
                return false;
            }
        }
        true
    }

    /// Moves all rows up by one. The top row joins the history.
    pub fn scroll_up(&mut self)
        ensures
            final(self)@ == old(self)@.scrolled(1),
    {
        proof {
            reveal(Screen::scrolled);
        }
        if self.grid.len() == 0 {
            return;
        }
        self.dirty = true;
        let ghost all = self@.grid + blank_rows(1, self.cols as int);
        let top_row: Vec<Cell> = self.grid.remove(0);
        assert(all.take(1) =~= seq![top_row@]);
        push_history(&mut self.scrollback, top_row, self.scrollback_limit);
        self.grid.push(blank_row(self.cols));
        assert(self@.grid =~= all.skip(1));
    }

    /// Makes the whole grid blank and moves the cursor home.
    pub fn clear(&mut self)
        ensures
            final(self)@ == old(self)@.cleared(),
    {
        self.dirty = true;
        erase_grid(&mut self.grid);
        self.cursor_x = 0;
        self.cursor_y = 0;
        self.current_fg = self.fg_color;
        self.current_bg = self.bg_color;
        self.bold = false;
        self.reverse = false;
    }

    /// What is to be written so that `data` reaches the pseudo-terminal.
    pub fn write_pty(&self, data: &[u8]) -> (w: Option<PtyWrite>)
        ensures
            write_view(w) == addressed(self.pty_fd, Some(data@)),
    {
        match self.pty_fd {
            Some(fd) => {
                let mut bytes: Vec<u8> = Vec::new();
                push_all(&mut bytes, data);
                assert(bytes@ =~= data@);
                Some(PtyWrite { fd, data: bytes })
            },
            None => None,
        }
    }

    /// What is to be written to report the cursor position.
    pub fn send_cursor_position(&self) -> (w: Option<PtyWrite>)
        ensures
            write_view(w) == addressed(
                self.pty_fd,
                Some(cursor_report(self.cursor_x as int, self.cursor_y as int)),
            ),
    {
        let response: Vec<u8> = cursor_reply(self.cursor_x, self.cursor_y);
        self.write_pty(response.as_slice())
    }

    /// What is to be written to report the background colour.
    pub fn send_background_color(&self) -> (w: Option<PtyWrite>)
        ensures
            write_view(w) == addressed(self.pty_fd, Some(color_report(self.bg_color))),
    {
        let response: Vec<u8> = color_reply(self.bg_color);
        self.write_pty(response.as_slice())
    }

    /// Puts the screen aside and shows a blank one.
    pub fn enter_alt_screen(&mut self)
        ensures
            final(self)@ == old(self)@.alt_entered(),
    {
        if self.alt_screen.is_some() {
            return;
        }
        self.dirty = true;
        self.alt_screen = Some((copy_grid(&self.grid), self.cursor_x, self.cursor_y));
        self.grid = blank_grid(self.cols, self.rows);
        self.cursor_x = 0;
        self.cursor_y = 0;
        assert(self@ == old(self)@.alt_entered());
    }

    fn show(&mut self, grid: Vec<Vec<Cell>>, cursor_x: usize, cursor_y: usize)
        ensures
            final(self)@ == (Screen {
                grid: grid_view(grid@),
                cursor_x: cursor_x as int,
                cursor_y: cursor_y as int,
                dirty: true,
                ..old(self)@
            }),
    {
        self.dirty = true;
        self.grid = grid;
        self.cursor_x = cursor_x;
        self.cursor_y = cursor_y;
    }

    /// Shows the screen that was put aside.
    pub fn exit_alt_screen(&mut self)
        ensures
            final(self)@ == old(self)@.alt_exited(),
    {
        match self.alt_screen.take() {
            Some((saved_grid, cx, cy)) => self.show(saved_grid, cx, cy),
            None => {},
        }
    }

    /// A colour of the palette of 256 colours.
    pub fn color_from_256(index: u16) -> (c: Color)
        ensures
            c == palette_color(index as int),
    {
        xterm_color(index)
    }

    /// Asks for the screen to be drawn anew.
    pub(crate) fn touch(&mut self)
        ensures
            final(self)@ == old(self)@.touched(),
    {
        self.dirty = true;
    }

    fn set_cursor_x(&mut self, x: usize)
        ensures
            final(self)@ == (Screen { cursor_x: x as int, ..old(self)@ }),
    {
        self.cursor_x = x;
    }

    fn set_cursor_y(&mut self, y: usize)
        ensures
            final(self)@ == (Screen { cursor_y: y as int, ..old(self)@ }),
    {
        self.cursor_y = y;
    }

    fn set_wrap(&mut self, due: bool)
        ensures
            final(self)@ == (Screen { pending_wrap: due, ..old(self)@ }),
    {
        self.pending_wrap = due;
    }

    /// Moves the cursor to the next row, or scrolls in the last row.
    fn feed_line(&mut self)
        requires
            old(self).rows > 0,
        ensures
            final(self)@ == old(self)@.line_feed(),
    {
        if self.cursor_y >= self.rows - 1 {
            assert(self@.scrolled(1).rows == self.rows) by {
                lemma_scrolled_keeps(self@, 1);
            }
            self.scroll_up();
            self.set_cursor_y(self.rows - 1);
        } else {
            self.set_cursor_y(self.cursor_y + 1);
        }
    }

    /// Makes a wrap that is due.
    fn wrap(&mut self)
        requires
            old(self).pending_wrap ==> old(self).rows > 0,
        ensures
            final(self)@ == old(self)@.wrapped(),
    {
        if self.pending_wrap {
            self.feed_line();
            self.pending_wrap = false;
            self.cursor_x = 0;
        }
    }

    /// Puts a character into the cell under the cursor.
    fn put(&mut self, c: char)
        requires
            old(self)@.cursor_on_screen() ==> in_grid(
                old(self)@.grid,
                old(self).cursor_y as int,
                old(self).cursor_x as int,
            ),
        ensures
            final(self)@ == old(self)@.put(c),
    {
        let y: usize = self.cursor_y;
        let x: usize = self.cursor_x;
        if x < self.cols && y < self.rows {
            let cell: Cell = Cell {
                ch: c,
                fg: Some(self.current_fg),
                bg: Some(self.current_bg),
                bold: self.bold,
                dim: self.dim,
                italic: self.italic,
                underline: self.underline,
                strikethrough: self.strikethrough,
                reverse: self.reverse,
            };
            assert(cell == self@.pen.cell(c));
            self.grid[y][x] = cell;
            assert(self@.grid =~= with_cell(old(self)@.grid, y as int, x as int, cell));
        }
    }

    /// Moves the cursor to the next column, or makes a wrap due.
    fn advance(&mut self)
        requires
            old(self).cols > 0,
        ensures
            final(self)@ == old(self)@.advanced(),
    {
        let last: bool = self.cursor_x >= self.cols - 1;
        let x: usize = if last { self.cols - 1 } else { self.cursor_x + 1 };
        self.set_wrap(self.pending_wrap || last);
        self.set_cursor_x(x);
    }

    /// Prints a character at the cursor.
    pub fn perform_print(&mut self, c: char)
        requires
            old(self)@.print_defined(),
        ensures
            final(self)@ == old(self)@.print(c),
    {
        proof {
            lemma_scrolled_keeps(self@, 1);
        }
        self.wrap();
        self.put(c);
        self.advance();
        self.touch();
    }

    /// Whether a character can be printed in this state.
    pub fn accepts_print(&self) -> (ok: bool)
        ensures
            ok == self@.print_defined(),
    {
        proof {
            reveal(Screen::scrolled);
        }
        if self.cols == 0 || (self.pending_wrap && self.rows == 0) {
            return false;
        }
        let scrolls: bool = self.pending_wrap && self.cursor_y >= self.rows - 1;
        let x: usize = if self.pending_wrap { 0 } else { self.cursor_x };
        let y: usize = if scrolls {
            self.rows - 1
        } else if self.pending_wrap {
            self.cursor_y + 1
        } else {
            self.cursor_y
        };
        if x >= self.cols || y >= self.rows {
            true
        } else if y >= self.grid.len() {
            false
        } else if !scrolls {
            x < self.grid[y].len()
        } else if y < self.grid.len() - 1 {
            x < self.grid[y + 1].len()
        } else {
            true
        }
    }

    fn carriage_return(&mut self)
        ensures
            final(self)@ == old(self)@.carriage_return(),
    {
        self.cursor_x = 0;
        self.pending_wrap = false;
    }

    fn tab(&mut self)
        requires
            old(self).cols > 0,
        ensures
            final(self)@ == old(self)@.tabbed(),
    {
        let stop: usize = self.cursor_x / 8 + 1;
        let x: usize = if stop > (self.cols - 1) / 8 {
            self.cols - 1
        } else {
            stop * 8
        };
        self.set_cursor_x(x);
    }

    fn backspace(&mut self)
        ensures
            final(self)@ == old(self)@.backspaced(),
    {
        self.set_cursor_x(self.cursor_x.saturating_sub(1));
    }

    /// Executes a control character.
    pub fn perform_execute(&mut self, byte: u8)
        requires
            old(self)@.execute_defined(byte),
        ensures
            final(self)@ == old(self)@.execute(byte),
    {
        match byte {
            8 => self.backspace(),
            9 => self.tab(),
            10 => self.feed_line(),
            13 => self.carriage_return(),
            _ => {},
        }
        self.touch();
    }

    /// Whether a control character can be executed in this state.
    pub fn accepts_execute(&self, byte: u8) -> (ok: bool)
        ensures
            ok == self@.execute_defined(byte),
    {
        (byte != 10 || self.rows > 0) && (byte != 9 || self.cols > 0)
    }
}

} // verus!
