//! The terminal as a mathematical value, and its basic operations on that
//! value.

use crate::bounds::{greatest, least};
use crate::cell::{blank_cell, Cell, Pen};
use crate::color::{default_background, default_foreground, Color};
use crate::grid::{blank_rows, grid_erased, in_grid, with_cell};
use crate::reply::WindowSize;
use vstd::prelude::*;

verus! {

/// The state of a terminal. Cursors, sizes and limits are integers, and grids
/// are sequences of rows of cells.
pub struct Screen {
    pub grid: Seq<Seq<Cell>>,
    pub cursor_x: int,
    pub cursor_y: int,
    pub cols: int,
    pub rows: int,
    pub fg_color: Color,
    pub bg_color: Color,
    pub font_size: int,
    pub char_width: int,
    pub char_height: int,
    pub pixel_width: int,
    pub pixel_height: int,
    pub pty_fd: Option<i32>,
    pub saved_cursor_x: int,
    pub saved_cursor_y: int,
    pub pen: Pen,
    pub scrollback: Seq<Seq<Cell>>,
    pub scrollback_limit: int,
    pub scroll_offset: int,
    pub pty_master_fd: Option<i32>,
    pub alt_screen: Option<(Seq<Seq<Cell>>, int, int)>,
    pub cursor_visible: bool,
    pub pending_wrap: bool,
    pub bracketed_paste: bool,
    pub focus_reporting: bool,
    pub working_directory: Option<Seq<u8>>,
    pub dirty: bool,
}

/// The rows that stay in the history when `added` rows join it: the oldest
/// rows leave once there are more than `limit`. A history that is above the
/// limit already keeps its length.
pub open spec fn history(rows: Seq<Seq<Cell>>, added: Seq<Seq<Cell>>, limit: int) -> Seq<
    Seq<Cell>,
> {
    let all = rows + added;
    let size = greatest(rows.len() as int, least(limit, all.len() as int));
    all.skip(all.len() - size)
}

/// A grid of `rows` rows of `cols` cells that shows what `grid` has in its
/// first `old_rows` rows and `old_cols` columns.
pub open spec fn grid_resized(
    grid: Seq<Seq<Cell>>,
    old_cols: int,
    old_rows: int,
    cols: int,
    rows: int,
) -> Seq<Seq<Cell>> {
    Seq::new(
        rows as nat,
        |y: int|
            Seq::new(
                cols as nat,
                |x: int|
                    if y < old_rows && x < old_cols {
                        grid[y][x]
                    } else {
                        blank_cell()
                    },
            ),
    )
}

impl Screen {
    /// A terminal of the given size with nothing on it.
    pub open spec fn initial(cols: int, rows: int) -> Screen {
        Screen {
            grid: blank_rows(rows, cols),
            cursor_x: 0,
            cursor_y: 0,
            cols,
            rows,
            fg_color: default_foreground(),
            bg_color: default_background(),
            font_size: 160,
            char_width: 96,
            char_height: 200,
            pixel_width: 800,
            pixel_height: 600,
            pty_fd: None,
            saved_cursor_x: 0,
            saved_cursor_y: 0,
            pen: Pen::plain(default_foreground(), default_background()),
            scrollback: Seq::empty(),
            scrollback_limit: 10000,
            scroll_offset: 0,
            pty_master_fd: None,
            alt_screen: None,
            cursor_visible: true,
            pending_wrap: false,
            bracketed_paste: false,
            focus_reporting: false,
            working_directory: None,
            dirty: true,
        }
    }

    /// The cursor is in a row and a column of the screen.
    pub open spec fn cursor_on_screen(self) -> bool {
        0 <= self.cursor_x < self.cols && 0 <= self.cursor_y < self.rows
    }

    /// The screen after its rows moved up by `n`: the rows at the top join the
    /// history and blank rows enter at the bottom. A screen without rows does
    /// not scroll.
    #[verifier::opaque]
    pub open spec fn scrolled(self, n: int) -> Screen {
        if self.grid.len() == 0 || n <= 0 {
            self
        } else {
            let all = self.grid + blank_rows(n, self.cols);
            Screen {
                grid: all.skip(n),
                scrollback: history(self.scrollback, all.take(n), self.scrollback_limit),
                dirty: true,
                ..self
            }
        }
    }

    /// The cursor moves to the next row; in the last row the screen scrolls
    /// instead.
    pub open spec fn line_feed(self) -> Screen {
        if self.cursor_y + 1 >= self.rows {
            Screen { cursor_y: self.rows - 1, ..self.scrolled(1) }
        } else {
            Screen { cursor_y: self.cursor_y + 1, ..self }
        }
    }

    /// The screen on which the next character is put: a wrap that is due is
    /// made.
    pub open spec fn wrapped(self) -> Screen {
        if self.pending_wrap {
            Screen { cursor_x: 0, pending_wrap: false, ..self.line_feed() }
        } else {
            self
        }
    }

    /// The character is put into the cell under the cursor. A cursor that is
    /// off the screen leaves it as it is.
    pub open spec fn put(self, c: char) -> Screen {
        if self.cursor_on_screen() {
            Screen {
                grid: with_cell(self.grid, self.cursor_y, self.cursor_x, self.pen.cell(c)),
                ..self
            }
        } else {
            self
        }
    }

    /// The cursor moves to the next column; from the last column on, a wrap is
    /// due instead.
    pub open spec fn advanced(self) -> Screen {
        Screen {
            cursor_x: least(self.cursor_x + 1, self.cols - 1),
            pending_wrap: self.pending_wrap || self.cursor_x + 1 >= self.cols,
            ..self
        }
    }

    /// The screen has to be drawn anew.
    pub open spec fn touched(self) -> Screen {
        Screen { dirty: true, ..self }
    }

    /// A character is printed.
    pub open spec fn print(self, c: char) -> Screen {
        self.wrapped().put(c).advanced().touched()
    }

    /// A character can be printed: there is a column, there is a row to wrap
    /// to when a wrap is due, and the grid has the cell under the cursor.
    pub open spec fn print_defined(self) -> bool {
        let target = self.wrapped();
        &&& self.cols > 0
        &&& self.pending_wrap ==> self.rows > 0
        &&& target.cursor_on_screen() ==> in_grid(target.grid, target.cursor_y, target.cursor_x)
    }

    /// The cursor moves to the first column.
    pub open spec fn carriage_return(self) -> Screen {
        Screen { cursor_x: 0, pending_wrap: false, ..self }
    }

    /// The cursor moves to the next tab stop, or to the last column.
    pub open spec fn tabbed(self) -> Screen {
        Screen { cursor_x: least((self.cursor_x / 8 + 1) * 8, self.cols - 1), ..self }
    }

    /// The cursor moves left by one column, unless it is in the first one.
    pub open spec fn backspaced(self) -> Screen {
        Screen { cursor_x: greatest(self.cursor_x - 1, 0), ..self }
    }

    /// A control character is executed: backspace, tab, line feed, carriage
    /// return. Others do nothing.
    pub open spec fn execute(self, byte: u8) -> Screen {
        if byte == 8 {
            self.backspaced().touched()
        } else if byte == 9 {
            self.tabbed().touched()
        } else if byte == 10 {
            self.line_feed().touched()
        } else if byte == 13 {
            self.carriage_return().touched()
        } else {
            self.touched()
        }
    }

    /// A control character can be executed: a line feed needs a row, a tab
    /// needs a column.
    pub open spec fn execute_defined(self, byte: u8) -> bool {
        (byte == 10 ==> self.rows > 0) && (byte == 9 ==> self.cols > 0)
    }

    /// The screen in a new size. What fits stays, at its place; the cursor
    /// stays on the screen.
    pub open spec fn resized(self, cols: int, rows: int) -> Screen {
        if cols == self.cols && rows == self.rows {
            self
        } else {
            Screen {
                grid: grid_resized(self.grid, self.cols, self.rows, cols, rows),
                cols,
                rows,
                cursor_x: least(self.cursor_x, greatest(cols - 1, 0)),
                cursor_y: least(self.cursor_y, greatest(rows - 1, 0)),
                dirty: true,
                ..self
            }
        }
    }

    /// The size to set on the pseudo-terminal when the screen gets a new size,
    /// in sixteen bits each way.
    pub open spec fn window_size(self, cols: int, rows: int) -> Option<WindowSize> {
        if cols == self.cols && rows == self.rows {
            None
        } else {
            match self.pty_master_fd {
                Some(fd) => Some(
                    WindowSize {
                        fd,
                        ws_row: (rows % 0x1_0000) as u16,
                        ws_col: (cols % 0x1_0000) as u16,
                    },
                ),
                None => None,
            }
        }
    }

    /// The size can change: the grid has the cells that stay.
    pub open spec fn resize_defined(self, cols: int, rows: int) -> bool {
        cols == self.cols && rows == self.rows || forall|y: int, x: int|
            0 <= y < least(rows, self.rows) && 0 <= x < least(cols, self.cols)
                ==> #[trigger] in_grid(self.grid, y, x)
    }

    /// Every cell of the grid is blank, the cursor is home, and the pen has the
    /// default colours and is neither bold nor reversed.
    pub open spec fn cleared(self) -> Screen {
        Screen {
            grid: grid_erased(self.grid),
            cursor_x: 0,
            cursor_y: 0,
            pen: Pen {
                fg: self.fg_color,
                bg: self.bg_color,
                bold: false,
                reverse: false,
                ..self.pen
            },
            dirty: true,
            ..self
        }
    }

    /// The grid and the cursor are put aside for a blank screen, unless that
    /// has happened already.
    pub open spec fn alt_entered(self) -> Screen {
        if self.alt_screen is Some {
            self
        } else {
            Screen {
                alt_screen: Some((self.grid, self.cursor_x, self.cursor_y)),
                grid: blank_rows(self.rows, self.cols),
                cursor_x: 0,
                cursor_y: 0,
                dirty: true,
                ..self
            }
        }
    }

    /// The grid and the cursor that were put aside are shown again.
    pub open spec fn alt_exited(self) -> Screen {
        match self.alt_screen {
            Some((grid, x, y)) => Screen {
                alt_screen: None,
                grid,
                cursor_x: x,
                cursor_y: y,
                dirty: true,
                ..self
            },
            None => self,
        }
    }
}

/// Scrolling changes nothing but the grid, the history, and the need to draw.
pub proof fn lemma_scrolled_keeps(s: Screen, n: int)
    ensures
        s.scrolled(n) == (Screen {
            grid: s.scrolled(n).grid,
            scrollback: s.scrolled(n).scrollback,
            dirty: s.scrolled(n).dirty,
            ..s
        }),
{
    reveal(Screen::scrolled);
}

/// Rows that join the history in two groups join it as one group.
proof fn lemma_history_twice(
    rows: Seq<Seq<Cell>>,
    first: Seq<Seq<Cell>>,
    second: Seq<Seq<Cell>>,
    limit: int,
)
    ensures
        history(history(rows, first, limit), second, limit) == history(rows, first + second, limit),
{
    assert(history(history(rows, first, limit), second, limit) =~= history(
        rows,
        first + second,
        limit,
    ));
}

/// Scrolling twice is scrolling once, by as many rows together.
pub proof fn law_scrolled_twice(s: Screen, a: int, b: int)
    requires
        a >= 0,
        b >= 0,
    ensures
        s.scrolled(a).scrolled(b) == s.scrolled(a + b),
{
    reveal(Screen::scrolled);
    if s.grid.len() > 0 && a > 0 && b > 0 {
        let all = s.grid + blank_rows(a, s.cols);
        let next = all.skip(a) + blank_rows(b, s.cols);
        let whole = s.grid + blank_rows(a + b, s.cols);
        assert(next.skip(b) =~= whole.skip(a + b));
        assert(all.take(a) + next.take(b) =~= whole.take(a + b));
        lemma_history_twice(s.scrollback, all.take(a), next.take(b), s.scrollback_limit);
    }
}

} // verus!
