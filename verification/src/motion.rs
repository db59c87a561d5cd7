//! Where the cursor goes: control characters and cursor motion, in plain
//! numbers.

use crate::cell::Cell;
use crate::model::Screen;
use vstd::prelude::*;

verus! {

// Control characters.

/// A backspace moves the cursor left by one column and changes nothing else;
/// in the first column it stays.
pub proof fn law_backspace(s: Screen)
    requires
        s.cursor_x >= 0,
    ensures
        s.cursor_x > 0 ==> s.execute(8) == (Screen { cursor_x: s.cursor_x - 1, dirty: true, ..s }),
        s.cursor_x == 0 ==> s.execute(8) == (Screen { dirty: true, ..s }),
{
}

/// A backspace leads back over a character that did not fill the line.
pub proof fn law_backspace_undoes_advance(s: Screen, c: char)
    requires
        s.well_formed(),
        !s.pending_wrap,
        s.cursor_x + 1 < s.cols,
    ensures
        s.print(c).execute(8).cursor_x == s.cursor_x,
        s.print(c).execute(8).cursor_y == s.cursor_y,
        s.print(c).execute(8).grid == s.print(c).grid,
{
}

/// A carriage return moves the cursor to the first column, where no wrap is
/// due, and changes nothing else.
pub proof fn law_carriage_return(s: Screen)
    ensures
        s.execute(13) == (Screen { cursor_x: 0, pending_wrap: false, dirty: true, ..s }),
{
}

/// A tab moves the cursor to the next column whose number is a multiple of
/// eight, or to the last column when there is none, and changes nothing else.
pub proof fn law_tab(s: Screen, stop: int)
    requires
        s.cursor_x >= 0,
        s.cols > 0,
        stop % 8 == 0,
        s.cursor_x < stop <= s.cursor_x + 8,
    ensures
        s.execute(9) == (Screen {
            cursor_x: if stop < s.cols {
                stop
            } else {
                s.cols - 1
            },
            dirty: true,
            ..s
        }),
{
}

/// A line feed above the last row moves the cursor down by one row and changes
/// nothing else: neither the column nor a wrap that is due.
pub proof fn law_line_feed_moves(s: Screen)
    requires
        s.cursor_y < s.rows - 1,
    ensures
        s.execute(10) == (Screen { cursor_y: s.cursor_y + 1, dirty: true, ..s }),
{
}

/// A line feed in the last row or below it scrolls by one row and leaves the
/// cursor in the last row.
pub proof fn law_line_feed_scrolls(s: Screen)
    requires
        s.rows > 0,
        s.cursor_y >= s.rows - 1,
    ensures
        s.execute(10) == (Screen { cursor_y: s.rows - 1, dirty: true, ..s.scrolled(1) }),
{
}

/// No other control character changes anything.
pub proof fn law_other_controls(s: Screen, byte: u8)
    requires
        byte != 8 && byte != 9 && byte != 10 && byte != 13,
    ensures
        s.execute(byte) == (Screen { dirty: true, ..s }),
{
}

/// A control character is taken in on every screen with a cell. On others only
/// a line feed without a row and a tab without a column are not.
pub proof fn law_controls_accepted(s: Screen, byte: u8)
    requires
        s.rows >= 0,
        s.cols >= 0,
    ensures
        s.execute_defined(byte) <==> !(byte == 10 && s.rows == 0) && !(byte == 9 && s.cols == 0),
{
}

// Cursor motion. A missing or zero parameter counts as one.

/// `CSI n A` moves the cursor up by `n` rows, at most to the first row, and
/// changes nothing else.
pub proof fn law_cursor_up(s: Screen, p: Seq<u16>, marker: Option<u8>)
    requires
        s.cursor_y >= 0,
    ensures
        ({
            let n = if p.len() > 0 && p[0] > 0 {
                p[0] as int
            } else {
                1
            };
            s.csi(p, marker, 'A') == (Screen {
                cursor_y: if n <= s.cursor_y {
                    s.cursor_y - n
                } else {
                    0
                },
                dirty: true,
                pending_wrap: false,
                ..s
            })
        }),
{
}

/// `CSI n B` moves the cursor down by `n` rows, at most to the last row, and
/// changes nothing else.
pub proof fn law_cursor_down(s: Screen, p: Seq<u16>, marker: Option<u8>)
    requires
        s.rows >= 0,
        s.cursor_y >= 0,
    ensures
        ({
            let n = if p.len() > 0 && p[0] > 0 {
                p[0] as int
            } else {
                1
            };
            s.csi(p, marker, 'B') == (Screen {
                cursor_y: if s.cursor_y + n < s.rows {
                    s.cursor_y + n
                } else if s.rows > 0 {
                    s.rows - 1
                } else {
                    0
                },
                dirty: true,
                pending_wrap: false,
                ..s
            })
        }),
{
}

/// `CSI n C` moves the cursor right by `n` columns, at most to the last
/// column, and changes nothing else.
pub proof fn law_cursor_right(s: Screen, p: Seq<u16>, marker: Option<u8>)
    requires
        s.cols >= 0,
        s.cursor_x >= 0,
    ensures
        ({
            let n = if p.len() > 0 && p[0] > 0 {
                p[0] as int
            } else {
                1
            };
            s.csi(p, marker, 'C') == (Screen {
                cursor_x: if s.cursor_x + n < s.cols {
                    s.cursor_x + n
                } else if s.cols > 0 {
                    s.cols - 1
                } else {
                    0
                },
                dirty: true,
                pending_wrap: false,
                ..s
            })
        }),
{
}

/// `CSI n D` moves the cursor left by `n` columns, at most to the first
/// column, and changes nothing else.
pub proof fn law_cursor_left(s: Screen, p: Seq<u16>, marker: Option<u8>)
    requires
        s.cursor_x >= 0,
    ensures
        ({
            let n = if p.len() > 0 && p[0] > 0 {
                p[0] as int
            } else {
                1
            };
            s.csi(p, marker, 'D') == (Screen {
                cursor_x: if n <= s.cursor_x {
                    s.cursor_x - n
                } else {
                    0
                },
                dirty: true,
                pending_wrap: false,
                ..s
            })
        }),
{
}

/// `CSI E` and `CSI F` do what `CSI B` and `CSI A` do, and move the cursor to
/// the first column as well.
pub proof fn law_cursor_lines(s: Screen, p: Seq<u16>, marker: Option<u8>)
    ensures
        s.csi(p, marker, 'E') == (Screen { cursor_x: 0, ..s.csi(p, marker, 'B') }),
        s.csi(p, marker, 'F') == (Screen { cursor_x: 0, ..s.csi(p, marker, 'A') }),
{
}

/// `CSI r ; c H` moves the cursor to row `r` and column `c`, counted from one,
/// or as near as the screen allows, and changes nothing else. `CSI f` does the
/// same.
pub proof fn law_cursor_position(s: Screen, p: Seq<u16>, marker: Option<u8>)
    requires
        s.rows >= 0,
        s.cols >= 0,
    ensures
        ({
            let row = if p.len() > 0 && p[0] > 0 {
                p[0] as int
            } else {
                1
            };
            let col = if p.len() > 1 && p[1] > 0 {
                p[1] as int
            } else {
                1
            };
            s.csi(p, marker, 'H') == (Screen {
                cursor_x: if col <= s.cols {
                    col - 1
                } else if s.cols > 0 {
                    s.cols - 1
                } else {
                    0
                },
                cursor_y: if row <= s.rows {
                    row - 1
                } else if s.rows > 0 {
                    s.rows - 1
                } else {
                    0
                },
                dirty: true,
                pending_wrap: false,
                ..s
            })
        }),
        s.csi(p, marker, 'f') == s.csi(p, marker, 'H'),
{
}

/// `CSI r d` moves the cursor to row `r`, counted from one, and `CSI c G` to
/// column `c`, or as near as the screen allows. Nothing else changes.
pub proof fn law_cursor_row_and_column(s: Screen, p: Seq<u16>, marker: Option<u8>)
    requires
        s.rows >= 0,
        s.cols >= 0,
    ensures
        ({
            let n = if p.len() > 0 && p[0] > 0 {
                p[0] as int
            } else {
                1
            };
            &&& s.csi(p, marker, 'd') == (Screen {
                cursor_y: if n <= s.rows {
                    n - 1
                } else if s.rows > 0 {
                    s.rows - 1
                } else {
                    0
                },
                dirty: true,
                pending_wrap: false,
                ..s
            })
            &&& s.csi(p, marker, 'G') == (Screen {
                cursor_x: if n <= s.cols {
                    n - 1
                } else if s.cols > 0 {
                    s.cols - 1
                } else {
                    0
                },
                dirty: true,
                pending_wrap: false,
                ..s
            })
        }),
{
}

/// To go to a row is to go to that row in the cursor's column, and to go to a
/// column is to go to that column in the cursor's row.
pub proof fn law_row_and_column_position(s: Screen, row: u16, col: u16, marker: Option<u8>)
    requires
        s.well_formed(),
        s.cursor_x < 65535,
        s.cursor_y < 65535,
        1 <= row <= s.rows,
        1 <= col <= s.cols,
    ensures
        s.csi(seq![row], marker, 'd') == s.csi(seq![row, (s.cursor_x + 1) as u16], marker, 'H'),
        s.csi(seq![col], marker, 'G') == s.csi(seq![(s.cursor_y + 1) as u16, col], marker, 'H'),
        s.csi(seq![row], marker, 'd').cursor_y == row - 1,
        s.csi(seq![col], marker, 'G').cursor_x == col - 1,
{
}

/// `CSI s` saves the position of the cursor, and `CSI u` moves the cursor to
/// the saved position. Nothing else changes.
pub proof fn law_cursor_save_and_restore(s: Screen, p: Seq<u16>, marker: Option<u8>)
    ensures
        s.csi(p, marker, 's') == (Screen {
            saved_cursor_x: s.cursor_x,
            saved_cursor_y: s.cursor_y,
            dirty: true,
            pending_wrap: false,
            ..s
        }),
        s.csi(p, marker, 'u') == (Screen {
            cursor_x: s.saved_cursor_x,
            cursor_y: s.saved_cursor_y,
            dirty: true,
            pending_wrap: false,
            ..s
        }),
{
}

/// No other control sequence changes anything but that no wrap is due any
/// more. Queries are among these, and modes without a question mark.
pub proof fn law_other_sequences(s: Screen, p: Seq<u16>, marker: Option<u8>, command: char)
    requires
        command != 'A' && command != 'B' && command != 'C' && command != 'D',
        command != 'E' && command != 'F' && command != 'G' && command != 'H',
        command != 'f' && command != 'd' && command != 's' && command != 'u',
        command != 'J' && command != 'K' && command != 'L' && command != 'M',
        command != 'P' && command != '@' && command != 'S' && command != 'm',
        command == 'h' || command == 'l' ==> marker != Some(0x3fu8),
    ensures
        s.csi(p, marker, command) == (Screen { dirty: true, pending_wrap: false, ..s }),
{
}

// Printing.

/// A printed character stands in the cell under the cursor, with the colours
/// and the attributes of the pen; no other cell changes. The cursor moves on by
/// one column; in the last column it stays, and a wrap becomes due.
pub proof fn law_print_in_line(s: Screen, c: char)
    requires
        0 <= s.cursor_x < s.cols,
        0 <= s.cursor_y < s.rows,
        s.cursor_y < s.grid.len(),
        s.cursor_x < s.grid[s.cursor_y].len(),
        !s.pending_wrap,
    ensures
        s.print(c) == (Screen {
            grid: s.grid.update(
                s.cursor_y,
                s.grid[s.cursor_y].update(
                    s.cursor_x,
                    Cell {
                        ch: c,
                        fg: Some(s.pen.fg),
                        bg: Some(s.pen.bg),
                        bold: s.pen.bold,
                        dim: s.pen.dim,
                        italic: s.pen.italic,
                        underline: s.pen.underline,
                        strikethrough: s.pen.strikethrough,
                        reverse: s.pen.reverse,
                    },
                ),
            ),
            cursor_x: if s.cursor_x + 1 < s.cols {
                s.cursor_x + 1
            } else {
                s.cursor_x
            },
            pending_wrap: s.cursor_x + 1 == s.cols,
            dirty: true,
            ..s
        }),
{
}

/// When a wrap is due, a character is printed as it is at the start of the
/// next line: after a carriage return and a line feed.
pub proof fn law_print_after_wrap(s: Screen, c: char)
    requires
        s.rows > 0,
        s.cols > 0,
        s.pending_wrap,
    ensures
        s.print(c) == s.execute(13).execute(10).print(c),
{
    reveal(Screen::scrolled);
    let t = Screen { cursor_x: 0, pending_wrap: false, dirty: true, ..s };
    assert(s.scrolled(1).grid == t.scrolled(1).grid);
    assert(s.scrolled(1).scrollback == t.scrolled(1).scrollback);
}

/// Off the screen, printing changes no cell, but the cursor moves on.
pub proof fn law_print_off_screen(s: Screen, c: char)
    requires
        s.cols > 0,
        !s.pending_wrap,
        s.cursor_x >= s.cols || s.cursor_y >= s.rows,
    ensures
        s.print(c) == (Screen {
            cursor_x: if s.cursor_x + 1 < s.cols {
                s.cursor_x + 1
            } else {
                s.cols - 1
            },
            pending_wrap: s.cursor_x + 1 >= s.cols,
            dirty: true,
            ..s
        }),
{
}

/// A character is taken in wherever there is a column and, if the cursor is on
/// the screen, a cell under it. A wrap that is due needs a row.
pub proof fn law_print_accepted(s: Screen)
    requires
        s.rows >= 0,
        s.cols >= 0,
        s.cursor_x >= 0,
        s.cursor_y >= 0,
    ensures
        !s.pending_wrap ==> (s.print_defined() <==> {
            &&& s.cols > 0
            &&& s.cursor_x < s.cols && s.cursor_y < s.rows ==> s.cursor_y < s.grid.len()
                && s.cursor_x < s.grid[s.cursor_y].len()
        }),
        s.pending_wrap ==> (s.print_defined() <==> {
            let t = s.execute(13).execute(10);
            &&& s.cols > 0
            &&& s.rows > 0
            &&& t.cursor_y < t.grid.len() && t.grid[t.cursor_y].len() > 0
        }),
{
    reveal(Screen::scrolled);
    let t = Screen { cursor_x: 0, pending_wrap: false, dirty: true, ..s };
    assert(s.scrolled(1).grid == t.scrolled(1).grid);
}

} // verus!
