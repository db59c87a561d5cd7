//! What becomes of every cell: erasing, inserting, deleting, scrolling,
//! sizes, the alternate screen, and modes.

use crate::cell::{blank_cell, Cell, Pen};
use crate::color::Color;
use crate::grid::{blank_cells, blank_rows, in_grid};
use crate::integrity::shaped;
use crate::model::Screen;
use crate::reply::WindowSize;
use vstd::prelude::*;

verus! {

/// A blank cell holds a space in the default colours, without attributes.
pub proof fn law_blank_cell()
    ensures
        blank_cell() == (Cell {
            ch: ' ',
            fg: None,
            bg: None,
            bold: false,
            dim: false,
            italic: false,
            underline: false,
            strikethrough: false,
            reverse: false,
        }),
{
}

/// Blank rows consist of blank cells, as many as asked for.
pub proof fn law_blank_rows(n: int, cols: int, y: int, x: int)
    requires
        0 <= y < n,
        0 <= x < cols,
    ensures
        blank_cells(cols).len() == cols,
        blank_cells(cols)[x] == blank_cell(),
        blank_rows(n, cols).len() == n,
        blank_rows(n, cols)[y].len() == cols,
        blank_rows(n, cols)[y][x] == blank_cell(),
{
}

/// What it means that a terminal is in order.
pub proof fn law_well_formed(s: Screen)
    ensures
        s.well_formed() <==> {
            &&& 0 <= s.cursor_x < s.cols
            &&& 0 <= s.cursor_y < s.rows
            &&& s.grid.len() == s.rows
            &&& forall|y: int| 0 <= y < s.rows ==> (#[trigger] s.grid[y]).len() == s.cols
        },
        s.consistent() <==> {
            &&& s.well_formed()
            &&& 0 <= s.saved_cursor_x < s.cols
            &&& 0 <= s.saved_cursor_y < s.rows
            &&& s.scrollback.len() <= s.scrollback_limit
            &&& s.alt_screen matches Some((grid, x, y)) ==> {
                &&& 0 <= x < s.cols
                &&& 0 <= y < s.rows
                &&& shaped(grid, s.cols, s.rows)
            }
        },
        forall|grid: Seq<Seq<Cell>>| #[trigger]
            shaped(grid, s.cols, s.rows) <==> grid.len() == s.rows && forall|y: int|
                0 <= y < s.rows ==> (#[trigger] grid[y]).len() == s.cols,
{
}

// Erasing.

/// `CSI K` makes cells of the cursor's row blank: without a parameter or with
/// 0 those from the cursor to the last column, with 1 those up to the cursor,
/// with 2 all of them, with any other parameter none. Nothing else changes.
pub proof fn law_erase_line(s: Screen, p: Seq<u16>, marker: Option<u8>)
    ensures
        ({
            let t = s.csi(p, marker, 'K');
            let mode = if p.len() > 0 {
                p[0] as int
            } else {
                0
            };
            &&& t == (Screen { grid: t.grid, dirty: true, pending_wrap: false, ..s })
            &&& t.grid.len() == s.grid.len()
            &&& forall|y: int|
                0 <= y < s.grid.len() ==> (#[trigger] t.grid[y]).len() == s.grid[y].len()
            &&& forall|y: int, x: int|
                0 <= y < s.grid.len() && 0 <= x < s.grid[y].len() ==> #[trigger] t.grid[y][x]
                    == if y == s.cursor_y && (mode == 0 && s.cursor_x <= x < s.cols || mode == 1 && x
                    <= s.cursor_x || mode == 2 && x < s.cols) {
                    blank_cell()
                } else {
                    s.grid[y][x]
                }
        }),
{
}

/// On a screen that is in order: after `CSI K` the row is blank from the
/// cursor on, after `CSI 1 K` up to the cursor, after `CSI 2 K` all over.
pub proof fn law_erase_line_parts(s: Screen, marker: Option<u8>, x: int)
    requires
        s.well_formed(),
        0 <= x < s.cols,
    ensures
        ({
            let before = s.grid[s.cursor_y][x];
            let on = s.csi(seq![0u16], marker, 'K').grid[s.cursor_y][x];
            let up_to = s.csi(seq![1u16], marker, 'K').grid[s.cursor_y][x];
            &&& on == if x >= s.cursor_x {
                blank_cell()
            } else {
                before
            }
            &&& up_to == if x <= s.cursor_x {
                blank_cell()
            } else {
                before
            }
            &&& s.csi(seq![2u16], marker, 'K').grid[s.cursor_y][x] == blank_cell()
            &&& s.csi(Seq::empty(), marker, 'K') == s.csi(seq![0u16], marker, 'K')
        }),
{
}

/// `CSI J` makes cells of the screen blank: without a parameter or with 0
/// those from the cursor on in reading order, with 1 those up to the cursor,
/// with 2 or 3 all of them, with any other parameter none. With 2 or 3 the
/// cursor goes to the first column of the first row. Nothing else changes.
pub proof fn law_erase_display(s: Screen, p: Seq<u16>, marker: Option<u8>)
    requires
        s.cursor_y >= 0,
    ensures
        ({
            let t = s.csi(p, marker, 'J');
            let mode = if p.len() > 0 {
                p[0] as int
            } else {
                0
            };
            &&& t == (Screen {
                grid: t.grid,
                cursor_x: if mode == 2 || mode == 3 {
                    0
                } else {
                    s.cursor_x
                },
                cursor_y: if mode == 2 || mode == 3 {
                    0
                } else {
                    s.cursor_y
                },
                dirty: true,
                pending_wrap: false,
                ..s
            })
            &&& t.grid.len() == s.grid.len()
            &&& forall|y: int|
                0 <= y < s.grid.len() ==> (#[trigger] t.grid[y]).len() == s.grid[y].len()
            &&& forall|y: int, x: int|
                0 <= y < s.grid.len() && 0 <= x < s.grid[y].len() ==> #[trigger] t.grid[y][x]
                    == if x < s.cols && {
                    ||| mode == 0 && y < s.rows && (y > s.cursor_y || y == s.cursor_y && x
                        >= s.cursor_x)
                    ||| mode == 1 && (y < s.cursor_y || y == s.cursor_y && x <= s.cursor_x)
                    ||| (mode == 2 || mode == 3) && y < s.rows
                } {
                    blank_cell()
                } else {
                    s.grid[y][x]
                }
        }),
{
}

/// `CSI K` is carried out if and only if the grid has every cell that it makes
/// blank.
pub proof fn law_erase_line_accepted(s: Screen, p: Seq<u16>)
    requires
        s.cursor_x >= 0,
    ensures
        ({
            let mode = if p.len() > 0 {
                p[0] as int
            } else {
                0
            };
            s.csi_defined(p, 'K') <==> {
                let end = if mode == 0 && s.cursor_x < s.cols || mode == 2 {
                    s.cols
                } else if mode == 1 {
                    s.cursor_x + 1
                } else {
                    0
                };
                end > 0 ==> 0 <= s.cursor_y < s.grid.len() && end <= s.grid[s.cursor_y].len()
            }
        }),
{
    let mode = if p.len() > 0 {
        p[0] as int
    } else {
        0
    };
    let area = s.area(false, mode);
    assert(area.row_fits(s.grid, s.cursor_y) || !area.row_fits(s.grid, s.cursor_y));
    if area.row_fits(s.grid, s.cursor_y) {
        assert forall|y: int| #[trigger] area.row_fits(s.grid, y) by {}
    }
}

/// `CSI J` is carried out if and only if the grid has every cell that it makes
/// blank.
pub proof fn law_erase_display_accepted(s: Screen, p: Seq<u16>)
    requires
        s.cursor_x >= 0,
        s.cursor_y >= 0,
        s.cols >= 0,
        s.rows >= 0,
    ensures
        ({
            let mode = if p.len() > 0 {
                p[0] as int
            } else {
                0
            };
            s.csi_defined(p, 'J') <==> forall|y: int, x: int|
                0 <= y && 0 <= x < s.cols && {
                    ||| mode == 0 && y < s.rows && (y > s.cursor_y || y == s.cursor_y && x
                        >= s.cursor_x)
                    ||| mode == 1 && (y < s.cursor_y || y == s.cursor_y && x <= s.cursor_x)
                    ||| (mode == 2 || mode == 3) && y < s.rows
                } ==> #[trigger] in_grid(s.grid, y, x)
        }),
        forall|y: int, x: int| #[trigger]
            in_grid(s.grid, y, x) <==> 0 <= y < s.grid.len() && 0 <= x < s.grid[y].len(),
{
    let mode = if p.len() > 0 {
        p[0] as int
    } else {
        0
    };
    let area = s.area(true, mode);
    if area.fits(s.grid) {
        assert forall|y: int, x: int|
            0 <= y && 0 <= x < s.cols && {
                ||| mode == 0 && y < s.rows && (y > s.cursor_y || y == s.cursor_y && x
                    >= s.cursor_x)
                ||| mode == 1 && (y < s.cursor_y || y == s.cursor_y && x <= s.cursor_x)
                ||| (mode == 2 || mode == 3) && y < s.rows
            } implies #[trigger] in_grid(s.grid, y, x) by {
            assert(area.row_fits(s.grid, y));
        }
    } else {
        let y = choose|y: int| !area.row_fits(s.grid, y);
        let x = area.span(y).1 - 1;
        assert(!in_grid(s.grid, y, x));
    }
}

// Inserting and deleting. A missing or zero parameter counts as one.

/// `CSI n L` inserts `n` blank rows at the cursor's row: the rows from there on
/// move down, and those that leave the grid at the bottom are gone. Rows past
/// the height of the screen are cut off. Nothing else changes.
pub proof fn law_insert_lines(s: Screen, p: Seq<u16>, marker: Option<u8>)
    requires
        0 <= s.cursor_y < s.grid.len(),
        s.rows >= 0,
    ensures
        ({
            let n = if p.len() > 0 && p[0] > 0 {
                p[0] as int
            } else {
                1
            };
            let t = s.csi(p, marker, 'L');
            &&& t == (Screen { grid: t.grid, dirty: true, pending_wrap: false, ..s })
            &&& t.grid.len() == if s.rows < s.grid.len() {
                s.rows
            } else {
                s.grid.len() as int
            }
            &&& forall|y: int|
                0 <= y < t.grid.len() ==> #[trigger] t.grid[y] == if y < s.cursor_y {
                    s.grid[y]
                } else if y < s.cursor_y + n {
                    blank_cells(s.cols)
                } else {
                    s.grid[y - n]
                }
        }),
{
}

/// An empty grid gains a single row.
pub proof fn law_insert_lines_empty(s: Screen, p: Seq<u16>, marker: Option<u8>)
    requires
        s.grid.len() == 0,
        s.cursor_y == 0,
        s.rows >= 0,
    ensures
        s.csi(p, marker, 'L') == (Screen {
            grid: if s.rows > 0 {
                seq![blank_cells(s.cols)]
            } else {
                s.grid
            },
            dirty: true,
            pending_wrap: false,
            ..s
        }),
{
    let t = s.csi(p, marker, 'L');
    if s.rows > 0 {
        assert(t.grid =~= seq![blank_cells(s.cols)]);
    } else {
        assert(t.grid =~= s.grid);
    }
}

/// `CSI n M` deletes `n` rows from the cursor's row on: the rows below move up,
/// and blank rows enter at the bottom. Below the grid there is nothing to
/// delete. Rows past the height of the screen are cut off. Nothing else
/// changes.
pub proof fn law_delete_lines(s: Screen, p: Seq<u16>, marker: Option<u8>)
    requires
        s.cursor_y >= 0,
        s.rows >= 0,
    ensures
        ({
            let n = if p.len() > 0 && p[0] > 0 {
                p[0] as int
            } else {
                1
            };
            let t = s.csi(p, marker, 'M');
            &&& t == (Screen { grid: t.grid, dirty: true, pending_wrap: false, ..s })
            &&& t.grid.len() == if s.rows < s.grid.len() {
                s.rows
            } else {
                s.grid.len() as int
            }
            &&& forall|y: int|
                0 <= y < t.grid.len() ==> #[trigger] t.grid[y] == if y < s.cursor_y {
                    s.grid[y]
                } else if y + n < s.grid.len() {
                    s.grid[y + n]
                } else {
                    blank_cells(s.cols)
                }
        }),
{
}

/// `CSI n P` deletes `n` cells from the cursor on: the cells to the right move
/// left, and blank cells enter at the right end of the row. Nothing else
/// changes.
pub proof fn law_delete_cells(s: Screen, p: Seq<u16>, marker: Option<u8>)
    requires
        0 <= s.cursor_y < s.grid.len(),
        s.cursor_x >= 0,
    ensures
        ({
            let n = if p.len() > 0 && p[0] > 0 {
                p[0] as int
            } else {
                1
            };
            let row = s.grid[s.cursor_y];
            let t = s.csi(p, marker, 'P');
            &&& t == (Screen {
                grid: s.grid.update(s.cursor_y, t.grid[s.cursor_y]),
                dirty: true,
                pending_wrap: false,
                ..s
            })
            &&& t.grid[s.cursor_y].len() == row.len()
            &&& forall|x: int|
                0 <= x < row.len() ==> #[trigger] t.grid[s.cursor_y][x] == if x < s.cursor_x {
                    row[x]
                } else if x + n < row.len() {
                    row[x + n]
                } else {
                    blank_cell()
                }
        }),
{
    let t = s.csi(p, marker, 'P');
    assert(t.grid =~= s.grid.update(s.cursor_y, t.grid[s.cursor_y]));
}

/// `CSI n @` inserts `n` blank cells at the cursor: the cells from there on
/// move right, and what is past the last column is cut off. To the right of
/// the row there is nowhere to insert. Nothing else changes.
pub proof fn law_insert_cells(s: Screen, p: Seq<u16>, marker: Option<u8>)
    requires
        0 <= s.cursor_y < s.grid.len(),
        s.cursor_x >= 0,
        s.cols >= 0,
    ensures
        ({
            let n = if p.len() > 0 && p[0] > 0 {
                p[0] as int
            } else {
                1
            };
            let row = s.grid[s.cursor_y];
            let t = s.csi(p, marker, '@');
            let after = t.grid[s.cursor_y];
            &&& t == (Screen {
                grid: s.grid.update(s.cursor_y, after),
                dirty: true,
                pending_wrap: false,
                ..s
            })
            &&& s.cursor_x >= row.len() ==> after == row
            &&& s.cursor_x < row.len() ==> {
                &&& after.len() == if row.len() + n < s.cols {
                    row.len() + n
                } else {
                    s.cols
                }
                &&& forall|x: int|
                    0 <= x < after.len() ==> #[trigger] after[x] == if x < s.cursor_x {
                        row[x]
                    } else if x < s.cursor_x + n {
                        blank_cell()
                    } else {
                        row[x - n]
                    }
            }
        }),
{
    let t = s.csi(p, marker, '@');
    assert(t.grid =~= s.grid.update(s.cursor_y, t.grid[s.cursor_y]));
}

/// Rows and cells can be inserted, and cells deleted, wherever the grid has the
/// cursor's row; rows can be deleted everywhere, and rows inserted at the top
/// of an empty grid. All other control sequences but those that erase are
/// carried out everywhere.
pub proof fn law_edits_accepted(s: Screen, p: Seq<u16>, command: char)
    requires
        s.cursor_y >= 0,
        command != 'J' && command != 'K',
    ensures
        s.csi_defined(p, command) <==> {
            &&& command == 'P' || command == '@' ==> s.cursor_y < s.grid.len()
            &&& command == 'L' ==> s.cursor_y < s.grid.len() || s.cursor_y == 0
        },
{
}

// Scrolling.

/// Scrolling by `n` rows moves every row up by `n`, and blank rows enter at the
/// bottom. The rows that leave at the top follow the history in their order;
/// the history keeps its newest rows, up to its limit. Nothing else changes.
pub proof fn law_scroll(s: Screen, n: int)
    requires
        s.grid.len() > 0,
        n > 0,
    ensures
        ({
            let t = s.scrolled(n);
            let h = s.scrollback.len() as int;
            let kept = if h + n <= s.scrollback_limit {
                h + n
            } else if h <= s.scrollback_limit {
                s.scrollback_limit
            } else {
                h
            };
            &&& t == (Screen { grid: t.grid, scrollback: t.scrollback, dirty: true, ..s })
            &&& t.grid.len() == s.grid.len()
            &&& forall|y: int|
                0 <= y < t.grid.len() ==> #[trigger] t.grid[y] == if y + n < s.grid.len() {
                    s.grid[y + n]
                } else {
                    blank_cells(s.cols)
                }
            &&& t.scrollback.len() == kept
            &&& forall|i: int|
                0 <= i < kept ==> #[trigger] t.scrollback[i] == {
                    let j = i + (h + n - kept);
                    if j < h {
                        s.scrollback[j]
                    } else if j - h < s.grid.len() {
                        s.grid[j - h]
                    } else {
                        blank_cells(s.cols)
                    }
                }
        }),
{
    reveal(Screen::scrolled);
}

/// A screen without rows does not scroll, nor does any screen by no rows.
pub proof fn law_scroll_nothing(s: Screen, n: int)
    requires
        s.grid.len() == 0 || n == 0,
    ensures
        s.scrolled(n) == s,
{
    reveal(Screen::scrolled);
}

/// `CSI n S` scrolls by `n` rows.
pub proof fn law_scroll_sequence(s: Screen, p: Seq<u16>, marker: Option<u8>)
    ensures
        ({
            let n = if p.len() > 0 && p[0] > 0 {
                p[0] as int
            } else {
                1
            };
            s.csi(p, marker, 'S') == (Screen {
                dirty: true,
                pending_wrap: false,
                ..s.scrolled(n)
            })
        }),
{
    reveal(Screen::scrolled);
}

// Sizes.

/// A new size keeps every cell that is on both screens at its place; all other
/// cells are blank. The cursor stays where it is, or goes to the nearest column
/// and row of the new screen. Nothing else changes.
pub proof fn law_resize_cells(s: Screen, cols: int, rows: int)
    requires
        cols >= 0,
        rows >= 0,
        cols != s.cols || rows != s.rows,
    ensures
        ({
            let t = s.resized(cols, rows);
            &&& t == (Screen {
                grid: t.grid,
                cols,
                rows,
                cursor_x: if s.cursor_x < cols {
                    s.cursor_x
                } else if cols > 0 {
                    cols - 1
                } else if s.cursor_x < 0 {
                    s.cursor_x
                } else {
                    0
                },
                cursor_y: if s.cursor_y < rows {
                    s.cursor_y
                } else if rows > 0 {
                    rows - 1
                } else if s.cursor_y < 0 {
                    s.cursor_y
                } else {
                    0
                },
                dirty: true,
                ..s
            })
            &&& t.grid.len() == rows
            &&& forall|y: int| 0 <= y < rows ==> (#[trigger] t.grid[y]).len() == cols
            &&& forall|y: int, x: int|
                0 <= y < rows && 0 <= x < cols ==> #[trigger] t.grid[y][x] == if y < s.rows && x
                    < s.cols {
                    s.grid[y][x]
                } else {
                    blank_cell()
                }
        }),
{
}

/// The size that the screen has already changes nothing, and is not reported.
pub proof fn law_resize_same(s: Screen)
    ensures
        s.resized(s.cols, s.rows) == s,
        s.window_size(s.cols, s.rows) is None,
        s.resize_defined(s.cols, s.rows),
{
}

/// A new size is reported to the pseudo-terminal, if there is one: its rows and
/// its columns, as far as they fit into sixteen bits.
pub proof fn law_resize_reported(s: Screen, cols: int, rows: int)
    requires
        0 <= cols < 65536,
        0 <= rows < 65536,
        cols != s.cols || rows != s.rows,
    ensures
        s.pty_master_fd is None ==> s.window_size(cols, rows) is None,
        s.pty_master_fd is Some ==> s.window_size(cols, rows) == Some(
            WindowSize { fd: s.pty_master_fd->0, ws_row: rows as u16, ws_col: cols as u16 },
        ),
        s.window_size(cols + 65536, rows) == s.window_size(cols, rows) || s.cols == cols + 65536
            && s.rows == rows,
        s.window_size(cols, rows + 65536) == s.window_size(cols, rows) || s.cols == cols && s.rows
            == rows + 65536,
{
}

/// A new size can be taken if and only if the grid has every cell that stays.
pub proof fn law_resize_accepted(s: Screen, cols: int, rows: int)
    requires
        cols != s.cols || rows != s.rows,
    ensures
        s.resize_defined(cols, rows) <==> forall|y: int, x: int|
            0 <= y < rows && y < s.rows && 0 <= x < cols && x < s.cols ==> #[trigger] in_grid(
                s.grid,
                y,
                x,
            ),
{
}

// Whole screens.

/// A new terminal is blank and in the default colours, light grey on nearly black;
/// the cursor is visible and in the first column of the first row, the pen is
/// plain, the history is empty with room for ten thousand rows, no mode is set,
/// and there is no pseudo-terminal yet.
pub proof fn law_initial_state(cols: int, rows: int)
    requires
        cols >= 0,
        rows >= 0,
    ensures
        ({
            let fg = Color { r: 918, g: 918, b: 918, a: 1020 };
            let bg = Color { r: 51, g: 51, b: 51, a: 1020 };
            let t = Screen::initial(cols, rows);
            &&& t == (Screen {
                grid: t.grid,
                cursor_x: 0,
                cursor_y: 0,
                cols,
                rows,
                fg_color: fg,
                bg_color: bg,
                font_size: 160,
                char_width: 96,
                char_height: 200,
                pixel_width: 800,
                pixel_height: 600,
                pty_fd: None,
                saved_cursor_x: 0,
                saved_cursor_y: 0,
                pen: Pen {
                    fg,
                    bg,
                    bold: false,
                    dim: false,
                    italic: false,
                    underline: false,
                    strikethrough: false,
                    reverse: false,
                },
                scrollback: Seq::empty(),
                scrollback_limit: 10000,
                scroll_offset: 0,
                pty_master_fd: None,
                alt_screen: None,
                cursor_visible: true,
                pending_wrap: false,
                bracketed_paste: false,
                focus_reporting: false,
                working_directory: None,
                dirty: true,
            })
            &&& t.grid.len() == rows
            &&& forall|y: int| 0 <= y < rows ==> (#[trigger] t.grid[y]).len() == cols
            &&& forall|y: int, x: int|
                0 <= y < rows && 0 <= x < cols ==> #[trigger] t.grid[y][x] == blank_cell()
        }),
{
}

/// Clearing makes every cell blank, moves the cursor home, and makes the pen
/// draw in the default colours, neither bold nor reversed. Nothing else
/// changes: neither the other attributes nor the history.
pub proof fn law_clear(s: Screen)
    ensures
        ({
            let t = s.cleared();
            &&& t == (Screen {
                grid: t.grid,
                cursor_x: 0,
                cursor_y: 0,
                pen: Pen {
                    fg: s.fg_color,
                    bg: s.bg_color,
                    bold: false,
                    dim: s.pen.dim,
                    italic: s.pen.italic,
                    underline: s.pen.underline,
                    strikethrough: s.pen.strikethrough,
                    reverse: false,
                },
                dirty: true,
                ..s
            })
            &&& t.grid.len() == s.grid.len()
            &&& forall|y: int|
                0 <= y < s.grid.len() ==> (#[trigger] t.grid[y]).len() == s.grid[y].len()
            &&& forall|y: int, x: int|
                0 <= y < s.grid.len() && 0 <= x < s.grid[y].len() ==> #[trigger] t.grid[y][x]
                    == blank_cell()
        }),
{
}

/// Entering the alternate screen puts the grid and the cursor aside and shows a
/// blank screen with the cursor home. On the alternate screen it does nothing.
/// Nothing else changes.
pub proof fn law_alt_enter(s: Screen)
    requires
        s.rows >= 0,
        s.cols >= 0,
    ensures
        s.alt_screen is Some ==> s.alt_entered() == s,
        s.alt_screen is None ==> {
            let t = s.alt_entered();
            &&& t == (Screen {
                grid: t.grid,
                cursor_x: 0,
                cursor_y: 0,
                alt_screen: Some((s.grid, s.cursor_x, s.cursor_y)),
                dirty: true,
                ..s
            })
            &&& t.grid.len() == s.rows
            &&& forall|y: int| 0 <= y < s.rows ==> (#[trigger] t.grid[y]).len() == s.cols
            &&& forall|y: int, x: int|
                0 <= y < s.rows && 0 <= x < s.cols ==> #[trigger] t.grid[y][x] == blank_cell()
        },
{
}

/// Leaving the alternate screen shows the grid and the cursor that were put
/// aside. On the main screen it does nothing. Nothing else changes.
pub proof fn law_alt_exit(s: Screen, grid: Seq<Seq<Cell>>, x: int, y: int)
    ensures
        s.alt_screen is None ==> s.alt_exited() == s,
        s.alt_screen == Some((grid, x, y)) ==> s.alt_exited() == (Screen {
            grid,
            cursor_x: x,
            cursor_y: y,
            alt_screen: None,
            dirty: true,
            ..s
        }),
{
}

/// Asking for a new drawing and drawing change nothing else.
pub proof fn law_touch_and_draw(s: Screen)
    ensures
        s.touched() == (Screen { dirty: true, ..s }),
        s.drawn() == (Screen { dirty: false, ..s }),
{
}

// Private modes.

/// The private mode 25 shows the cursor, 1004 reports the focus, 1049 switches
/// to the alternate screen and back, 2004 marks pastes. `CSI ? h` sets a mode
/// and `CSI ? l` resets it. Any other mode changes nothing.
pub proof fn law_mode(s: Screen, mode: u16)
    ensures
        ({
            let t = Screen { dirty: true, pending_wrap: false, ..s };
            let set = s.csi(seq![mode], Some(0x3fu8), 'h');
            let reset = s.csi(seq![mode], Some(0x3fu8), 'l');
            &&& mode == 25 ==> set == (Screen { cursor_visible: true, ..t }) && reset == (Screen {
                cursor_visible: false,
                ..t
            })
            &&& mode == 1004 ==> set == (Screen { focus_reporting: true, ..t }) && reset == (
            Screen { focus_reporting: false, ..t })
            &&& mode == 1049 ==> set == t.alt_entered() && reset == t.alt_exited()
            &&& mode == 2004 ==> set == (Screen { bracketed_paste: true, ..t }) && reset == (
            Screen { bracketed_paste: false, ..t })
            &&& mode != 25 && mode != 1004 && mode != 1049 && mode != 2004 ==> set == t && reset
                == t
        }),
{
    reveal_with_fuel(Screen::with_modes, 2);
    assert(seq![mode].drop_last() =~= Seq::<u16>::empty());
}

proof fn lemma_modes_concat(s: Screen, first: Seq<u16>, second: Seq<u16>, enable: bool)
    ensures
        s.with_modes(first + second, enable) == s.with_modes(first, enable).with_modes(
            second,
            enable,
        ),
    decreases second.len(),
{
    if second.len() == 0 {
        assert(first + second =~= first);
    } else {
        lemma_modes_concat(s, first, second.drop_last(), enable);
        assert((first + second).drop_last() =~= first + second.drop_last());
    }
}

/// Modes in one sequence are set or reset as in two sequences, in their order.
/// A sequence without modes changes nothing.
pub proof fn law_modes_in_order(s: Screen, first: Seq<u16>, second: Seq<u16>, command: char)
    requires
        command == 'h' || command == 'l',
    ensures
        s.csi(first + second, Some(0x3fu8), command) == s.csi(first, Some(0x3fu8), command).csi(
            second,
            Some(0x3fu8),
            command,
        ),
        s.csi(Seq::empty(), Some(0x3fu8), command) == (Screen {
            dirty: true,
            pending_wrap: false,
            ..s
        }),
{
    let t = s.csi_started();
    lemma_modes_concat(t, first, second, command == 'h');
    lemma_modes_started(t, first, command == 'h');
}

proof fn lemma_modes_started(s: Screen, modes: Seq<u16>, enable: bool)
    requires
        s.dirty,
        !s.pending_wrap,
    ensures
        s.with_modes(modes, enable).csi_started() == s.with_modes(modes, enable),
    decreases modes.len(),
{
    if modes.len() > 0 {
        lemma_modes_started(s, modes.drop_last(), enable);
    }
}

} // verus!
