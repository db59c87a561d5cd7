//! What is seen of every cell: the rectangle behind it, its character, and its
//! style.

use crate::cell::Cell;
use crate::color::{rgba, Color};
use crate::frame::{grid_quads, grid_runs, line_break, row_quads, row_runs, Corner, Run, Style};
use crate::laws::law_row_runs_maximal;
use crate::model::Screen;
use vstd::prelude::*;

verus! {

/// The colour that is seen behind a cell: its background, or in reverse video
/// its text colour; where it has none, the default one.
pub open spec fn seen_behind(cell: Cell, fg: Color, bg: Color) -> Color {
    match (cell.reverse, cell.fg, cell.bg) {
        (true, Some(color), _) => color,
        (true, None, _) => fg,
        (false, _, Some(color)) => color,
        (false, _, None) => bg,
    }
}

/// The colour that the character of a cell is seen in: its text colour, or in
/// reverse video its background; where it has none, the default one.
pub open spec fn seen_in(cell: Cell, fg: Color, bg: Color) -> Color {
    match (cell.reverse, cell.fg, cell.bg) {
        (false, Some(color), _) => color,
        (false, None, _) => fg,
        (true, _, Some(color)) => color,
        (true, _, None) => bg,
    }
}

/// The rectangle of a cell: two triangles, from the top left corner to the
/// top right and the bottom left one, and from the top right corner to the
/// bottom right and the bottom left one.
pub open spec fn rectangle(x: int, y: int, color: Color) -> Seq<Corner> {
    let top_left = Corner { col: x, row: y, right: false, bottom: false, color };
    let top_right = Corner { col: x, row: y, right: true, bottom: false, color };
    let bottom_left = Corner { col: x, row: y, right: false, bottom: true, color };
    let bottom_right = Corner { col: x, row: y, right: true, bottom: true, color };
    seq![top_left, top_right, bottom_left, top_right, bottom_right, bottom_left]
}

/// The corners at place `i` are a rectangle.
pub open spec fn is_rectangle(corners: Seq<Corner>, i: int, x: int, y: int, color: Color) -> bool {
    corners.subrange(6 * i, 6 * i + 6) == rectangle(x, y, color)
}

/// The column of the rectangle at place `i`.
pub open spec fn block_col(corners: Seq<Corner>, i: int) -> int {
    corners[6 * i].col
}

/// The row of the rectangle at place `i`.
pub open spec fn block_row(corners: Seq<Corner>, i: int) -> int {
    corners[6 * i].row
}

/// The rectangle at place `i` is that behind a cell of a grid whose background
/// is not the default one.
pub open spec fn belongs(
    corners: Seq<Corner>,
    grid: Seq<Seq<Cell>>,
    fg: Color,
    bg: Color,
    i: int,
) -> bool {
    let x = block_col(corners, i);
    let y = block_row(corners, i);
    &&& 0 <= y < grid.len()
    &&& 0 <= x < grid[y].len()
    &&& seen_behind(grid[y][x], fg, bg) != bg
    &&& is_rectangle(corners, i, x, y, seen_behind(grid[y][x], fg, bg))
}

/// The rectangle at place `i` comes before that at place `j` in reading order.
pub open spec fn comes_before(corners: Seq<Corner>, i: int, j: int) -> bool {
    ||| block_row(corners, i) < block_row(corners, j)
    ||| block_row(corners, i) == block_row(corners, j) && block_col(corners, i) < block_col(
        corners,
        j,
    )
}

/// The corners hold the rectangle of a cell.
pub open spec fn has_rectangle(corners: Seq<Corner>, x: int, y: int, color: Color) -> bool {
    exists|i: int| 0 <= i < corners.len() / 6 && #[trigger] is_rectangle(corners, i, x, y, color)
}

/// The corners are the rectangles behind the cells of a grid whose background
/// is not the default one, each once, in reading order, and no others.
pub open spec fn fills(corners: Seq<Corner>, grid: Seq<Seq<Cell>>, fg: Color, bg: Color) -> bool {
    &&& corners.len() % 6 == 0
    &&& forall|i: int|
        0 <= i < corners.len() / 6 ==> #[trigger] belongs(corners, grid, fg, bg, i)
    &&& forall|i: int, j: int|
        0 <= i < j < corners.len() / 6 ==> #[trigger] comes_before(corners, i, j)
    &&& forall|y: int, x: int|
        0 <= y < grid.len() && 0 <= x < grid[y].len() && seen_behind(grid[y][x], fg, bg) != bg
            ==> #[trigger] has_rectangle(corners, x, y, seen_behind(grid[y][x], fg, bg))
}

proof fn lemma_blocks(a: Seq<Corner>, b: Seq<Corner>, i: int)
    requires
        a.len() % 6 == 0,
        b.len() % 6 == 0,
        0 <= i < (a + b).len() / 6,
    ensures
        i < a.len() / 6 ==> {
            &&& (a + b).subrange(6 * i, 6 * i + 6) == a.subrange(6 * i, 6 * i + 6)
            &&& (a + b)[6 * i] == a[6 * i]
        },
        i >= a.len() / 6 ==> {
            let j = i - a.len() / 6;
            &&& (a + b).subrange(6 * i, 6 * i + 6) == b.subrange(6 * j, 6 * j + 6)
            &&& (a + b)[6 * i] == b[6 * j]
        },
{
    if i < a.len() / 6 {
        assert((a + b).subrange(6 * i, 6 * i + 6) =~= a.subrange(6 * i, 6 * i + 6));
    } else {
        let j = i - a.len() / 6;
        assert((a + b).subrange(6 * i, 6 * i + 6) =~= b.subrange(6 * j, 6 * j + 6));
    }
}

/// A rectangle that follows those of a grid belongs to a cell that was added
/// behind all others.
proof fn lemma_fills_more(
    a: Seq<Corner>,
    before: Seq<Seq<Cell>>,
    after: Seq<Seq<Cell>>,
    fg: Color,
    bg: Color,
)
    requires
        before.len() > 0,
        after.len() == before.len(),
        forall|y: int| 0 <= y < before.len() - 1 ==> after[y] == before[y],
        after.last().len() > 0,
        before.last() == after.last().drop_last(),
        fills(a, before, fg, bg),
    ensures
        ({
            let color = seen_behind(after.last().last(), fg, bg);
            let more = if color == bg {
                Seq::<Corner>::empty()
            } else {
                rectangle(after.last().len() - 1, after.len() - 1, color)
            };
            fills(a + more, after, fg, bg)
        }),
{
    let n = after.len() - 1;
    let x0 = after.last().len() - 1;
    let color = seen_behind(after.last().last(), fg, bg);
    let more = if color == bg {
        Seq::<Corner>::empty()
    } else {
        rectangle(x0, n, color)
    };
    let all = a + more;
    let m = (a.len() / 6) as int;
    let k = (all.len() / 6) as int;
    assert(all.len() % 6 == 0 && k == if color == bg {
        m
    } else {
        m + 1
    });
    if color != bg {
        lemma_blocks(a, more, m);
        assert(more.subrange(0, 6) =~= more);
    }
    assert forall|i: int| 0 <= i < k implies #[trigger] belongs(all, after, fg, bg, i) by {
        lemma_blocks(a, more, i);
        if i < m {
            assert(belongs(a, before, fg, bg, i));
            let y = block_row(a, i);
            let x = block_col(a, i);
            assert(after[y][x] == before[y][x]);
        }
    }
    assert forall|i: int, j: int| 0 <= i < j < k implies #[trigger] comes_before(all, i, j) by {
        lemma_blocks(a, more, i);
        lemma_blocks(a, more, j);
        assert(belongs(a, before, fg, bg, i));
        if j < m {
            assert(comes_before(a, i, j));
        }
    }
    assert forall|y: int, x: int|
        0 <= y < after.len() && 0 <= x < after[y].len() && seen_behind(after[y][x], fg, bg)
            != bg implies #[trigger] has_rectangle(all, x, y, seen_behind(after[y][x], fg, bg)) by {
        let c = seen_behind(after[y][x], fg, bg);
        if y == n && x == x0 {
            assert(is_rectangle(all, m, x, y, c));
        } else {
            assert(after[y][x] == before[y][x]);
            assert(has_rectangle(a, x, y, c));
            let i = choose|i: int|
                0 <= i < a.len() / 6 && #[trigger] is_rectangle(a, i, x, y, c);
            lemma_blocks(a, more, i);
            assert(is_rectangle(all, i, x, y, c));
        }
    }
}

/// An empty row adds no rectangle.
proof fn lemma_fills_empty_row(a: Seq<Corner>, grid: Seq<Seq<Cell>>, fg: Color, bg: Color)
    requires
        fills(a, grid, fg, bg),
    ensures
        fills(a, grid.push(Seq::empty()), fg, bg),
{
    let after = grid.push(Seq::empty());
    assert forall|i: int| 0 <= i < a.len() / 6 implies #[trigger] belongs(
        a,
        after,
        fg,
        bg,
        i,
    ) by {
        assert(belongs(a, grid, fg, bg, i));
        assert(after[block_row(a, i)] == grid[block_row(a, i)]);
    }
    assert forall|y: int, x: int|
        0 <= y < after.len() && 0 <= x < after[y].len() && seen_behind(after[y][x], fg, bg)
            != bg implies #[trigger] has_rectangle(a, x, y, seen_behind(after[y][x], fg, bg)) by {
        assert(y < grid.len());
        assert(after[y] == grid[y]);
    }
}

proof fn lemma_fills_row(
    a: Seq<Corner>,
    grid: Seq<Seq<Cell>>,
    row: Seq<Cell>,
    fg: Color,
    bg: Color,
)
    requires
        fills(a, grid, fg, bg),
    ensures
        fills(a + row_quads(row, grid.len() as int, fg, bg), grid.push(row), fg, bg),
    decreases row.len(),
{
    let n = grid.len() as int;
    if row.len() == 0 {
        assert(row =~= Seq::empty());
        assert(a + row_quads(row, n, fg, bg) =~= a);
        lemma_fills_empty_row(a, grid, fg, bg);
    } else {
        let rest = row.drop_last();
        let b = row_quads(rest, n, fg, bg);
        let color = seen_behind(row.last(), fg, bg);
        lemma_fills_row(a, grid, rest, fg, bg);
        lemma_fills_more(a + b, grid.push(rest), grid.push(row), fg, bg);
        if color == bg {
            assert(a + row_quads(row, n, fg, bg) =~= a + b + Seq::<Corner>::empty());
        } else {
            assert(a + row_quads(row, n, fg, bg) =~= a + b + rectangle(row.len() - 1, n, color));
        }
    }
}

proof fn lemma_fills(grid: Seq<Seq<Cell>>, fg: Color, bg: Color)
    ensures
        fills(grid_quads(grid, fg, bg), grid, fg, bg),
    decreases grid.len(),
{
    if grid.len() > 0 {
        let rest = grid.drop_last();
        lemma_fills(rest, fg, bg);
        lemma_fills_row(grid_quads(rest, fg, bg), rest, grid.last(), fg, bg);
        assert(rest.push(grid.last()) =~= grid);
    }
}

/// A picture has a rectangle behind a cell if and only if the colour that is
/// seen there is not the default background, whatever the character of the cell
/// is. It has each once, in reading order. A visible cursor comes last, over the
/// others: a rectangle in white, half transparent. There are no other
/// rectangles.
pub proof fn law_backgrounds_shown(s: Screen)
    ensures
        ({
            let corners = s.picture().corners;
            let n = corners.len();
            &&& s.cursor_visible ==> n >= 6 && fills(
                corners.take(n - 6),
                s.grid,
                s.fg_color,
                s.bg_color,
            ) && corners.skip(n - 6) == rectangle(
                s.cursor_x,
                s.cursor_y,
                Color { r: 1020, g: 1020, b: 1020, a: 510 },
            )
            &&& !s.cursor_visible ==> fills(corners, s.grid, s.fg_color, s.bg_color)
        }),
{
    let corners = s.picture().corners;
    let cells = grid_quads(s.grid, s.fg_color, s.bg_color);
    let n = corners.len();
    lemma_fills(s.grid, s.fg_color, s.bg_color);
    if s.cursor_visible {
        assert(corners.take(n - 6) =~= cells);
        assert(corners.skip(n - 6) =~= rectangle(
            s.cursor_x,
            s.cursor_y,
            Color { r: 1020, g: 1020, b: 1020, a: 510 },
        ));
    }
}

/// Behind a single cell: its rectangle is in the picture exactly when the
/// colour that is seen there is not the default background.
pub proof fn law_background_shown(s: Screen, y: int, x: int)
    requires
        0 <= y < s.grid.len(),
        0 <= x < s.grid[y].len(),
        !s.cursor_visible,
    ensures
        ({
            let color = seen_behind(s.grid[y][x], s.fg_color, s.bg_color);
            has_rectangle(s.picture().corners, x, y, color) <==> color != s.bg_color
        }),
{
    let corners = s.picture().corners;
    let color = seen_behind(s.grid[y][x], s.fg_color, s.bg_color);
    law_backgrounds_shown(s);
    if has_rectangle(corners, x, y, color) {
        let i = choose|i: int|
            0 <= i < corners.len() / 6 && #[trigger] is_rectangle(corners, i, x, y, color);
        assert(belongs(corners, s.grid, s.fg_color, s.bg_color, i));
        assert(corners[6 * i] == corners.subrange(6 * i, 6 * i + 6)[0]);
    }
}

/// The characters of runs in a row, each with its style.
pub open spec fn styled(runs: Seq<Run>) -> Seq<(char, Option<Style>)>
    decreases runs.len(),
{
    if runs.len() == 0 {
        Seq::empty()
    } else {
        let run = runs.last();
        styled(runs.drop_last()) + Seq::new(run.text.len(), |i: int| (run.text[i], run.style))
    }
}

/// The characters of a row of cells, each with its style: bold if the cell is
/// bold, and in the colour that it is seen in.
pub open spec fn styled_row(row: Seq<Cell>, fg: Color, bg: Color) -> Seq<(char, Option<Style>)> {
    Seq::new(
        row.len(),
        |x: int|
            (
                row[x].ch,
                Some(Style { bold: row[x].bold, color: rgba(seen_in(row[x], fg, bg)) }),
            ),
    )
}

/// The characters of a grid, each with its style, with a line break without a
/// style after every row.
pub open spec fn styled_grid(grid: Seq<Seq<Cell>>, fg: Color, bg: Color) -> Seq<
    (char, Option<Style>),
>
    decreases grid.len(),
{
    if grid.len() == 0 {
        Seq::empty()
    } else {
        (styled_grid(grid.drop_last(), fg, bg) + styled_row(grid.last(), fg, bg)).push(
            ('\n', None),
        )
    }
}

proof fn lemma_styled_push(runs: Seq<Run>, run: Run)
    ensures
        styled(runs.push(run)) == styled(runs) + Seq::new(
            run.text.len(),
            |i: int| (run.text[i], run.style),
        ),
{
    assert(runs.push(run).drop_last() =~= runs);
}

proof fn lemma_styled_concat(a: Seq<Run>, b: Seq<Run>)
    ensures
        styled(a + b) == styled(a) + styled(b),
    decreases b.len(),
{
    if b.len() == 0 {
        assert(a + b =~= a);
        assert(styled(a) + styled(b) =~= styled(a));
    } else {
        lemma_styled_concat(a, b.drop_last());
        assert((a + b).drop_last() =~= a + b.drop_last());
        assert(styled(a + b) =~= styled(a) + styled(b));
    }
}

proof fn lemma_styled_row(row: Seq<Cell>, fg: Color, bg: Color)
    ensures
        styled(row_runs(row, fg, bg)) == styled_row(row, fg, bg),
    decreases row.len(),
{
    if row.len() == 0 {
        assert(styled(row_runs(row, fg, bg)) =~= styled_row(row, fg, bg));
    } else {
        let before = row_runs(row.drop_last(), fg, bg);
        let cell = row.last();
        let style = Some(Style { bold: cell.bold, color: rgba(seen_in(cell, fg, bg)) });
        lemma_styled_row(row.drop_last(), fg, bg);
        assert(styled_row(row, fg, bg) =~= styled_row(row.drop_last(), fg, bg).push(
            (cell.ch, style),
        ));
        if before.len() > 0 && before.last().style == style {
            let run = Run { text: before.last().text.push(cell.ch), style };
            lemma_styled_push(before.drop_last(), run);
            assert(styled(before.drop_last().push(run)) =~= styled(before).push((cell.ch, style)));
        } else {
            let run = Run { text: seq![cell.ch], style };
            lemma_styled_push(before, run);
            assert(styled(before.push(run)) =~= styled(before).push((cell.ch, style)));
        }
    }
}

proof fn lemma_styled_grid(grid: Seq<Seq<Cell>>, fg: Color, bg: Color)
    ensures
        styled(grid_runs(grid, fg, bg)) == styled_grid(grid, fg, bg),
    decreases grid.len(),
{
    if grid.len() > 0 {
        let before = grid_runs(grid.drop_last(), fg, bg);
        let last = row_runs(grid.last(), fg, bg);
        lemma_styled_grid(grid.drop_last(), fg, bg);
        lemma_styled_row(grid.last(), fg, bg);
        lemma_styled_concat(before, last);
        lemma_styled_push(before + last, line_break());
        assert(styled(grid_runs(grid, fg, bg)) =~= styled_grid(grid, fg, bg));
    }
}

/// Every character of the grid is shown in its place, bold or not, and in the
/// colour that it is seen in; every row ends in a line break.
pub proof fn law_text_shown(s: Screen)
    ensures
        styled(s.picture().runs) == styled_grid(s.grid, s.fg_color, s.bg_color),
{
    lemma_styled_grid(s.grid, s.fg_color, s.bg_color);
}

proof fn lemma_runs_maximal(grid: Seq<Seq<Cell>>, fg: Color, bg: Color, i: int)
    requires
        0 <= i < grid_runs(grid, fg, bg).len(),
    ensures
        ({
            let runs = grid_runs(grid, fg, bg);
            &&& runs[i].text.len() > 0
            &&& i > 0 && runs[i].style is Some ==> runs[i].style != runs[i - 1].style
            &&& i == runs.len() - 1 ==> runs[i].style is None
            &&& runs[i].style is None ==> runs[i].text.len() == 1
        }),
    decreases grid.len(),
{
    if grid.len() > 0 {
        let before = grid_runs(grid.drop_last(), fg, bg);
        let last = row_runs(grid.last(), fg, bg);
        let m = before.len() as int;
        if i < m {
            lemma_runs_maximal(grid.drop_last(), fg, bg, i);
        } else if i - m < last.len() {
            law_row_runs_maximal(grid.last(), fg, bg, i - m);
            lemma_row_runs_styled(grid.last(), fg, bg, i - m);
            if i == m && m > 0 {
                lemma_runs_maximal(grid.drop_last(), fg, bg, m - 1);
            }
        }
    }
}

proof fn lemma_row_runs_styled(row: Seq<Cell>, fg: Color, bg: Color, i: int)
    requires
        0 <= i < row_runs(row, fg, bg).len(),
    ensures
        row_runs(row, fg, bg)[i].style is Some,
    decreases row.len(),
{
    if row.len() > 0 {
        let before = row_runs(row.drop_last(), fg, bg);
        if i < before.len() {
            lemma_row_runs_styled(row.drop_last(), fg, bg, i);
        }
    }
}

/// Runs are as long as can be: no run is empty, and a run with a style follows
/// none of the same style. A line break is a run by itself.
pub proof fn law_runs_maximal(s: Screen, i: int)
    requires
        0 <= i < s.picture().runs.len(),
    ensures
        ({
            let runs = s.picture().runs;
            &&& runs[i].text.len() > 0
            &&& i > 0 && runs[i].style is Some ==> runs[i].style != runs[i - 1].style
            &&& runs[i].style is None ==> runs[i].text.len() == 1
        }),
{
    lemma_runs_maximal(s.grid, s.fg_color, s.bg_color, i);
}

} // verus!
