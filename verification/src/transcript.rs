//! Text over many lines: what was printed stands in the history and on the
//! grid, in its order.

use crate::bounds::greatest;
use crate::cell::Cell;
use crate::grid::blank_rows;
use crate::integrity::{law_print, lemma_wrapped, shaped};
use crate::laws::{law_print_puts, law_scroll_loses_oldest, printed};
use crate::model::{lemma_scrolled_keeps, Screen};
use vstd::arithmetic::div_mod::{
    lemma_div_is_ordered, lemma_fundamental_div_mod, lemma_fundamental_div_mod_converse,
};
use vstd::prelude::*;

verus! {

/// The history and the grid in a row, the oldest row first.
pub open spec fn transcript(s: Screen) -> Seq<Seq<Cell>> {
    s.scrollback + s.grid
}

/// The line that the last of `n` printed characters is in, counted from the
/// line of the cursor.
pub open spec fn last_line(s: Screen, n: int) -> int {
    if n <= 0 {
        0
    } else {
        (s.cursor_x + n - 1) / s.cols
    }
}

/// How often the screen scrolls while `n` characters are printed.
pub open spec fn scrolls(s: Screen, n: int) -> int {
    greatest(s.cursor_y + last_line(s, n) - (s.rows - 1), 0)
}

/// The character of a printed text that belongs into column `x` of row `y` of
/// the transcript.
pub open spec fn text_index(s: Screen, y: int, x: int) -> int {
    let line = y - (s.scrollback.len() + s.cursor_y);
    if line < 0 {
        -1
    } else {
        line * s.cols + x - s.cursor_x
    }
}

/// The transcript before the text, with a blank row for every row that the
/// text makes the screen scroll.
pub open spec fn paper(s: Screen, n: int) -> Seq<Seq<Cell>> {
    transcript(s) + blank_rows(scrolls(s, n), s.cols)
}

/// What column `x` of row `y` of the paper shows once the text is on it.
pub open spec fn inked(s: Screen, text: Seq<char>, y: int, x: int) -> Cell {
    let k = text_index(s, y, x);
    if 0 <= k < text.len() {
        s.pen.cell(text[k])
    } else {
        paper(s, text.len() as int)[y][x]
    }
}

/// How many rows at the top of the paper are gone from the transcript after
/// `n` characters.
pub open spec fn lost_rows(s: Screen, n: int, after: Screen) -> int {
    paper(s, n).len() - transcript(after).len()
}

/// The transcript is the paper with the text on it, but for the oldest rows
/// that are gone.
#[verifier::opaque]
pub open spec fn text_stands(s: Screen, text: Seq<char>, after: Screen) -> bool {
    let page = paper(s, text.len() as int);
    let rows = transcript(after);
    let lost = lost_rows(s, text.len() as int, after);
    &&& lost >= 0
    &&& forall|i: int| 0 <= i < rows.len() ==> (#[trigger] rows[i]).len() == page[i + lost].len()
    &&& forall|i: int, x: int|
        0 <= i < rows.len() && 0 <= x < rows[i].len() ==> #[trigger] rows[i][x] == inked(
            s,
            text,
            i + lost,
            x,
        )
}

/// The place of the cursor after a text.
spec fn cursor_follows(s: Screen, t: Screen, n: int) -> bool {
    let column = (s.cursor_x + n - 1) % s.cols;
    &&& t.well_formed()
    &&& t.cols == s.cols
    &&& t.rows == s.rows
    &&& t.pen == s.pen
    &&& t.scrollback_limit == s.scrollback_limit
    &&& t.cursor_y + scrolls(s, n) == s.cursor_y + last_line(s, n)
    &&& if n == 0 {
        t.cursor_x == s.cursor_x && !t.pending_wrap
    } else if column == s.cols - 1 {
        t.cursor_x == column && t.pending_wrap
    } else {
        t.cursor_x == column + 1 && !t.pending_wrap
    }
}

proof fn lemma_next_place(a: int, cols: int)
    requires
        a >= 0,
        cols > 0,
    ensures
        a % cols == cols - 1 ==> (a + 1) / cols == a / cols + 1 && (a + 1) % cols == 0,
        a % cols != cols - 1 ==> (a + 1) / cols == a / cols && (a + 1) % cols == a % cols + 1,
        0 <= a % cols < cols,
{
    lemma_fundamental_div_mod(a, cols);
    let q = a / cols;
    assert(cols * (q + 1) == cols * q + cols) by (nonlinear_arith);
    assert(q * cols == cols * q) by (nonlinear_arith);
    assert((q + 1) * cols == cols * (q + 1)) by (nonlinear_arith);
    if a % cols == cols - 1 {
        lemma_fundamental_div_mod_converse(a + 1, cols, q + 1, 0);
    } else {
        lemma_fundamental_div_mod_converse(a + 1, cols, q, a % cols + 1);
    }
}

proof fn lemma_cursor(s: Screen, text: Seq<char>)
    requires
        s.well_formed(),
        !s.pending_wrap,
    ensures
        cursor_follows(s, printed(s, text), text.len() as int),
    decreases text.len(),
{
    let n = text.len() as int;
    if n > 0 {
        let t = printed(s, text.drop_last());
        lemma_cursor(s, text.drop_last());
        law_print(t, text.last());
        lemma_wrapped(t);
        lemma_scrolled_keeps(t, 1);
        if n > 1 {
            lemma_next_place(s.cursor_x + n - 2, s.cols);
        } else {
            lemma_fundamental_div_mod_converse(s.cursor_x, s.cols, 0, s.cursor_x);
        }
    } else {
        assert(text =~= Seq::empty());
    }
}

/// Making a wrap that is due keeps the transcript, but for a blank row at its
/// end and the oldest row, when the screen scrolls.
pub proof fn law_wrap_keeps(t: Screen)
    requires
        t.well_formed(),
    ensures
        ({
            let w = t.wrapped();
            let rows: int = if t.pending_wrap && t.cursor_y == t.rows - 1 {
                1
            } else {
                0
            };
            let before = transcript(t) + blank_rows(rows, t.cols);
            let lost = before.len() - transcript(w).len();
            &&& lost >= 0
            &&& transcript(w) == before.skip(lost)
            &&& t.scrollback.len() + rows <= t.scrollback_limit ==> lost == 0
            &&& lost <= rows
        }),
{
    lemma_scrolled_keeps(t, 1);
    if t.pending_wrap && t.cursor_y == t.rows - 1 {
        law_scroll_loses_oldest(t, 1);
        reveal(Screen::scrolled);
    } else {
        assert(transcript(t) + blank_rows(0, t.cols) =~= transcript(t));
        assert(transcript(t).skip(0) =~= transcript(t));
    }
}

/// Only one place of the paper belongs to a character.
proof fn lemma_place(s: Screen, k: int, y: int, x: int)
    requires
        s.well_formed(),
        k >= 0,
        0 <= x < s.cols,
    ensures
        ({
            let line = (s.cursor_x + k) / s.cols;
            let column = (s.cursor_x + k) % s.cols;
            &&& 0 <= line
            &&& 0 <= column < s.cols
            &&& text_index(s, y, x) == k <==> y == s.scrollback.len() + s.cursor_y + line && x
                == column
            &&& y > s.scrollback.len() + s.cursor_y + line ==> text_index(s, y, x) > k
        }),
{
    let a = s.cursor_x + k;
    let cols = s.cols;
    let line = y - (s.scrollback.len() + s.cursor_y);
    lemma_fundamental_div_mod(a, cols);
    assert((a / cols) * cols == cols * (a / cols)) by (nonlinear_arith);
    assert(0 <= a / cols) by (nonlinear_arith)
        requires
            a >= 0,
            cols > 0,
    ;
    if line >= 0 && line * cols + x == a {
        lemma_fundamental_div_mod_converse(a, cols, line, x);
    }
    if line > a / cols {
        let q = a / cols;
        assert(line * cols >= q * cols + cols) by (nonlinear_arith)
            requires
                line >= q + 1,
                cols > 0,
        ;
    }
}

/// What a text that stands says of one place.
proof fn lemma_stands_at(s: Screen, text: Seq<char>, after: Screen, i: int, x: int)
    requires
        text_stands(s, text, after),
        0 <= i < transcript(after).len(),
    ensures
        ({
            let n = text.len() as int;
            let y = i + lost_rows(s, n, after);
            &&& lost_rows(s, n, after) >= 0
            &&& transcript(after)[i].len() == paper(s, n)[y].len()
            &&& 0 <= x < transcript(after)[i].len() ==> transcript(after)[i][x] == inked(
                s,
                text,
                y,
                x,
            )
        }),
{
    reveal(text_stands);
    let row = transcript(after)[i];
    let cell = transcript(after)[i][x];
}

/// From the screen `t`, by way of the screen `w` on which a wrap that was due
/// is made, the `n`th character leads to the screen `u`.
spec fn leads_to(s: Screen, n: int, t: Screen, w: Screen, u: Screen) -> bool {
    let more = scrolls(s, n) - scrolls(s, n - 1);
    let added = lost_rows(s, n, u) - lost_rows(s, n - 1, t);
    &&& 0 <= more <= 1
    &&& 0 <= added
    &&& transcript(w) == (transcript(t) + blank_rows(more, s.cols)).skip(added)
    &&& w.scrollback == u.scrollback
    &&& shaped(w.grid, s.cols, s.rows)
    &&& shaped(u.grid, s.cols, s.rows)
    &&& paper(s, n) == paper(s, n - 1) + blank_rows(more, s.cols)
    &&& paper(s, n - 1).len() == s.scrollback.len() + s.rows + scrolls(s, n - 1)
    &&& 0 <= w.cursor_y < s.rows
    &&& w.cursor_x == (s.cursor_x + n - 1) % s.cols
    &&& w.cursor_y + scrolls(s, n) == s.cursor_y + last_line(s, n)
    &&& transcript(t).len() - s.rows + more <= s.scrollback_limit ==> added == 0
}

proof fn lemma_leads(s: Screen, n: int, t: Screen, c: char)
    requires
        s.well_formed(),
        n > 0,
        cursor_follows(s, t, n - 1),
    ensures
        leads_to(s, n, t, t.wrapped(), t.print(c)),
{
    let more = scrolls(s, n) - scrolls(s, n - 1);
    law_wrap_keeps(t);
    lemma_wrapped(t);
    lemma_scrolled_keeps(t, 1);
    law_print(t, c);
    if n > 1 {
        lemma_next_place(s.cursor_x + n - 2, s.cols);
    } else {
        lemma_fundamental_div_mod_converse(s.cursor_x, s.cols, 0, s.cursor_x);
    }
    assert(paper(s, n) =~= paper(s, n - 1) + blank_rows(more, s.cols));
}

/// A row of the transcript before the last character is put into its place.
proof fn lemma_row(s: Screen, n: int, t: Screen, w: Screen, u: Screen, i: int)
    requires
        leads_to(s, n, t, w, u),
        lost_rows(s, n - 1, t) >= 0,
        0 <= i < transcript(u).len(),
    ensures
        ({
            let y = i + lost_rows(s, n, u);
            let j = y - lost_rows(s, n - 1, t);
            &&& 0 <= j
            &&& transcript(u)[i].len() == transcript(w)[i].len()
            &&& if j < transcript(t).len() {
                transcript(w)[i] == transcript(t)[j] && paper(s, n)[y] == paper(s, n - 1)[y]
            } else {
                &&& transcript(w)[i] == paper(s, n)[y]
                &&& scrolls(s, n) > scrolls(s, n - 1)
                &&& y >= s.scrollback.len() + s.rows + scrolls(s, n) - 1
                &&& paper(s, n)[y].len() == s.cols
            }
        }),
{
    let more = scrolls(s, n) - scrolls(s, n - 1);
    let fed = transcript(t) + blank_rows(more, s.cols);
    let y = i + lost_rows(s, n, u);
    let j = y - lost_rows(s, n - 1, t);
    assert(transcript(w)[i] == fed[j]);
    if i >= w.scrollback.len() {
        assert(transcript(w)[i] == w.grid[i - w.scrollback.len()]);
        assert(transcript(u)[i] == u.grid[i - w.scrollback.len()]);
    }
}

/// No character before the last one belongs below the line of the last one.
proof fn lemma_last_row(s: Screen, n: int, y: int, x: int)
    requires
        s.well_formed(),
        n > 0,
        scrolls(s, n) > scrolls(s, n - 1),
        y >= s.scrollback.len() + s.rows + scrolls(s, n) - 1,
        0 <= x < s.cols,
    ensures
        text_index(s, y, x) >= n - 1,
{
    let a = s.cursor_x + n - 1;
    let line = y - (s.scrollback.len() + s.cursor_y);
    if n > 1 {
        lemma_next_place(a - 1, s.cols);
    } else {
        lemma_fundamental_div_mod_converse(s.cursor_x, s.cols, 0, s.cursor_x);
    }
    lemma_fundamental_div_mod(a, s.cols);
    let q = a / s.cols;
    let cols = s.cols;
    assert(q * cols == cols * q) by (nonlinear_arith);
    assert(line * cols >= q * cols) by (nonlinear_arith)
        requires
            line >= q,
            cols > 0,
    ;
}

/// A cell of the transcript before the last character is put into its place.
proof fn lemma_cell_before(
    s: Screen,
    text: Seq<char>,
    t: Screen,
    w: Screen,
    u: Screen,
    i: int,
    x: int,
)
    requires
        s.well_formed(),
        text.len() > 0,
        leads_to(s, text.len() as int, t, w, u),
        text_stands(s, text.drop_last(), t),
        lost_rows(s, text.len() - 1, t) >= 0,
        0 <= i < transcript(u).len(),
        0 <= x < transcript(u)[i].len(),
    ensures
        ({
            let y = i + lost_rows(s, text.len() as int, u);
            let k = text_index(s, y, x);
            transcript(w)[i][x] == if 0 <= k < text.len() - 1 {
                s.pen.cell(text[k])
            } else {
                paper(s, text.len() as int)[y][x]
            }
        }),
{
    let n = text.len() as int;
    let y = i + lost_rows(s, n, u);
    let j = y - lost_rows(s, n - 1, t);
    lemma_row(s, n, t, w, u, i);
    if j < transcript(t).len() {
        lemma_stands_at(s, text.drop_last(), t, j, x);
    } else {
        lemma_last_row(s, n, y, x);
    }
}

/// The last character does not belong into the history.
proof fn lemma_history_row(s: Screen, n: int, y: int, x: int, i: int, w: Screen)
    requires
        s.well_formed(),
        n > 0,
        0 <= i < w.scrollback.len(),
        y == i + s.scrollback.len() + scrolls(s, n) - w.scrollback.len(),
        w.cursor_y >= 0,
        w.cursor_y + scrolls(s, n) == s.cursor_y + last_line(s, n),
        y >= s.scrollback.len() + s.cursor_y ==> 0 <= x < s.cols,
    ensures
        text_index(s, y, x) != n - 1,
{
    if y >= s.scrollback.len() + s.cursor_y {
        lemma_place(s, n - 1, y, x);
    }
}

/// The rows of the paper from the line of the cursor on are as wide as the
/// screen.
proof fn lemma_paper_width(s: Screen, n: int, y: int)
    requires
        s.well_formed(),
        s.scrollback.len() + s.cursor_y <= y < paper(s, n).len(),
    ensures
        paper(s, n)[y].len() == s.cols,
{
    if y < transcript(s).len() {
        assert(paper(s, n)[y] == s.grid[y - s.scrollback.len()]);
    }
}

/// The last character goes to its place on the paper, and to no other.
proof fn lemma_put(s: Screen, n: int, t: Screen, c: char, i: int, x: int)
    requires
        s.well_formed(),
        n > 0,
        t.well_formed(),
        t.cols == s.cols,
        t.rows == s.rows,
        t.pen == s.pen,
        leads_to(s, n, t, t.wrapped(), t.print(c)),
        0 <= i < transcript(t.print(c)).len(),
        0 <= x < transcript(t.print(c))[i].len(),
        transcript(t.print(c))[i].len() == paper(s, n)[i + lost_rows(s, n, t.print(c))].len(),
    ensures
        transcript(t.print(c))[i][x] == if text_index(s, i + lost_rows(s, n, t.print(c)), x) == n
            - 1 {
            s.pen.cell(c)
        } else {
            transcript(t.wrapped())[i][x]
        },
{
    let u = t.print(c);
    let w = t.wrapped();
    let y = i + lost_rows(s, n, u);
    assert(y == i + s.scrollback.len() + scrolls(s, n) - w.scrollback.len());
    if y >= s.scrollback.len() + s.cursor_y {
        lemma_paper_width(s, n, y);
    }
    if i >= w.scrollback.len() {
        assert(transcript(u)[i] == u.grid[i - w.scrollback.len()]);
        assert(transcript(w)[i] == w.grid[i - w.scrollback.len()]);
        law_print_puts(t, c, i - w.scrollback.len(), x);
        lemma_place(s, n - 1, y, x);
    } else {
        lemma_history_row(s, n, y, x, i, w);
    }
}

/// One more character keeps a text standing.
proof fn lemma_one_more(s: Screen, text: Seq<char>, t: Screen)
    requires
        s.well_formed(),
        text.len() > 0,
        cursor_follows(s, t, text.len() - 1),
        text_stands(s, text.drop_last(), t),
    ensures
        text_stands(s, text, t.print(text.last())),
        leads_to(s, text.len() as int, t, t.wrapped(), t.print(text.last())),
        lost_rows(s, text.len() - 1, t) >= 0,
{
    let n = text.len() as int;
    let w = t.wrapped();
    let u = t.print(text.last());
    lemma_leads(s, n, t, text.last());
    assert(lost_rows(s, n - 1, t) >= 0) by {
        reveal(text_stands);
    }
    let rows = transcript(u);
    let lost = lost_rows(s, n, u);
    assert forall|i: int| 0 <= i < rows.len() implies (#[trigger] rows[i]).len() == paper(s, n)[i
        + lost].len() by {
        lemma_row(s, n, t, w, u, i);
        let j = i + lost - lost_rows(s, n - 1, t);
        if j < transcript(t).len() {
            lemma_stands_at(s, text.drop_last(), t, j, 0);
        }
    }
    assert forall|i: int, x: int|
        0 <= i < rows.len() && 0 <= x < rows[i].len() implies #[trigger] rows[i][x] == inked(
        s,
        text,
        i + lost,
        x,
    ) by {
        let row = rows[i];
        lemma_cell_before(s, text, t, w, u, i, x);
        lemma_put(s, n, t, text.last(), i, x);
    }
    reveal(text_stands);
}

/// Whatever is printed, over however many lines, stands in the history and on
/// the grid afterwards, in its order, drawn with the pen: the transcript is
/// what it was, followed by a blank row for every row by which the screen
/// scrolled, with the text on it from the cursor on. Nothing is lost but the
/// oldest rows, and no row as long as the history has room.
pub proof fn law_text_stands(s: Screen, text: Seq<char>)
    requires
        s.well_formed(),
        !s.pending_wrap,
    ensures
        text_stands(s, text, printed(s, text)),
        s.scrollback.len() + scrolls(s, text.len() as int) <= s.scrollback_limit ==> lost_rows(
            s,
            text.len() as int,
            printed(s, text),
        ) == 0,
    decreases text.len(),
{
    if text.len() == 0 {
        assert(text =~= Seq::empty());
        assert(paper(s, 0) =~= transcript(s));
        reveal(text_stands);
    } else {
        law_text_stands(s, text.drop_last());
        lemma_cursor(s, text.drop_last());
        lemma_one_more(s, text, printed(s, text.drop_last()));
    }
}

/// Every character of a printed text stands at its place in the transcript:
/// as many lines below the cursor, and as many columns to the right, as the
/// text needs up to it. The place moves up by the rows that the history has no
/// room for.
pub proof fn law_text_in_order(s: Screen, text: Seq<char>, k: int)
    requires
        s.well_formed(),
        !s.pending_wrap,
        0 <= k < text.len(),
    ensures
        ({
            let after = transcript(printed(s, text));
            let line = s.scrollback.len() + s.cursor_y + (s.cursor_x + k) / s.cols;
            let i = line - lost_rows(s, text.len() as int, printed(s, text));
            &&& i < after.len()
            &&& i >= 0 ==> after[i][(s.cursor_x + k) % s.cols] == s.pen.cell(text[k])
        }),
{
    let n = text.len() as int;
    let t = printed(s, text);
    let y = s.scrollback.len() + s.cursor_y + (s.cursor_x + k) / s.cols;
    let x = (s.cursor_x + k) % s.cols;
    let i = y - lost_rows(s, n, t);
    law_text_stands(s, text);
    lemma_cursor(s, text);
    lemma_place(s, k, y, 0);
    lemma_place(s, k, y, x);
    lemma_div_is_ordered(s.cursor_x + k, s.cursor_x + n - 1, s.cols);
    if i >= 0 {
        lemma_paper_width(s, n, y);
        lemma_stands_at(s, text, t, i, x);
    }
}

/// A text that follows a full line is printed as on the screen on which the
/// wrap is made already, from the first column on.
pub proof fn law_text_after_wrap(s: Screen, text: Seq<char>)
    requires
        s.well_formed(),
        text.len() > 0,
    ensures
        printed(s, text) == printed(s.wrapped(), text),
        s.wrapped().well_formed(),
        !s.wrapped().pending_wrap,
        s.pending_wrap ==> s.wrapped().cursor_x == 0,
    decreases text.len(),
{
    lemma_wrapped(s);
    if text.len() > 1 {
        law_text_after_wrap(s, text.drop_last());
    } else {
        assert(text.drop_last() =~= Seq::empty());
    }
}

/// A line feed leads to the next line of the transcript, in the same column. A
/// screen that scrolls gets a blank row for it, and loses no row but the
/// oldest one of a full history.
pub proof fn law_line_feed_keeps(s: Screen)
    requires
        s.well_formed(),
    ensures
        ({
            let t = s.execute(10);
            let rows: int = if s.cursor_y == s.rows - 1 {
                1
            } else {
                0
            };
            let before = transcript(s) + blank_rows(rows, s.cols);
            let lost = before.len() - transcript(t).len();
            &&& 0 <= lost <= rows
            &&& transcript(t) == before.skip(lost)
            &&& s.scrollback.len() + rows <= s.scrollback_limit ==> lost == 0
            &&& t.scrollback.len() + t.cursor_y + lost == s.scrollback.len() + s.cursor_y + 1
            &&& t.cursor_x == s.cursor_x
        }),
{
    lemma_scrolled_keeps(s, 1);
    if s.cursor_y == s.rows - 1 {
        law_scroll_loses_oldest(s, 1);
        reveal(Screen::scrolled);
    } else {
        assert(transcript(s) + blank_rows(0, s.cols) =~= transcript(s));
        assert(transcript(s).skip(0) =~= transcript(s));
    }
}

} // verus!
