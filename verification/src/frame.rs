//! What a terminal shows: runs of text in one style, and the corners of the
//! rectangles behind the text.

use crate::cell::Cell;
use crate::color::{rgba, Color, Rgba, FULL};
use crate::grid::grid_view;
use crate::model::Screen;
use crate::terminal::TerminalState;
use vstd::prelude::*;

verus! {

/// Appends a character to a string: `std::string::String::push`, which is
/// documented to append the given character to the end.
pub assume_specification[ String::push ](s: &mut String, c: char)
    ensures
        final(s)@ == old(s)@.push(c),
;

/// How a run of text is drawn.
#[derive(Clone, Copy, Debug, PartialEq, Eq, Structural)]
pub struct Style {
    pub bold: bool,
    pub color: Rgba,
}

/// A run of text in one style. A line break has no style of its own.
#[derive(Debug, PartialEq)]
pub struct Span {
    pub text: String,
    pub style: Option<Style>,
}

/// A run of text, as a value.
pub struct Run {
    pub text: Seq<char>,
    pub style: Option<Style>,
}

/// A corner of the rectangle of a cell, to be filled with a colour.
#[derive(Clone, Copy, Debug, PartialEq)]
pub struct Vertex {
    pub col: usize,
    pub row: usize,
    pub right: bool,
    pub bottom: bool,
    pub color: Color,
}

/// A corner of the rectangle of a cell, as a value.
pub struct Corner {
    pub col: int,
    pub row: int,
    pub right: bool,
    pub bottom: bool,
    pub color: Color,
}

/// What a terminal shows.
#[derive(Debug, PartialEq)]
pub struct Frame {
    pub spans: Vec<Span>,
    pub vertices: Vec<Vertex>,
}

/// What a terminal shows, as a value.
pub struct Picture {
    pub runs: Seq<Run>,
    pub corners: Seq<Corner>,
}

impl View for Span {
    type V = Run;

    open spec fn view(&self) -> Run {
        Run { text: self.text@, style: self.style }
    }
}

impl View for Vertex {
    type V = Corner;

    open spec fn view(&self) -> Corner {
        Corner {
            col: self.col as int,
            row: self.row as int,
            right: self.right,
            bottom: self.bottom,
            color: self.color,
        }
    }
}

impl View for Frame {
    type V = Picture;

    open spec fn view(&self) -> Picture {
        Picture { runs: runs_of(self.spans@), corners: corners_of(self.vertices@) }
    }
}

/// Runs of text, as values.
pub open spec fn runs_of(spans: Seq<Span>) -> Seq<Run> {
    Seq::new(spans.len(), |i: int| spans[i]@)
}

/// Corners, as values.
pub open spec fn corners_of(vertices: Seq<Vertex>) -> Seq<Corner> {
    Seq::new(vertices.len(), |i: int| vertices[i]@)
}

/// A colour, or the default where there is none.
pub open spec fn color_or(c: Option<Color>, default: Color) -> Color {
    match c {
        Some(c) => c,
        None => default,
    }
}

/// The colour behind the text of a cell.
pub open spec fn cell_background(cell: Cell, fg: Color, bg: Color) -> Color {
    if cell.reverse {
        color_or(cell.fg, fg)
    } else {
        color_or(cell.bg, bg)
    }
}

/// The colour of the text of a cell.
pub open spec fn cell_foreground(cell: Cell, fg: Color, bg: Color) -> Color {
    if cell.reverse {
        color_or(cell.bg, bg)
    } else {
        color_or(cell.fg, fg)
    }
}

/// The style of the text of a cell.
pub open spec fn cell_style(cell: Cell, fg: Color, bg: Color) -> Style {
    Style { bold: cell.bold, color: rgba(cell_foreground(cell, fg, bg)) }
}

/// The text of a row as runs: a cell joins the run before it when it has the
/// same style.
pub open spec fn row_runs(row: Seq<Cell>, fg: Color, bg: Color) -> Seq<Run>
    decreases row.len(),
{
    if row.len() == 0 {
        Seq::empty()
    } else {
        let before = row_runs(row.drop_last(), fg, bg);
        let style = cell_style(row.last(), fg, bg);
        if before.len() > 0 && before.last().style == Some(style) {
            before.drop_last().push(
                Run { text: before.last().text.push(row.last().ch), style: Some(style) },
            )
        } else {
            before.push(Run { text: seq![row.last().ch], style: Some(style) })
        }
    }
}

/// The run that ends a line.
pub open spec fn line_break() -> Run {
    Run { text: seq!['\n'], style: None }
}

/// The text of a grid as runs, with a line break after every row.
pub open spec fn grid_runs(grid: Seq<Seq<Cell>>, fg: Color, bg: Color) -> Seq<Run>
    decreases grid.len(),
{
    if grid.len() == 0 {
        Seq::empty()
    } else {
        (grid_runs(grid.drop_last(), fg, bg) + row_runs(grid.last(), fg, bg)).push(line_break())
    }
}

/// The two triangles that fill the rectangle of a cell.
pub open spec fn quad(col: int, row: int, color: Color) -> Seq<Corner> {
    seq![
        Corner { col, row, right: false, bottom: false, color },
        Corner { col, row, right: true, bottom: false, color },
        Corner { col, row, right: false, bottom: true, color },
        Corner { col, row, right: true, bottom: false, color },
        Corner { col, row, right: true, bottom: true, color },
        Corner { col, row, right: false, bottom: true, color },
    ]
}

/// The rectangles behind the cells of row `y`: those of the cells whose
/// background is not the default one.
pub open spec fn row_quads(row: Seq<Cell>, y: int, fg: Color, bg: Color) -> Seq<Corner>
    decreases row.len(),
{
    if row.len() == 0 {
        Seq::empty()
    } else {
        let before = row_quads(row.drop_last(), y, fg, bg);
        let color = cell_background(row.last(), fg, bg);
        if color == bg {
            before
        } else {
            before + quad(row.len() - 1, y, color)
        }
    }
}

/// The rectangles behind the cells of a grid.
pub open spec fn grid_quads(grid: Seq<Seq<Cell>>, fg: Color, bg: Color) -> Seq<Corner>
    decreases grid.len(),
{
    if grid.len() == 0 {
        Seq::empty()
    } else {
        grid_quads(grid.drop_last(), fg, bg) + row_quads(grid.last(), grid.len() - 1, fg, bg)
    }
}

/// The colour of the cursor: white, half transparent.
pub open spec fn cursor_color() -> Color {
    Color { r: FULL, g: FULL, b: FULL, a: 510 }
}

impl Screen {
    /// What the screen shows: its text, the backgrounds, and the cursor on top
    /// of them unless it is hidden.
    pub open spec fn picture(self) -> Picture {
        let cells = grid_quads(self.grid, self.fg_color, self.bg_color);
        Picture {
            runs: grid_runs(self.grid, self.fg_color, self.bg_color),
            corners: if self.cursor_visible {
                cells + quad(self.cursor_x, self.cursor_y, cursor_color())
            } else {
                cells
            },
        }
    }

    /// The screen after it was drawn.
    pub open spec fn drawn(self) -> Screen {
        Screen { dirty: false, ..self }
    }
}

fn background_of(cell: &Cell, fg: Color, bg: Color) -> (c: Color)
    ensures
        c == cell_background(*cell, fg, bg),
{
    if cell.reverse {
        pick(cell.fg, fg)
    } else {
        pick(cell.bg, bg)
    }
}

fn pick(c: Option<Color>, default: Color) -> (r: Color)
    ensures
        r == color_or(c, default),
{
    match c {
        Some(c) => c,
        None => default,
    }
}

fn style_of(cell: &Cell, fg: Color, bg: Color) -> (s: Style)
    ensures
        s == cell_style(*cell, fg, bg),
{
    let color: Color = if cell.reverse {
        pick(cell.bg, bg)
    } else {
        pick(cell.fg, fg)
    };
    Style { bold: cell.bold, color: color.to_rgba() }
}

fn text_of(c: char) -> (s: String)
    ensures
        s@ == seq![c],
{
    let mut s: String = String::new();
    s.push(c);
    assert(s@ =~= seq![c]);
    s
}

proof fn lemma_runs_push(spans: Seq<Span>, span: Span)
    ensures
        runs_of(spans.push(span)) == runs_of(spans).push(span@),
{
    assert(runs_of(spans.push(span)) =~= runs_of(spans).push(span@));
}

/// Appends the text of a row to `spans`.
fn push_row_runs(spans: &mut Vec<Span>, row: &Vec<Cell>, fg: Color, bg: Color)
    ensures
        runs_of(final(spans)@) == runs_of(old(spans)@) + row_runs(row@, fg, bg),
{
    let ghost start = runs_of(spans@);
    if row.len() == 0 {
        assert(start =~= start + row_runs(row@, fg, bg));
        return;
    }
    let mut text: String = text_of(row[0].ch);
    let mut style: Style = style_of(&row[0], fg, bg);
    proof {
        reveal_with_fuel(row_runs, 2);
        assert(row@.take(1).drop_last() =~= Seq::empty());
        assert(runs_of(spans@).push(Run { text: text@, style: Some(style) }) =~= start + row_runs(
            row@.take(1),
            fg,
            bg,
        ));
    }
    for i in 1..row.len()
        invariant
            row@.len() > 0,
            runs_of(spans@).push(Run { text: text@, style: Some(style) }) == start + row_runs(
                row@.take(i as int),
                fg,
                bg,
            ),
            row_runs(row@.take(i as int), fg, bg).len() > 0,
    {
        let ghost prefix = row@.take(i as int);
        let ghost before = row_runs(prefix, fg, bg);
        let ghost shown = runs_of(spans@);
        let ghost run = Run { text: text@, style: Some(style) };
        proof {
            assert(row@.take(i + 1).drop_last() =~= prefix);
            assert((start + before).last() == before.last());
            assert(shown.push(run).last() == run);
            assert(shown =~= start + before.drop_last()) by {
                assert(shown.push(run).drop_last() =~= shown);
                assert((start + before).drop_last() =~= start + before.drop_last());
            }
        }
        let next: Style = style_of(&row[i], fg, bg);
        if next == style {
            text.push(row[i].ch);
            assert(runs_of(spans@).push(Run { text: text@, style: Some(style) }) =~= start
                + row_runs(row@.take(i + 1), fg, bg));
        } else {
            proof {
                lemma_runs_push(spans@, Span { text, style: Some(style) });
            }
            spans.push(Span { text, style: Some(style) });
            text = text_of(row[i].ch);
            style = next;
            assert(runs_of(spans@).push(Run { text: text@, style: Some(style) }) =~= start
                + row_runs(row@.take(i + 1), fg, bg));
        }
    }
    assert(row@.take(row@.len() as int) =~= row@);
    proof {
        lemma_runs_push(spans@, Span { text, style: Some(style) });
    }
    spans.push(Span { text, style: Some(style) });
}

/// Appends the rectangle of a cell to `vertices`.
fn push_quad(vertices: &mut Vec<Vertex>, col: usize, row: usize, color: Color)
    ensures
        corners_of(final(vertices)@) == corners_of(old(vertices)@) + quad(
            col as int,
            row as int,
            color,
        ),
{
    vertices.push(Vertex { col, row, right: false, bottom: false, color });
    vertices.push(Vertex { col, row, right: true, bottom: false, color });
    vertices.push(Vertex { col, row, right: false, bottom: true, color });
    vertices.push(Vertex { col, row, right: true, bottom: false, color });
    vertices.push(Vertex { col, row, right: true, bottom: true, color });
    vertices.push(Vertex { col, row, right: false, bottom: true, color });
    assert(corners_of(vertices@) =~= corners_of(old(vertices)@) + quad(
        col as int,
        row as int,
        color,
    ));
}

/// Appends the rectangles behind the cells of row `y` to `vertices`.
fn push_row_quads(vertices: &mut Vec<Vertex>, row: &Vec<Cell>, y: usize, fg: Color, bg: Color)
    ensures
        corners_of(final(vertices)@) == corners_of(old(vertices)@) + row_quads(
            row@,
            y as int,
            fg,
            bg,
        ),
{
    let ghost start = corners_of(vertices@);
    assert(start =~= start + row_quads(row@.take(0), y as int, fg, bg));
    for x in 0..row.len()
        invariant
            corners_of(vertices@) == start + row_quads(row@.take(x as int), y as int, fg, bg),
    {
        assert(row@.take(x + 1).drop_last() =~= row@.take(x as int));
        let color: Color = background_of(&row[x], fg, bg);
        if color != bg {
            push_quad(vertices, x, y, color);
        }
        assert(corners_of(vertices@) =~= start + row_quads(row@.take(x + 1), y as int, fg, bg));
    }
    assert(row@.take(row@.len() as int) =~= row@);
}

impl TerminalState {
    /// What the terminal shows.
    pub fn frame(&self) -> (frame: Frame)
        ensures
            frame@ == self@.picture(),
    {
        let fg: Color = self.fg_color;
        let bg: Color = self.bg_color;
        let ghost grid = self@.grid;
        let mut spans: Vec<Span> = Vec::new();
        let mut vertices: Vec<Vertex> = Vec::new();
        assert(runs_of(spans@) =~= grid_runs(grid.take(0), fg, bg));
        assert(corners_of(vertices@) =~= grid_quads(grid.take(0), fg, bg));
        for y in 0..self.grid.len()
            invariant
                grid == grid_view(self.grid@),
                runs_of(spans@) == grid_runs(grid.take(y as int), fg, bg),
                corners_of(vertices@) == grid_quads(grid.take(y as int), fg, bg),
        {
            assert(grid.take(y + 1).drop_last() =~= grid.take(y as int));
            assert(grid.take(y + 1).last() == self.grid@[y as int]@);
            push_row_quads(&mut vertices, &self.grid[y], y, fg, bg);
            push_row_runs(&mut spans, &self.grid[y], fg, bg);
            let end: Span = Span { text: text_of('\n'), style: None };
            proof {
                lemma_runs_push(spans@, end);
            }
            spans.push(end);
        }
        assert(grid.take(grid.len() as int) =~= grid);
        if self.cursor_visible {
            let color: Color = Color { r: FULL, g: FULL, b: FULL, a: 510 };
            push_quad(&mut vertices, self.cursor_x, self.cursor_y, color);
        }
        Frame { spans, vertices }
    }

    /// What the terminal shows, if it changed since this was asked last.
    pub fn take_frame(&mut self) -> (frame: Option<Frame>)
        ensures
            final(self)@ == old(self)@.drawn(),
            match frame {
                Some(frame) => old(self).dirty && frame@ == old(self)@.picture(),
                None => !old(self).dirty,
            },
    {
        if !self.dirty {
            return None;
        }
        self.dirty = false;
        Some(self.frame())
    }
}

} // verus!
