//! What the values that go in and out stand for: states, events, frames,
//! selections.

use crate::cell::{Cell, Pen};
use crate::clipboard::{
    cell_index, is_copy, is_paste, line_selected, lines_selected, row_text, text_selected, trimmed,
    Place, Selection,
};
use crate::csi::{groups_view, leading_values};
use crate::frame::{corners_of, runs_of, Corner, Frame, Run, Span, Vertex};
use crate::grid::grid_view;
use crate::integrity::Input;
use crate::model::Screen;
use crate::osc::parts_view;
use crate::reply::PtyWrite;
use crate::stream::{events_view, owned_parts, writes_view, Event};
use crate::terminal::{alt_view, bytes_view, TerminalState};
use crate::window::{key_code, Key};
use vstd::arithmetic::div_mod::lemma_fundamental_div_mod;
use vstd::prelude::*;

verus! {

// States.

/// The value of a state has the fields of the state, each as it is.
pub proof fn law_state_fields(t: TerminalState)
    ensures
        t@.cursor_x == t.cursor_x,
        t@.cursor_y == t.cursor_y,
        t@.cols == t.cols,
        t@.rows == t.rows,
        t@.fg_color == t.fg_color,
        t@.bg_color == t.bg_color,
        t@.font_size == t.font_size,
        t@.char_width == t.char_width,
        t@.char_height == t.char_height,
        t@.pixel_width == t.pixel_width,
        t@.pixel_height == t.pixel_height,
        t@.pty_fd == t.pty_fd,
        t@.pty_master_fd == t.pty_master_fd,
        t@.saved_cursor_x == t.saved_cursor_x,
        t@.saved_cursor_y == t.saved_cursor_y,
        t@.pen == (Pen {
            fg: t.current_fg,
            bg: t.current_bg,
            bold: t.bold,
            dim: t.dim,
            italic: t.italic,
            underline: t.underline,
            strikethrough: t.strikethrough,
            reverse: t.reverse,
        }),
        t@.scrollback_limit == t.scrollback_limit,
        t@.scroll_offset == t.scroll_offset,
        t@.cursor_visible == t.cursor_visible,
        t@.pending_wrap == t.pending_wrap,
        t@.bracketed_paste == t.bracketed_paste,
        t@.focus_reporting == t.focus_reporting,
        t@.dirty == t.dirty,
{
}

/// The grids of a state have the rows and the cells of the state.
pub proof fn law_state_grids(t: TerminalState, y: int)
    ensures
        t@.grid.len() == t.grid@.len(),
        0 <= y < t.grid@.len() ==> t@.grid[y] == t.grid@[y]@,
        t@.scrollback.len() == t.scrollback@.len(),
        0 <= y < t.scrollback@.len() ==> t@.scrollback[y] == t.scrollback@[y]@,
        t.alt_screen is None <==> t@.alt_screen is None,
        t.alt_screen is Some ==> {
            let (grid, cx, cy) = t.alt_screen->0;
            let (seen, x, y0) = t@.alt_screen->0;
            &&& x == cx
            &&& y0 == cy
            &&& seen.len() == grid@.len()
            &&& 0 <= y < grid@.len() ==> seen[y] == grid@[y]@
        },
        t.working_directory is None <==> t@.working_directory is None,
        t.working_directory is Some ==> t@.working_directory == Some(t.working_directory->0@),
{
}

/// Grids, screens that were put aside and bytes stand for what they hold.
pub proof fn law_contents(grid: Vec<Vec<Cell>>, x: usize, y: usize, bytes: Vec<u8>, i: int)
    ensures
        grid_view(grid@).len() == grid@.len(),
        0 <= i < grid@.len() ==> grid_view(grid@)[i] == grid@[i]@,
        alt_view(Some((grid, x, y))) == Some((grid_view(grid@), x as int, y as int)),
        alt_view(None) is None,
        bytes_view(Some(bytes)) == Some(bytes@),
        bytes_view(None) is None,
{
}

// Events.

/// An event stands for what the terminal receives.
pub proof fn law_events(
    c: char,
    byte: u8,
    groups: Vec<Vec<u16>>,
    intermediates: Vec<u8>,
    parts: Vec<Vec<u8>>,
)
    ensures
        Event::Print(c)@ == Input::Print(c),
        Event::Execute(byte)@ == Input::Execute(byte),
        (Event::Csi { groups, intermediates, command: c })@ == Input::Csi(
            leading_values(groups_view(groups@)),
            if intermediates@.len() > 0 {
                Some(intermediates@[0])
            } else {
                None
            },
            c,
        ),
        Event::Osc(parts)@ == Input::Osc(owned_parts(parts@)),
{
}

/// Sequences of events, writes, parts and parameters stand for what they hold,
/// in their order.
pub proof fn law_sequences(
    events: Seq<Event>,
    writes: Seq<PtyWrite>,
    slices: Seq<&[u8]>,
    parts: Seq<Vec<u8>>,
    groups: Seq<Vec<u16>>,
    i: int,
)
    ensures
        events_view(events).len() == events.len(),
        0 <= i < events.len() ==> events_view(events)[i] == events[i]@,
        writes_view(writes).len() == writes.len(),
        0 <= i < writes.len() ==> writes_view(writes)[i] == (writes[i].fd, writes[i].data@),
        parts_view(slices).len() == slices.len(),
        0 <= i < slices.len() ==> parts_view(slices)[i] == slices[i]@,
        owned_parts(parts).len() == parts.len(),
        0 <= i < parts.len() ==> owned_parts(parts)[i] == parts[i]@,
        groups_view(groups).len() == groups.len(),
        0 <= i < groups.len() ==> groups_view(groups)[i] == groups[i]@,
{
}

/// Each kind of input does what its operation does, and is taken in when that
/// operation can be carried out.
pub proof fn law_inputs(s: Screen, c: char, byte: u8, p: Seq<u16>, marker: Option<u8>)
    ensures
        s.after(Input::Print(c)) == s.print(c),
        s.after(Input::Execute(byte)) == s.execute(byte),
        s.after(Input::Csi(p, marker, c)) == s.csi(p, marker, c),
        s.accepts(Input::Print(c)) == s.print_defined(),
        s.accepts(Input::Execute(byte)) == s.execute_defined(byte),
        s.accepts(Input::Csi(p, marker, c)) == s.csi_defined(p, c),
        s.reply(Input::Print(c)) is None,
        s.reply(Input::Execute(byte)) is None,
        s.reply(Input::Csi(p, marker, c)) == s.csi_reply(p, marker, c),
{
}

/// An operating system command does what it does, is always taken in, and is
/// replied to as such.
pub proof fn law_command_input(s: Screen, parts: Seq<Seq<u8>>)
    ensures
        s.after(Input::Osc(parts)) == s.osc(parts),
        s.accepts(Input::Osc(parts)),
        s.reply(Input::Osc(parts)) == s.osc_reply(parts),
{
}

/// A stream of no inputs changes nothing. A stream of one input does what the
/// input does, and its reply is written to the pseudo-terminal if there is one.
pub proof fn law_one_input(s: Screen, input: Input)
    ensures
        s.after_all(Seq::empty()) == s,
        s.replies(Seq::empty()) == Seq::<(i32, Seq<u8>)>::empty(),
        s.accepted(Seq::empty()) == 0,
        s.after_all(seq![input]) == s.after(input),
        s.replies(seq![input]) == match (s.pty_fd, s.reply(input)) {
            (Some(fd), Some(data)) => seq![(fd, data)],
            _ => Seq::empty(),
        },
        s.accepted(seq![input]) == if s.accepts(input) {
            1nat
        } else {
            0nat
        },
{
    reveal_with_fuel(Screen::after_all, 2);
    reveal_with_fuel(Screen::replies, 2);
    reveal_with_fuel(Screen::accepted, 2);
    assert(seq![input].drop_last() =~= Seq::<Input>::empty());
    assert(s.replies(seq![input]) =~= match (s.pty_fd, s.reply(input)) {
        (Some(fd), Some(data)) => seq![(fd, data)],
        _ => Seq::empty(),
    });
}

// Frames.

/// A frame stands for its runs and its corners, each as it is.
pub proof fn law_frames(frame: Frame, span: Span, vertex: Vertex, i: int)
    ensures
        span@ == (Run { text: span.text@, style: span.style }),
        vertex@ == (Corner {
            col: vertex.col as int,
            row: vertex.row as int,
            right: vertex.right,
            bottom: vertex.bottom,
            color: vertex.color,
        }),
        frame@.runs == runs_of(frame.spans@),
        frame@.corners == corners_of(frame.vertices@),
        runs_of(frame.spans@).len() == frame.spans@.len(),
        0 <= i < frame.spans@.len() ==> runs_of(frame.spans@)[i] == frame.spans@[i]@,
        corners_of(frame.vertices@).len() == frame.vertices@.len(),
        0 <= i < frame.vertices@.len() ==> corners_of(frame.vertices@)[i] == frame.vertices@[i]@,
{
}

// Copying and pasting.

/// Trimming takes away the spaces at the end, and nothing else.
pub proof fn law_trimmed(text: Seq<char>)
    ensures
        ({
            let t = trimmed(text);
            &&& t.len() <= text.len()
            &&& t == text.take(t.len() as int)
            &&& forall|i: int| t.len() <= i < text.len() ==> #[trigger] text[i] == ' '
            &&& t.len() > 0 ==> t.last() != ' '
        }),
    decreases text.len(),
{
    if text.len() > 0 && text.last() == ' ' {
        let rest = text.drop_last();
        law_trimmed(rest);
        let t = trimmed(text);
        assert(t =~= text.take(t.len() as int));
        assert forall|i: int| t.len() <= i < text.len() implies #[trigger] text[i] == ' ' by {
            if i < rest.len() {
                assert(rest[i] == text[i]);
            }
        }
    } else {
        assert(text =~= text.take(text.len() as int));
    }
}

/// What is copied from a single row: its characters from the first selected
/// column to the last one, both included, as far as the row goes, without the
/// spaces at the end.
pub proof fn law_copy_row(grid: Seq<Seq<Cell>>, y: usize, from: usize, to: usize)
    requires
        y < grid.len(),
        from <= to,
    ensures
        ({
            let row = grid[y as int];
            let end = if to < row.len() {
                to + 1
            } else {
                row.len() as int
            };
            let start = if from < end {
                from as int
            } else {
                end
            };
            text_selected(
                grid,
                Selection { anchor: Place { x: from, y }, head: Place { x: to, y } },
            ) == trimmed(Seq::new((end - start) as nat, |i: int| row[start + i].ch))
        }),
{
    let row = grid[y as int];
    let end = if to < row.len() {
        to + 1
    } else {
        row.len() as int
    };
    let start = if from < end {
        from as int
    } else {
        end
    };
    assert(row_text(row).subrange(start, end) =~= Seq::new(
        (end - start) as nat,
        |i: int| row[start + i].ch,
    ));
}

/// What is copied from several rows: what the rows before the last one give,
/// to the end of the line, a line break, and what the last row gives, from the
/// start of the line.
pub proof fn law_copy_rows(
    grid: Seq<Seq<Cell>>,
    first: Place,
    last: Place,
    line_end: Place,
    line_start: Place,
)
    requires
        first.y < last.y < grid.len(),
        line_end.y == last.y - 1,
        line_end.x >= grid[line_end.y as int].len(),
        line_end.y == first.y ==> line_end.x >= first.x,
        line_start == (Place { x: 0, y: last.y }),
    ensures
        text_selected(grid, Selection { anchor: first, head: last }) == text_selected(
            grid,
            Selection { anchor: first, head: line_end },
        ).push('\n') + text_selected(grid, Selection { anchor: line_start, head: last }),
{
    lemma_lines_agree(grid, first, last, line_end, line_end.y + 1);
    assert(lines_selected(grid, line_start, last, last.y + 1)
        == line_selected(grid, line_start, last, last.y as int));
    assert(line_selected(grid, line_start, last, last.y as int)
        == line_selected(grid, first, last, last.y as int));
}

proof fn lemma_lines_agree(
    grid: Seq<Seq<Cell>>,
    first: Place,
    last: Place,
    line_end: Place,
    end: int,
)
    requires
        first.y < last.y < grid.len(),
        line_end.y == last.y - 1,
        line_end.x >= grid[line_end.y as int].len(),
        end <= last.y,
    ensures
        lines_selected(grid, first, last, end)
            == lines_selected(grid, first, line_end, end),
    decreases end - first.y,
{
    if end > first.y {
        lemma_lines_agree(grid, first, last, line_end, end - 1);
        assert(line_selected(grid, first, last, end - 1)
            == line_selected(grid, first, line_end, end - 1));
    }
}

/// Rows that the grid does not have give nothing.
pub proof fn law_copy_below_grid(grid: Seq<Seq<Cell>>, first: Place, last: Place, bottom: Place)
    requires
        first.y <= last.y,
        last.y >= grid.len(),
    ensures
        first.y == last.y || first.y >= grid.len() ==> text_selected(
            grid,
            Selection { anchor: first, head: last },
        ) == Seq::<char>::empty(),
        first.y < grid.len() && bottom.y == grid.len() - 1 && bottom.x
            >= grid[bottom.y as int].len() && (bottom.y == first.y ==> bottom.x >= first.x) ==> text_selected(
            grid,
            Selection { anchor: first, head: last },
        ) == text_selected(grid, Selection { anchor: first, head: bottom }),
{
    if first.y < grid.len() && bottom.y == grid.len() - 1 && bottom.x
        >= grid[bottom.y as int].len() {
        lemma_lines_below(grid, first, last, bottom, grid.len() as int);
    }
}

proof fn lemma_lines_below(
    grid: Seq<Seq<Cell>>,
    first: Place,
    last: Place,
    bottom: Place,
    end: int,
)
    requires
        last.y >= grid.len(),
        bottom.y == grid.len() - 1,
        bottom.x >= grid[bottom.y as int].len(),
        end <= grid.len(),
    ensures
        lines_selected(grid, first, last, end)
            == lines_selected(grid, first, bottom, end),
    decreases end - first.y,
{
    if end > first.y {
        lemma_lines_below(grid, first, last, bottom, end - 1);
        assert(line_selected(grid, first, last, end - 1)
            == line_selected(grid, first, bottom, end - 1));
    }
}

/// With Control and Shift, the letter C copies and the letter V pastes, in
/// upper or in lower case. Nothing else does.
pub proof fn law_shortcuts(key: Key, control: bool, shift: bool)
    ensures
        is_copy(key, control, shift) <==> control && shift && (key_code(key) == seq![0x43u8]
            || key_code(key) == seq![0x63u8]),
        is_paste(key, control, shift) <==> control && shift && (key_code(key) == seq![0x56u8]
            || key_code(key) == seq![0x76u8]),
{
}

/// A pasted text is written in UTF-8, between `ESC [ 200 ~` and `ESC [ 201 ~`
/// if the program asked for it. An empty text is not written.
pub proof fn law_paste(s: Screen, text: Seq<char>)
    ensures
        text.len() == 0 ==> s.paste(text) is None,
        text.len() > 0 && !s.bracketed_paste ==> s.paste(text) == Some(
            vstd::utf8::encode_utf8(text),
        ),
        text.len() > 0 && s.bracketed_paste ==> s.paste(text) == Some(
            seq![0x1bu8, 0x5b, 0x32, 0x30, 0x30, 0x7e] + vstd::utf8::encode_utf8(text) + seq![
                0x1bu8,
                0x5b,
                0x32,
                0x30,
                0x31,
                0x7e,
            ],
        ),
{
}

/// A pixel is in the cell that begins at or before it and ends behind it; past
/// the last cell it counts as in the last one.
pub proof fn law_cell_at_pixel(pixel: int, unit: int, count: int)
    requires
        pixel >= 0,
        unit > 0,
        count >= 0,
    ensures
        ({
            let i = cell_index(pixel, unit, count);
            &&& count == 0 ==> i == 0
            &&& count > 0 ==> 0 <= i < count
            &&& count > 0 ==> i * unit <= 10 * pixel
            &&& i < count - 1 ==> 10 * pixel < (i + 1) * unit
        }),
{
    let i = cell_index(pixel, unit, count);
    let a = pixel * 10;
    let q = a / unit;
    lemma_fundamental_div_mod(a, unit);
    assert(unit * q == q * unit) by (nonlinear_arith);
    assert((q + 1) * unit == q * unit + unit) by (nonlinear_arith);
    assert(q >= 0) by (nonlinear_arith)
        requires
            a >= 0,
            unit > 0,
            q == a / unit,
    ;
    if count > 0 {
        assert(i * unit <= q * unit) by (nonlinear_arith)
            requires
                i <= q,
                unit > 0,
        ;
    }
}

} // verus!
