//! Selecting, copying and pasting.

use crate::bounds::{greatest, least};
use crate::cell::Cell;
use crate::laws::{law_print_text, lemma_printed, printed};
use crate::model::Screen;
use crate::reply::{addressed, push_all, write_view, PtyWrite};
use crate::terminal::TerminalState;
use crate::window::{key_bytes, key_code, Key};
use vstd::prelude::*;

verus! {

/// A place on the grid.
#[derive(Clone, Copy, Debug, PartialEq)]
pub struct Place {
    pub x: usize,
    pub y: usize,
}

/// What is selected: from one place to another, in reading order, both
/// included. Either of them may come first.
#[derive(Clone, Copy, Debug, PartialEq)]
pub struct Selection {
    pub anchor: Place,
    pub head: Place,
}

/// What a key press asks for.
#[derive(Debug, PartialEq)]
pub enum KeyAction {
    /// To write to the pseudo-terminal, if there is anything to write.
    Write(Option<PtyWrite>),
    /// To copy the selection.
    Copy,
    /// To paste what was copied.
    Paste,
}

/// The place `a` comes before the place `b` in reading order, or is the same.
pub open spec fn reads_before(a: Place, b: Place) -> bool {
    a.y < b.y || a.y == b.y && a.x <= b.x
}

impl Selection {
    /// The first place in reading order.
    pub open spec fn first(self) -> Place {
        if reads_before(self.anchor, self.head) {
            self.anchor
        } else {
            self.head
        }
    }

    /// The last place in reading order.
    pub open spec fn last(self) -> Place {
        if reads_before(self.anchor, self.head) {
            self.head
        } else {
            self.anchor
        }
    }
}

/// The text without the spaces at its end.
pub open spec fn trimmed(text: Seq<char>) -> Seq<char>
    decreases text.len(),
{
    if text.len() > 0 && text.last() == ' ' {
        trimmed(text.drop_last())
    } else {
        text
    }
}

/// The characters of a row.
pub open spec fn row_text(row: Seq<Cell>) -> Seq<char> {
    Seq::new(row.len(), |x: int| row[x].ch)
}

/// The text of the row `y` that is selected: between the columns where the
/// selection begins and ends, without the spaces at its end.
pub open spec fn line_selected(grid: Seq<Seq<Cell>>, first: Place, last: Place, y: int) -> Seq<
    char,
> {
    let end = if y == last.y {
        least(last.x + 1, grid[y].len() as int)
    } else {
        grid[y].len() as int
    };
    let start = if y == first.y {
        least(first.x as int, end)
    } else {
        0
    };
    trimmed(row_text(grid[y]).subrange(start, end))
}

/// The text of the rows from the first one up to the row before `end`, with
/// line breaks between them.
pub open spec fn lines_selected(
    grid: Seq<Seq<Cell>>,
    first: Place,
    last: Place,
    end: int,
) -> Seq<char>
    decreases end - first.y,
{
    if end <= first.y {
        Seq::empty()
    } else if end == first.y + 1 {
        line_selected(grid, first, last, end - 1)
    } else {
        lines_selected(grid, first, last, end - 1).push('\n') + line_selected(
            grid,
            first,
            last,
            end - 1,
        )
    }
}

/// The text that is selected on a grid. Rows that the grid does not have are
/// left out.
pub open spec fn text_selected(grid: Seq<Seq<Cell>>, selection: Selection) -> Seq<char> {
    lines_selected(
        grid,
        selection.first(),
        selection.last(),
        least(selection.last().y + 1, grid.len() as int),
    )
}

/// The key types the given letter.
pub open spec fn types(key: Key, letter: u8) -> bool {
    key_code(key) == seq![letter]
}

/// The key, held with Control and Shift, copies.
pub open spec fn is_copy(key: Key, control: bool, shift: bool) -> bool {
    control && shift && (types(key, 0x43) || types(key, 0x63))
}

/// The key, held with Control and Shift, pastes.
pub open spec fn is_paste(key: Key, control: bool, shift: bool) -> bool {
    control && shift && (types(key, 0x56) || types(key, 0x76))
}

/// `ESC [ 200 ~`.
pub open spec fn paste_start() -> Seq<u8> {
    seq![0x1bu8, 0x5b, 0x32, 0x30, 0x30, 0x7e]
}

/// `ESC [ 201 ~`.
pub open spec fn paste_end() -> Seq<u8> {
    seq![0x1bu8, 0x5b, 0x32, 0x30, 0x31, 0x7e]
}

impl Screen {
    /// What is written when a text is pasted: the text in UTF-8, between the
    /// marks of a paste if the program asked for them. Of an empty text nothing
    /// is written.
    pub open spec fn paste(self, text: Seq<char>) -> Option<Seq<u8>> {
        if text.len() == 0 {
            None
        } else if self.bracketed_paste {
            Some(paste_start() + vstd::utf8::encode_utf8(text) + paste_end())
        } else {
            Some(vstd::utf8::encode_utf8(text))
        }
    }
}

/// The cell that a pixel is in, counted in cells of `unit` tenths of a pixel:
/// at most the last of `count` cells.
pub open spec fn cell_index(pixel: int, unit: int, count: int) -> int {
    greatest(least(pixel * 10 / unit, count - 1), 0)
}

fn cell_of(pixel: u32, unit: u32, count: usize) -> (i: usize)
    requires
        unit > 0,
    ensures
        i == cell_index(pixel as int, unit as int, count as int),
{
    let i: u64 = pixel as u64 * 10 / unit as u64;
    if count == 0 {
        0
    } else if i < count as u64 {
        i as usize
    } else {
        count - 1
    }
}

/// The column after the last one that is not blank, between two columns.
fn trimmed_end(row: &Vec<Cell>, start: usize, end: usize) -> (stop: usize)
    requires
        start <= end <= row@.len(),
    ensures
        start <= stop <= end,
        row_text(row@).subrange(start as int, stop as int) == trimmed(
            row_text(row@).subrange(start as int, end as int),
        ),
{
    let mut stop: usize = end;
    while stop > start && row[stop - 1].ch == ' '
        invariant
            start <= stop <= end <= row@.len(),
            trimmed(row_text(row@).subrange(start as int, stop as int)) == trimmed(
                row_text(row@).subrange(start as int, end as int),
            ),
        decreases stop,
    {
        let ghost text = row_text(row@).subrange(start as int, stop as int);
        assert(text.drop_last() =~= row_text(row@).subrange(start as int, stop - 1));
        stop = stop - 1;
    }
    stop
}

fn push_row(text: &mut String, row: &Vec<Cell>, start: usize, stop: usize)
    requires
        start <= stop <= row@.len(),
    ensures
        final(text)@ == old(text)@ + row_text(row@).subrange(start as int, stop as int),
{
    let ghost before = text@;
    let ghost all = row_text(row@);
    for x in start..stop
        invariant
            start <= stop <= row@.len(),
            all == row_text(row@),
            text@ == before + all.subrange(start as int, x as int),
    {
        text.push(row[x].ch);
        assert(text@ =~= before + all.subrange(start as int, x + 1));
    }
}

impl TerminalState {
    /// The cell at a pixel of the window.
    pub fn place_at(&self, px: u32, py: u32) -> (place: Place)
        requires
            self.char_width > 0,
            self.char_height > 0,
        ensures
            place.x == cell_index(px as int, self.char_width as int, self.cols as int),
            place.y == cell_index(py as int, self.char_height as int, self.rows as int),
    {
        Place {
            x: cell_of(px, self.char_width, self.cols),
            y: cell_of(py, self.char_height, self.rows),
        }
    }

    /// The text that is selected, to be copied.
    pub fn copy(&self, selection: Selection) -> (text: String)
        ensures
            text@ == text_selected(self@.grid, selection),
    {
        let (a, b): (Place, Place) = (selection.anchor, selection.head);
        let ordered: bool = a.y < b.y || a.y == b.y && a.x <= b.x;
        let (first, last): (Place, Place) = if ordered { (a, b) } else { (b, a) };
        let rows: usize = self.grid.len();
        let end: usize = if last.y < rows { last.y + 1 } else { rows };
        let ghost grid = self@.grid;
        let mut text: String = String::new();
        let mut y: usize = first.y;
        while y < end
            invariant
                grid == self@.grid,
                first == selection.first(),
                last == selection.last(),
                end == least(last.y + 1, grid.len() as int),
                end <= self.grid@.len(),
                first.y <= y,
                y <= end || y == first.y,
                text@ == lines_selected(grid, first, last, y as int),
            decreases end - y,
        {
            let row: &Vec<Cell> = &self.grid[y];
            let stop: usize = if y == last.y && last.x < row.len() {
                last.x + 1
            } else {
                row.len()
            };
            let start: usize = if y != first.y {
                0
            } else if first.x < stop {
                first.x
            } else {
                stop
            };
            let tail: usize = trimmed_end(row, start, stop);
            let ghost before = text@;
            if y > first.y {
                text.push('\n');
            }
            push_row(&mut text, row, start, tail);
            assert(grid[y as int] == row@);
            assert(text@ =~= lines_selected(grid, first, last, y + 1));
            y = y + 1;
        }
        text
    }

    /// What is to be written when a text is pasted.
    pub fn paste(&self, text: &str) -> (w: Option<PtyWrite>)
        ensures
            write_view(w) == addressed(self.pty_fd, self@.paste(text@)),
    {
        let encoded: &[u8] = text.as_bytes();
        if encoded.len() == 0 {
            return None;
        }
        let mut bytes: Vec<u8> = Vec::new();
        if self.bracketed_paste {
            push_all(&mut bytes, &[0x1b, 0x5b, 0x32, 0x30, 0x30, 0x7e]);
            push_all(&mut bytes, encoded);
            push_all(&mut bytes, &[0x1b, 0x5b, 0x32, 0x30, 0x31, 0x7e]);
        } else {
            push_all(&mut bytes, encoded);
        }
        self.write_pty(bytes.as_slice())
    }

    /// What a key press asks for. With Control and Shift held, `C` copies and
    /// `V` pastes.
    pub fn key_action(&self, key: &Key, control: bool, shift: bool) -> (action: KeyAction)
        ensures
            match action {
                KeyAction::Copy => is_copy(*key, control, shift),
                KeyAction::Paste => is_paste(*key, control, shift),
                KeyAction::Write(w) => {
                    &&& !is_copy(*key, control, shift)
                    &&& !is_paste(*key, control, shift)
                    &&& write_view(w) == addressed(
                        self.pty_fd,
                        if key_code(*key).len() == 0 {
                            None
                        } else {
                            Some(key_code(*key))
                        },
                    )
                },
            },
    {
        if control && shift {
            let bytes: Vec<u8> = key_bytes(key);
            if bytes.len() == 1 {
                let b: u8 = bytes[0];
                assert(bytes@ =~= seq![b]);
                if b == 0x43 || b == 0x63 {
                    return KeyAction::Copy;
                }
                if b == 0x56 || b == 0x76 {
                    return KeyAction::Paste;
                }
            }
        }
        KeyAction::Write(self.key_pressed(key))
    }
}

/// It makes no difference at which end a selection was begun.
pub proof fn law_selection_direction(grid: Seq<Seq<Cell>>, a: Place, b: Place)
    ensures
        text_selected(grid, Selection { anchor: a, head: b }) == text_selected(
            grid,
            Selection { anchor: b, head: a },
        ),
{
}

/// A printed text that fits into the rest of the line and does not end in a
/// space is copied as it was printed.
pub proof fn law_copy_printed(s: Screen, text: Seq<char>, first: Place, last: Place)
    requires
        s.well_formed(),
        !s.pending_wrap,
        text.len() > 0,
        text.last() != ' ',
        s.cursor_x + text.len() <= s.cols,
        first.x == s.cursor_x,
        first.y == s.cursor_y,
        last.x == s.cursor_x + text.len() - 1,
        last.y == s.cursor_y,
    ensures
        text_selected(printed(s, text).grid, Selection { anchor: first, head: last }) == text,
{
    let t = printed(s, text);
    lemma_printed(s, text);
    let line = row_text(t.grid[s.cursor_y]).subrange(first.x as int, last.x + 1);
    assert forall|x: int| 0 <= x < text.len() implies #[trigger] line[x] == text[x] by {
        law_print_text(s, text, s.cursor_y, s.cursor_x + x);
    }
    assert(line =~= text);
}

} // verus!
