//! The window around the terminal: key presses, sizes, and the shell.

use crate::bounds::{greatest, least};
use crate::model::Screen;
use crate::reply::{addressed, push_all, write_view, PtyWrite, WindowSize};
use crate::terminal::TerminalState;
use vstd::arithmetic::power2::{lemma_pow2_unfold, pow2};
use vstd::prelude::*;

verus! {

/// A key of the keyboard.
#[derive(Debug, PartialEq)]
pub enum Key {
    Enter,
    Backspace,
    Escape,
    Tab,
    Space,
    ArrowUp,
    ArrowDown,
    ArrowRight,
    ArrowLeft,
    /// A key that types the given text.
    Character(String),
    /// Any other key.
    Other,
}

/// The bytes that a key sends. Text is sent in UTF-8.
pub open spec fn key_code(key: Key) -> Seq<u8> {
    match key {
        Key::Enter => seq![0x0du8],
        Key::Backspace => seq![0x7fu8],
        Key::Escape => seq![0x1bu8],
        Key::Tab => seq![0x09u8],
        Key::Space => seq![0x20u8],
        Key::ArrowUp => seq![0x1bu8, 0x5b, 0x41],
        Key::ArrowDown => seq![0x1bu8, 0x5b, 0x42],
        Key::ArrowRight => seq![0x1bu8, 0x5b, 0x43],
        Key::ArrowLeft => seq![0x1bu8, 0x5b, 0x44],
        Key::Character(s) => vstd::utf8::encode_utf8(s@),
        Key::Other => Seq::empty(),
    }
}

/// The bytes that a key sends.
pub fn key_bytes(key: &Key) -> (bytes: Vec<u8>)
    ensures
        bytes@ == key_code(*key),
{
    let bytes: Vec<u8> = match key {
        Key::Enter => vec![0x0d],
        Key::Backspace => vec![0x7f],
        Key::Escape => vec![0x1b],
        Key::Tab => vec![0x09],
        Key::Space => vec![0x20],
        Key::ArrowUp => vec![0x1b, 0x5b, 0x41],
        Key::ArrowDown => vec![0x1b, 0x5b, 0x42],
        Key::ArrowRight => vec![0x1b, 0x5b, 0x43],
        Key::ArrowLeft => vec![0x1b, 0x5b, 0x44],
        Key::Character(s) => {
            let mut text: Vec<u8> = Vec::new();
            push_all(&mut text, s.as_str().as_bytes());
            text
        },
        Key::Other => Vec::new(),
    };
    assert(bytes@ =~= key_code(*key));
    bytes
}

/// How many cells of `unit` tenths of a pixel fit into `pixels`, exactly, but
/// at least one.
pub open spec fn cell_count(pixels: int, unit: int) -> int {
    least(greatest(pixels * 10 / unit, 1), usize::MAX as int)
}

/// How many cells of `unit` tenths of a pixel fit into `pixels`.
pub fn cells_in(pixels: u32, unit: u32) -> (n: usize)
    requires
        unit > 0,
    ensures
        n == cell_count(pixels as int, unit as int),
{
    let n: u64 = pixels as u64 * 10 / unit as u64;
    if n < 1 {
        1
    } else if n > usize::MAX as u64 {
        usize::MAX
    } else {
        n as usize
    }
}

/// The size of the drawing surface of a window: at least one pixel each way.
pub fn surface_size(width: u32, height: u32) -> (size: (u32, u32))
    ensures
        size.0 == greatest(width as int, 1),
        size.1 == greatest(height as int, 1),
{
    (if width < 1 { 1 } else { width }, if height < 1 { 1 } else { height })
}

/// Which of the formats of a surface to use: the first that is sRGB, or else
/// the first of all.
pub fn surface_format(srgb: &[bool]) -> (i: usize)
    requires
        srgb@.len() > 0,
    ensures
        i < srgb@.len(),
        srgb@[i as int] ==> forall|j: int| 0 <= j < i ==> !srgb@[j],
        !srgb@[i as int] ==> i == 0 && forall|j: int| 0 <= j < srgb@.len() ==> !srgb@[j],
{
    for i in 0..srgb.len()
        invariant
            forall|j: int| 0 <= j < i ==> !srgb@[j],
    {
        if srgb[i] {
            return i;
        }
    }
    0
}

/// `size` is the least power of two that is not below `n`.
pub open spec fn is_next_power(n: int, size: int) -> bool {
    exists|k: nat| #[trigger]
        pow2(k) == size && n <= size && (k > 0 ==> pow2((k - 1) as nat) < n)
}

/// The capacity of a buffer that has to hold `needed` items: it grows to a
/// power of two when the present one does not do.
pub fn grown_capacity(capacity: usize, needed: usize) -> (size: usize)
    requires
        needed <= usize::MAX / 2 + 1,
    ensures
        needed <= capacity ==> size == capacity,
        needed > capacity ==> is_next_power(needed as int, size as int),
{
    if needed <= capacity {
        return capacity;
    }
    let mut size: usize = 1;
    let ghost mut k: nat = 0;
    proof {
        vstd::arithmetic::power2::lemma2_to64();
    }
    while size < needed
        invariant
            needed <= usize::MAX / 2 + 1,
            needed > 0,
            size >= 1,
            pow2(k) == size,
            k > 0 ==> pow2((k - 1) as nat) < needed,
        decreases 2 * needed - size,
    {
        proof {
            lemma_pow2_unfold((k + 1) as nat);
            k = (k + 1) as nat;
        }
        size = size * 2;
    }
    assert(is_next_power(needed as int, size as int));
    size
}

/// The shell to run: the given one, or else the default one.
pub fn shell_path(shell: Option<String>) -> (path: String)
    ensures
        path@ == match shell {
            Some(shell) => shell@,
            None => "/bin/bash"@,
        },
{
    match shell {
        Some(shell) => shell,
        None => "/bin/bash".to_owned(),
    }
}

impl Screen {
    /// The screen in a window of the given size in pixels.
    pub open spec fn in_window(self, width: int, height: int) -> Screen {
        Screen { pixel_width: width, pixel_height: height, ..self }
    }

    /// The number of columns that a width in pixels has room for.
    pub open spec fn cols_in(self, width: int) -> int {
        cell_count(width, self.char_width)
    }

    /// The number of rows that a height in pixels has room for.
    pub open spec fn rows_in(self, height: int) -> int {
        cell_count(height, self.char_height)
    }

    /// The screen on a pseudo-terminal of the given size. The grid stays as it
    /// is.
    pub open spec fn attached(self, fd: i32, cols: int, rows: int) -> Screen {
        Screen { pty_fd: Some(fd), pty_master_fd: Some(fd), cols, rows, ..self }
    }
}

impl TerminalState {
    /// What is to be written when a key is pressed.
    pub fn key_pressed(&self, key: &Key) -> (w: Option<PtyWrite>)
        ensures
            write_view(w) == addressed(
                self.pty_fd,
                if key_code(*key).len() == 0 {
                    None
                } else {
                    Some(key_code(*key))
                },
            ),
    {
        let bytes: Vec<u8> = key_bytes(key);
        if bytes.len() == 0 {
            None
        } else {
            self.write_pty(bytes.as_slice())
        }
    }

    fn set_pixels(&mut self, width: u32, height: u32)
        ensures
            final(self)@ == old(self)@.in_window(width as int, height as int),
    {
        self.pixel_width = width;
        self.pixel_height = height;
    }

    /// Fits the terminal into a window of the given size in pixels. The result
    /// is the size to set on the pseudo-terminal, if there is one to set.
    pub fn window_resized(&mut self, width: u32, height: u32) -> (size: Option<WindowSize>)
        requires
            old(self).char_width > 0,
            old(self).char_height > 0,
            old(self)@.resize_defined(
                old(self)@.cols_in(width as int),
                old(self)@.rows_in(height as int),
            ),
        ensures
            final(self)@ == old(self)@.in_window(width as int, height as int).resized(
                old(self)@.cols_in(width as int),
                old(self)@.rows_in(height as int),
            ),
            size == old(self)@.window_size(
                old(self)@.cols_in(width as int),
                old(self)@.rows_in(height as int),
            ),
    {
        let cols: usize = cells_in(width, self.char_width);
        let rows: usize = cells_in(height, self.char_height);
        self.set_pixels(width, height);
        self.resize(cols, rows)
    }

    /// Whether the grid has the cells that stay when the window gets the given
    /// size in pixels.
    pub fn accepts_window(&self, width: u32, height: u32) -> (ok: bool)
        ensures
            ok == (self.char_width > 0 && self.char_height > 0 && self@.resize_defined(
                self@.cols_in(width as int),
                self@.rows_in(height as int),
            )),
    {
        self.char_width > 0 && self.char_height > 0 && self.accepts_resize(
            cells_in(width, self.char_width),
            cells_in(height, self.char_height),
        )
    }

    /// Puts the terminal on a pseudo-terminal of the given size.
    pub fn attach_pty(&mut self, fd: i32, cols: usize, rows: usize)
        ensures
            final(self)@ == old(self)@.attached(fd, cols as int, rows as int),
    {
        self.pty_master_fd = Some(fd);
        self.pty_fd = Some(fd);
        self.cols = cols;
        self.rows = rows;
    }
}

} // verus!
