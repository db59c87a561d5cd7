//! What the terminal sends to the program that runs in it.

use crate::color::{channel_to_u16, scaled_channel, Color};
use vstd::prelude::*;

verus! {

/// Bytes to write to a file descriptor of the pseudo-terminal.
#[derive(Debug, PartialEq)]
pub struct PtyWrite {
    pub fd: i32,
    pub data: Vec<u8>,
}

/// A window size to set on a file descriptor of the pseudo-terminal.
#[derive(Clone, Copy, Debug, PartialEq)]
pub struct WindowSize {
    pub fd: i32,
    pub ws_row: u16,
    pub ws_col: u16,
}

/// A write as its descriptor and its bytes.
pub open spec fn write_view(w: Option<PtyWrite>) -> Option<(i32, Seq<u8>)> {
    match w {
        Some(w) => Some((w.fd, w.data@)),
        None => None,
    }
}

/// A reply as it is written: nothing is written without a reply or without a
/// descriptor.
pub open spec fn addressed(fd: Option<i32>, reply: Option<Seq<u8>>) -> Option<(i32, Seq<u8>)> {
    match (fd, reply) {
        (Some(fd), Some(data)) => Some((fd, data)),
        _ => None,
    }
}

/// The decimal digits of a number.
pub open spec fn decimal(n: nat) -> Seq<u8>
    decreases n,
{
    if n < 10 {
        seq![(48 + n) as u8]
    } else {
        decimal(n / 10).push((48 + n % 10) as u8)
    }
}

/// The lower case hexadecimal digit of a number below sixteen.
pub open spec fn hex_digit(n: int) -> u8 {
    if n < 10 {
        (48 + n) as u8
    } else {
        (87 + n) as u8
    }
}

/// The four hexadecimal digits of a sixteen bit number.
pub open spec fn hex4(n: int) -> Seq<u8> {
    seq![
        hex_digit(n / 4096),
        hex_digit(n / 256 % 16),
        hex_digit(n / 16 % 16),
        hex_digit(n % 16),
    ]
}

/// `ESC [ row ; column R`, with both counted from one.
pub open spec fn cursor_report(cursor_x: int, cursor_y: int) -> Seq<u8> {
    seq![0x1bu8, 0x5b] + decimal((cursor_y + 1) as nat) + seq![0x3bu8] + decimal(
        (cursor_x + 1) as nat,
    ) + seq![0x52u8]
}

/// `ESC ] 11;rgb:rrrr/gggg/bbbb ESC \`.
pub open spec fn color_report(c: Color) -> Seq<u8> {
    seq![0x1bu8, 0x5d, 0x31, 0x31, 0x3b, 0x72, 0x67, 0x62, 0x3a] + hex4(
        scaled_channel(c.r as int, 65535),
    ) + seq![0x2fu8] + hex4(scaled_channel(c.g as int, 65535)) + seq![0x2fu8] + hex4(
        scaled_channel(c.b as int, 65535),
    ) + seq![0x1bu8, 0x5c]
}

/// `ESC [ ? 1 ; 0 c`.
pub open spec fn primary_attributes() -> Seq<u8> {
    seq![0x1bu8, 0x5b, 0x3f, 0x31, 0x3b, 0x30, 0x63]
}

/// `ESC [ > 0 ; 0 ; 0 c`.
pub open spec fn secondary_attributes() -> Seq<u8> {
    seq![0x1bu8, 0x5b, 0x3e, 0x30, 0x3b, 0x30, 0x3b, 0x30, 0x63]
}

/// Appends all of `more` to `bytes`.
pub fn push_all(bytes: &mut Vec<u8>, more: &[u8])
    ensures
        final(bytes)@ == old(bytes)@ + more@,
{
    let ghost start = bytes@;
    for i in 0..more.len()
        invariant
            bytes@ == start + more@.take(i as int),
    {
        bytes.push(more[i]);
        assert(bytes@ =~= start + more@.take(i + 1));
    }
    assert(more@.take(more@.len() as int) =~= more@);
}

/// Appends the decimal digits of `n` to `bytes`.
pub fn push_decimal(bytes: &mut Vec<u8>, n: u128)
    ensures
        final(bytes)@ == old(bytes)@ + decimal(n as nat),
    decreases n,
{
    if n >= 10 {
        push_decimal(bytes, n / 10);
    }
    bytes.push((48 + n % 10) as u8);
    assert(bytes@ =~= old(bytes)@ + decimal(n as nat));
}

fn hex_digit_of(n: u16) -> (d: u8)
    requires
        n < 16,
    ensures
        d == hex_digit(n as int),
{
    if n < 10 {
        (48 + n) as u8
    } else {
        (87 + n) as u8
    }
}

/// Appends the four hexadecimal digits of `n` to `bytes`.
pub fn push_hex4(bytes: &mut Vec<u8>, n: u16)
    ensures
        final(bytes)@ == old(bytes)@ + hex4(n as int),
{
    bytes.push(hex_digit_of(n / 4096));
    bytes.push(hex_digit_of(n / 256 % 16));
    bytes.push(hex_digit_of(n / 16 % 16));
    bytes.push(hex_digit_of(n % 16));
    assert(bytes@ =~= old(bytes)@ + hex4(n as int));
}

/// The report of a cursor position.
pub fn cursor_reply(cursor_x: usize, cursor_y: usize) -> (bytes: Vec<u8>)
    ensures
        bytes@ == cursor_report(cursor_x as int, cursor_y as int),
{
    let mut bytes: Vec<u8> = vec![0x1b, 0x5b];
    push_decimal(&mut bytes, cursor_y as u128 + 1);
    bytes.push(0x3b);
    push_decimal(&mut bytes, cursor_x as u128 + 1);
    bytes.push(0x52);
    assert(bytes@ =~= cursor_report(cursor_x as int, cursor_y as int));
    bytes
}

/// The report of a background colour.
pub fn color_reply(c: Color) -> (bytes: Vec<u8>)
    ensures
        bytes@ == color_report(c),
{
    let mut bytes: Vec<u8> = vec![0x1b, 0x5d, 0x31, 0x31, 0x3b, 0x72, 0x67, 0x62, 0x3a];
    push_hex4(&mut bytes, channel_to_u16(c.r));
    bytes.push(0x2f);
    push_hex4(&mut bytes, channel_to_u16(c.g));
    bytes.push(0x2f);
    push_hex4(&mut bytes, channel_to_u16(c.b));
    bytes.push(0x1b);
    bytes.push(0x5c);
    assert(bytes@ =~= color_report(c));
    bytes
}

/// The report of the device attributes, primary or secondary.
pub fn attributes_reply(secondary: bool) -> (bytes: Vec<u8>)
    ensures
        bytes@ == if secondary {
            secondary_attributes()
        } else {
            primary_attributes()
        },
{
    let bytes: Vec<u8> = if secondary {
        vec![0x1b, 0x5b, 0x3e, 0x30, 0x3b, 0x30, 0x3b, 0x30, 0x63]
    } else {
        vec![0x1b, 0x5b, 0x3f, 0x31, 0x3b, 0x30, 0x63]
    };
    assert(bytes@ =~= if secondary {
        secondary_attributes()
    } else {
        primary_attributes()
    });
    bytes
}

} // verus!
