//! Colours and the palettes that control sequences select from.

use crate::bounds::{greatest, least};
use vstd::prelude::*;

verus! {

/// The channel value of full intensity. Every colour of the palettes is an
/// exact multiple of `1 / FULL`.
pub const FULL: u32 = 1020;

/// A colour with an alpha channel. A channel value `n` stands for the
/// intensity `n / FULL`.
#[derive(Clone, Copy, Debug, PartialEq, Eq, Structural)]
pub struct Color {
    pub r: u32,
    pub g: u32,
    pub b: u32,
    pub a: u32,
}

/// A colour with eight bits in each channel.
#[derive(Clone, Copy, Debug, PartialEq, Eq, Structural)]
pub struct Rgba {
    pub r: u8,
    pub g: u8,
    pub b: u8,
    pub a: u8,
}

/// The opaque colour with the given channels.
pub open spec fn opaque(r: int, g: int, b: int) -> Color {
    Color { r: r as u32, g: g as u32, b: b as u32, a: FULL }
}

/// The default text colour, at nine tenths of full intensity.
pub open spec fn default_foreground() -> Color {
    opaque(918, 918, 918)
}

/// The default background colour, at a twentieth of full intensity.
pub open spec fn default_background() -> Color {
    opaque(51, 51, 51)
}

/// A channel of one of the eight basic colours: bit `bit` of the index says
/// whether the channel is lit.
pub open spec fn basic_channel(index: int, bit: int, bright: bool) -> int {
    let lit = (index / bit) % 2 == 1;
    if bright {
        if index == 0 {
            408
        } else if lit {
            1020
        } else {
            204
        }
    } else if lit {
        816
    } else {
        0
    }
}

/// One of the eight basic colours, in its normal or its bright form. Indices
/// past the last colour stand for the last one.
pub open spec fn basic_color(index: int, bright: bool) -> Color {
    let i = least(index, 7);
    opaque(basic_channel(i, 1, bright), basic_channel(i, 2, bright), basic_channel(i, 4, bright))
}

/// The channel value of an eight bit intensity; intensities outside of
/// `0..=255` are clamped.
pub open spec fn byte_channel(v: int) -> int {
    4 * least(greatest(v, 0), 255)
}

/// The colour with the given eight bit intensities.
pub open spec fn true_color(r: int, g: int, b: int) -> Color {
    opaque(byte_channel(r), byte_channel(g), byte_channel(b))
}

/// The channel value of a step of the 6 x 6 x 6 colour cube.
pub open spec fn cube_channel(step: int) -> int {
    if step == 0 {
        0
    } else {
        4 * (55 + 40 * step)
    }
}

/// The channel value of a grey of the palette. The intensity is a sixteen bit
/// number: past the end of the palette it grows on, and it wraps around.
pub open spec fn grey_channel(index: int) -> int {
    4 * ((8 + (index - 232) * 10) % 0x1_0000)
}

/// A colour of the palette of 256 colours: the sixteen basic colours, the
/// cube, and the greys.
pub open spec fn palette_color(index: int) -> Color {
    if index < 16 {
        basic_color(index % 8, index >= 8)
    } else if index < 232 {
        let i = index - 16;
        opaque(cube_channel(i / 36), cube_channel((i / 6) % 6), cube_channel(i % 6))
    } else {
        opaque(grey_channel(index), grey_channel(index), grey_channel(index))
    }
}

/// A channel value scaled to `0..=max` and rounded down.
pub open spec fn scaled_channel(n: int, max: int) -> int {
    least(n * max / 1020, max)
}

/// A colour in eight bits per channel.
pub open spec fn rgba(c: Color) -> Rgba {
    Rgba {
        r: scaled_channel(c.r as int, 255) as u8,
        g: scaled_channel(c.g as int, 255) as u8,
        b: scaled_channel(c.b as int, 255) as u8,
        a: scaled_channel(c.a as int, 255) as u8,
    }
}

fn opaque_color(r: u32, g: u32, b: u32) -> (c: Color)
    ensures
        c == opaque(r as int, g as int, b as int),
{
    Color { r, g, b, a: FULL }
}

impl Color {
    /// The default text colour.
    pub fn foreground() -> (c: Color)
        ensures
            c == default_foreground(),
    {
        opaque_color(918, 918, 918)
    }

    /// The default background colour.
    pub fn background() -> (c: Color)
        ensures
            c == default_background(),
    {
        opaque_color(51, 51, 51)
    }

    /// The colour in eight bits per channel, as text is drawn in it.
    pub fn to_rgba(&self) -> (c: Rgba)
        ensures
            c == rgba(*self),
    {
        Rgba {
            r: channel_to_u8(self.r),
            g: channel_to_u8(self.g),
            b: channel_to_u8(self.b),
            a: channel_to_u8(self.a),
        }
    }
}

fn channel_to_u8(n: u32) -> (v: u8)
    ensures
        v == scaled_channel(n as int, 255),
{
    let q: u32 = n / 4;
    assert(q == n as int * 255 / 1020);
    if q < 255 {
        q as u8
    } else {
        255
    }
}

/// A channel value in sixteen bits, as colour queries report it.
pub fn channel_to_u16(n: u32) -> (v: u16)
    ensures
        v == scaled_channel(n as int, 65535),
{
    let q: u64 = n as u64 * 65535 / 1020;
    if q < 65535 {
        q as u16
    } else {
        65535
    }
}

/// The colour of a 24 bit RGB triple.
pub fn rgb_color(r: i64, g: i64, b: i64) -> (c: Color)
    ensures
        c == true_color(r as int, g as int, b as int),
{
    opaque_color(channel_from_byte(r), channel_from_byte(g), channel_from_byte(b))
}

fn channel_from_byte(v: i64) -> (n: u32)
    ensures
        n == byte_channel(v as int),
{
    if v <= 0 {
        0
    } else if v >= 255 {
        FULL
    } else {
        4 * (v as u32)
    }
}

/// One of the eight basic colours, in its normal or its bright form.
pub fn ansi_color(index: u16, bright: bool) -> (c: Color)
    ensures
        c == basic_color(index as int, bright),
{
    if bright {
        match index {
            0 => opaque_color(408, 408, 408),
            1 => opaque_color(1020, 204, 204),
            2 => opaque_color(204, 1020, 204),
            3 => opaque_color(1020, 1020, 204),
            4 => opaque_color(204, 204, 1020),
            5 => opaque_color(1020, 204, 1020),
            6 => opaque_color(204, 1020, 1020),
            _ => opaque_color(1020, 1020, 1020),
        }
    } else {
        match index {
            0 => opaque_color(0, 0, 0),
            1 => opaque_color(816, 0, 0),
            2 => opaque_color(0, 816, 0),
            3 => opaque_color(816, 816, 0),
            4 => opaque_color(0, 0, 816),
            5 => opaque_color(816, 0, 816),
            6 => opaque_color(0, 816, 816),
            _ => opaque_color(816, 816, 816),
        }
    }
}

fn cube_level(step: u16) -> (n: u32)
    requires
        step < 6,
    ensures
        n == cube_channel(step as int),
{
    if step == 0 {
        0
    } else {
        4 * (55 + 40 * (step as u32))
    }
}

/// A colour of the palette of 256 colours.
pub fn xterm_color(index: u16) -> (c: Color)
    ensures
        c == palette_color(index as int),
{
    if index < 16 {
        ansi_color(index % 8, index >= 8)
    } else if index < 232 {
        let i: u16 = index - 16;
        opaque_color(cube_level(i / 36), cube_level((i / 6) % 6), cube_level(i % 6))
    } else {
        let level: u32 = (8 + (index as u32 - 232) * 10) % 0x1_0000;
        opaque_color(4 * level, 4 * level, 4 * level)
    }
}

} // verus!
