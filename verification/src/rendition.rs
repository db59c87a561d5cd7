//! What every rendition code does to the pen, and what the colours are.

use crate::cell::Pen;
use crate::color::{
    basic_color, default_background, default_foreground, palette_color, rgba, scaled_channel,
    true_color, Color, FULL,
};
use crate::model::Screen;
use crate::sgr::code_width;
use vstd::prelude::*;

verus! {

// Colours. Full intensity is 1020.

/// The intensity of full, and the default colours: nine tenths and a twentieth
/// of full intensity.
pub proof fn law_default_colors()
    ensures
        FULL == 1020,
        default_foreground() == (Color { r: 918, g: 918, b: 918, a: 1020 }),
        default_background() == (Color { r: 51, g: 51, b: 51, a: 1020 }),
{
}

/// The basic colours in their order: black, red, green, yellow, blue, magenta,
/// cyan, white. A channel is lit at four fifths of full intensity, or not at
/// all.
pub proof fn law_basic_colors()
    ensures
        basic_color(0, false) == (Color { r: 0, g: 0, b: 0, a: 1020 }),
        basic_color(1, false) == (Color { r: 816, g: 0, b: 0, a: 1020 }),
        basic_color(2, false) == (Color { r: 0, g: 816, b: 0, a: 1020 }),
        basic_color(3, false) == (Color { r: 816, g: 816, b: 0, a: 1020 }),
        basic_color(4, false) == (Color { r: 0, g: 0, b: 816, a: 1020 }),
        basic_color(5, false) == (Color { r: 816, g: 0, b: 816, a: 1020 }),
        basic_color(6, false) == (Color { r: 0, g: 816, b: 816, a: 1020 }),
        basic_color(7, false) == (Color { r: 816, g: 816, b: 816, a: 1020 }),
{
}

/// The bright forms of the basic colours: grey, and then channels at full
/// intensity or at a fifth of it.
pub proof fn law_bright_colors()
    ensures
        basic_color(0, true) == (Color { r: 408, g: 408, b: 408, a: 1020 }),
        basic_color(1, true) == (Color { r: 1020, g: 204, b: 204, a: 1020 }),
        basic_color(2, true) == (Color { r: 204, g: 1020, b: 204, a: 1020 }),
        basic_color(3, true) == (Color { r: 1020, g: 1020, b: 204, a: 1020 }),
        basic_color(4, true) == (Color { r: 204, g: 204, b: 1020, a: 1020 }),
        basic_color(5, true) == (Color { r: 1020, g: 204, b: 1020, a: 1020 }),
        basic_color(6, true) == (Color { r: 204, g: 1020, b: 1020, a: 1020 }),
        basic_color(7, true) == (Color { r: 1020, g: 1020, b: 1020, a: 1020 }),
{
}

/// Numbers past the last basic colour stand for the last one.
pub proof fn law_basic_colors_end(index: int, bright: bool)
    requires
        index >= 7,
    ensures
        basic_color(index, bright) == basic_color(7, bright),
{
}

/// A 24 bit colour has its intensities as parts of 255; greater ones count as
/// 255, and negative ones as zero.
pub proof fn law_true_color(r: int, g: int, b: int)
    ensures
        true_color(r, g, b).a == 1020,
        0 <= r <= 255 ==> true_color(r, g, b).r == 4 * r,
        0 <= g <= 255 ==> true_color(r, g, b).g == 4 * g,
        0 <= b <= 255 ==> true_color(r, g, b).b == 4 * b,
        r > 255 ==> true_color(r, g, b).r == 1020,
        g > 255 ==> true_color(r, g, b).g == 1020,
        b > 255 ==> true_color(r, g, b).b == 1020,
        r < 0 ==> true_color(r, g, b).r == 0,
        g < 0 ==> true_color(r, g, b).g == 0,
        b < 0 ==> true_color(r, g, b).b == 0,
{
}

/// The palette: the basic colours, their bright forms, the six by six by six
/// cube with blue changing fastest, and the greys. Past the end the greys go on
/// in sixteen bits.
pub proof fn law_palette(index: int, r: int, g: int, b: int)
    requires
        0 <= r < 6,
        0 <= g < 6,
        0 <= b < 6,
    ensures
        0 <= index < 8 ==> palette_color(index) == basic_color(index, false),
        8 <= index < 16 ==> palette_color(index) == basic_color(index - 8, true),
        palette_color(16 + 36 * r + 6 * g + b) == (Color {
            r: (if r == 0 {
                0
            } else {
                220 + 160 * r
            }) as u32,
            g: (if g == 0 {
                0
            } else {
                220 + 160 * g
            }) as u32,
            b: (if b == 0 {
                0
            } else {
                220 + 160 * b
            }) as u32,
            a: 1020,
        }),
        232 <= index <= 255 ==> palette_color(index) == (Color {
            r: (40 * index - 9248) as u32,
            g: (40 * index - 9248) as u32,
            b: (40 * index - 9248) as u32,
            a: 1020,
        }),
        255 < index <= 65535 ==> {
            let level = (10 * index - 2312) % 65536;
            palette_color(index) == (Color {
                r: (4 * level) as u32,
                g: (4 * level) as u32,
                b: (4 * level) as u32,
                a: 1020,
            })
        },
{
    let i = 36 * r + 6 * g + b;
    assert(i / 36 == r);
    assert(i / 6 % 6 == g);
    assert(i % 6 == b);
}

/// Text is drawn in 255 steps, rounded down; more than full intensity counts
/// as full.
pub proof fn law_drawn_color(c: Color)
    ensures
        c.r < 1020 ==> rgba(c).r == c.r / 4,
        c.g < 1020 ==> rgba(c).g == c.g / 4,
        c.b < 1020 ==> rgba(c).b == c.b / 4,
        c.a < 1020 ==> rgba(c).a == c.a / 4,
        c.r >= 1020 ==> rgba(c).r == 255,
        c.g >= 1020 ==> rgba(c).g == 255,
        c.b >= 1020 ==> rgba(c).b == 255,
        c.a >= 1020 ==> rgba(c).a == 255,
{
}

/// A channel is scaled to the greatest number that is not above it; more than
/// full intensity counts as full.
pub proof fn law_scaled_channel(n: u32, max: int)
    requires
        max >= 0,
    ensures
        0 <= scaled_channel(n as int, max) <= max,
        n >= 1020 ==> scaled_channel(n as int, max) == max,
        n < 1020 ==> 1020 * scaled_channel(n as int, max) <= n * max < 1020 * (scaled_channel(
            n as int,
            max,
        ) + 1),
{
    let m = n as int;
    assert(m * max >= 0) by (nonlinear_arith)
        requires
            m >= 0,
            max >= 0,
    ;
    if n >= 1020 {
        assert(m * max >= 1020 * max) by (nonlinear_arith)
            requires
                m >= 1020,
                max >= 0,
        ;
    } else {
        assert(m * max <= 1020 * max) by (nonlinear_arith)
            requires
                m <= 1020,
                max >= 0,
        ;
    }
}

// Codes.

/// A rendition sequence changes nothing but the pen.
pub proof fn law_rendition_changes_pen(s: Screen, p: Seq<u16>, marker: Option<u8>)
    ensures
        s.csi(p, marker, 'm') == (Screen {
            pen: s.csi(p, marker, 'm').pen,
            dirty: true,
            pending_wrap: false,
            ..s
        }),
{
}

/// The code 0, and a sequence without codes, bring back the default colours of
/// the terminal and take all attributes away.
pub proof fn law_code_reset(s: Screen, marker: Option<u8>)
    ensures
        s.csi(seq![0u16], marker, 'm').pen == (Pen {
            fg: s.fg_color,
            bg: s.bg_color,
            bold: false,
            dim: false,
            italic: false,
            underline: false,
            strikethrough: false,
            reverse: false,
        }),
        s.csi(Seq::empty(), marker, 'm') == s.csi(seq![0u16], marker, 'm'),
{
    lemma_one_code(s.pen, 0, s.fg_color, s.bg_color);
}

proof fn lemma_one_code(pen: Pen, code: u16, fg: Color, bg: Color)
    ensures
        pen.rendition(seq![code], fg, bg) == pen.selected(seq![code], fg, bg),
{
    let codes = seq![code];
    reveal_with_fuel(Pen::selected_all, 2);
    assert(codes.skip(1) =~= Seq::<u16>::empty());
}

/// The codes 1, 2, 3, 4, 7 and 9 make text bold, dim, italic, underlined,
/// reversed and struck through. Nothing else of the pen changes.
pub proof fn law_codes_set(s: Screen, marker: Option<u8>)
    ensures
        s.csi(seq![1u16], marker, 'm').pen == (Pen { bold: true, ..s.pen }),
        s.csi(seq![2u16], marker, 'm').pen == (Pen { dim: true, ..s.pen }),
        s.csi(seq![3u16], marker, 'm').pen == (Pen { italic: true, ..s.pen }),
        s.csi(seq![4u16], marker, 'm').pen == (Pen { underline: true, ..s.pen }),
        s.csi(seq![7u16], marker, 'm').pen == (Pen { reverse: true, ..s.pen }),
        s.csi(seq![9u16], marker, 'm').pen == (Pen { strikethrough: true, ..s.pen }),
{
    lemma_one_code(s.pen, 1, s.fg_color, s.bg_color);
    lemma_one_code(s.pen, 2, s.fg_color, s.bg_color);
    lemma_one_code(s.pen, 3, s.fg_color, s.bg_color);
    lemma_one_code(s.pen, 4, s.fg_color, s.bg_color);
    lemma_one_code(s.pen, 7, s.fg_color, s.bg_color);
    lemma_one_code(s.pen, 9, s.fg_color, s.bg_color);
}

/// The codes 22, 23, 24, 27 and 29 take back bold and dim, italic, underlined,
/// reversed and struck through; 39 and 49 bring back the default text and
/// background colours. Nothing else of the pen changes.
pub proof fn law_codes_take_back(s: Screen, marker: Option<u8>)
    ensures
        s.csi(seq![22u16], marker, 'm').pen == (Pen { bold: false, dim: false, ..s.pen }),
        s.csi(seq![23u16], marker, 'm').pen == (Pen { italic: false, ..s.pen }),
        s.csi(seq![24u16], marker, 'm').pen == (Pen { underline: false, ..s.pen }),
        s.csi(seq![27u16], marker, 'm').pen == (Pen { reverse: false, ..s.pen }),
        s.csi(seq![29u16], marker, 'm').pen == (Pen { strikethrough: false, ..s.pen }),
        s.csi(seq![39u16], marker, 'm').pen == (Pen { fg: s.fg_color, ..s.pen }),
        s.csi(seq![49u16], marker, 'm').pen == (Pen { bg: s.bg_color, ..s.pen }),
{
    lemma_one_code(s.pen, 22, s.fg_color, s.bg_color);
    lemma_one_code(s.pen, 23, s.fg_color, s.bg_color);
    lemma_one_code(s.pen, 24, s.fg_color, s.bg_color);
    lemma_one_code(s.pen, 27, s.fg_color, s.bg_color);
    lemma_one_code(s.pen, 29, s.fg_color, s.bg_color);
    lemma_one_code(s.pen, 39, s.fg_color, s.bg_color);
    lemma_one_code(s.pen, 49, s.fg_color, s.bg_color);
}

/// The codes from 30 and from 40 on select the eight basic colours for the text
/// and for the background, those from 90 and from 100 on their bright forms.
/// Nothing else of the pen changes.
pub proof fn law_codes_basic_colors(s: Screen, k: u16, marker: Option<u8>)
    requires
        k < 8,
    ensures
        ({
            let lit = |bit: bool|
                if bit {
                    816u32
                } else {
                    0u32
                };
            let normal = Color {
                r: lit(k % 2 == 1),
                g: lit(k == 2 || k == 3 || k == 6 || k == 7),
                b: lit(k >= 4),
                a: 1020,
            };
            let shine = |bit: bool|
                if k == 0 {
                    408u32
                } else if bit {
                    1020u32
                } else {
                    204u32
                };
            let bright = Color {
                r: shine(k % 2 == 1),
                g: shine(k == 2 || k == 3 || k == 6 || k == 7),
                b: shine(k >= 4),
                a: 1020,
            };
            &&& s.csi(seq![(30 + k) as u16], marker, 'm').pen == (Pen { fg: normal, ..s.pen })
            &&& s.csi(seq![(40 + k) as u16], marker, 'm').pen == (Pen { bg: normal, ..s.pen })
            &&& s.csi(seq![(90 + k) as u16], marker, 'm').pen == (Pen { fg: bright, ..s.pen })
            &&& s.csi(seq![(100 + k) as u16], marker, 'm').pen == (Pen { bg: bright, ..s.pen })
        }),
{
    lemma_one_code(s.pen, (30 + k) as u16, s.fg_color, s.bg_color);
    lemma_one_code(s.pen, (40 + k) as u16, s.fg_color, s.bg_color);
    lemma_one_code(s.pen, (90 + k) as u16, s.fg_color, s.bg_color);
    lemma_one_code(s.pen, (100 + k) as u16, s.fg_color, s.bg_color);
    law_basic_colors();
    law_bright_colors();
}

/// Any other code, and an extended colour without anything behind it, changes
/// nothing.
pub proof fn law_other_codes(s: Screen, code: u16, marker: Option<u8>)
    requires
        code == 5 || code == 6 || code == 8 || 10 <= code <= 21 || code == 25 || code == 26
            || code == 28 || code == 38 || code == 48 || 50 <= code <= 89 || 98 <= code <= 99
            || code >= 108,
    ensures
        s.csi(seq![code], marker, 'm').pen == s.pen,
{
    lemma_one_code(s.pen, code, s.fg_color, s.bg_color);
}

/// `38 ; 5 ; i` selects a colour of the palette for the text, and `48 ; 5 ; i`
/// for the background. Nothing else of the pen changes.
pub proof fn law_code_palette(s: Screen, index: u16, marker: Option<u8>)
    ensures
        s.csi(seq![38u16, 5, index], marker, 'm').pen == (Pen {
            fg: palette_color(index as int),
            ..s.pen
        }),
        s.csi(seq![48u16, 5, index], marker, 'm').pen == (Pen {
            bg: palette_color(index as int),
            ..s.pen
        }),
{
    reveal_with_fuel(Pen::selected_all, 2);
    assert(seq![38u16, 5, index].skip(3) =~= Seq::<u16>::empty());
    assert(seq![48u16, 5, index].skip(3) =~= Seq::<u16>::empty());
}

/// `38 ; 2 ; r ; g ; b` selects a 24 bit colour for the text, and
/// `48 ; 2 ; r ; g ; b` for the background. Nothing else of the pen changes.
pub proof fn law_code_true_color(s: Screen, r: u16, g: u16, b: u16, marker: Option<u8>)
    ensures
        ({
            let color = true_color(r as int, g as int, b as int);
            &&& s.csi(seq![38u16, 2, r, g, b], marker, 'm').pen == (Pen { fg: color, ..s.pen })
            &&& s.csi(seq![48u16, 2, r, g, b], marker, 'm').pen == (Pen { bg: color, ..s.pen })
        }),
{
    reveal_with_fuel(Pen::selected_all, 2);
    assert(seq![38u16, 2, r, g, b].skip(5) =~= Seq::<u16>::empty());
    assert(seq![48u16, 2, r, g, b].skip(5) =~= Seq::<u16>::empty());
}

proof fn lemma_rest(s: Screen, p: Seq<u16>, width: int, marker: Option<u8>)
    requires
        0 < width < p.len(),
        code_width(p) == width,
    ensures
        s.csi(p, marker, 'm').pen == s.pen.selected(p, s.fg_color, s.bg_color).selected_all(
            p.skip(width),
            s.fg_color,
            s.bg_color,
        ),
{
}

/// Codes take effect one after the other: a sequence that begins with a code
/// that is not an extended colour does what the code alone does and then what
/// the rest does.
pub proof fn law_codes_in_order(s: Screen, code: u16, rest: Seq<u16>, marker: Option<u8>)
    requires
        code != 38 && code != 48,
        rest.len() > 0,
    ensures
        s.csi(seq![code] + rest, marker, 'm') == s.csi(seq![code], marker, 'm').csi(
            rest,
            marker,
            'm',
        ),
{
    let p = seq![code] + rest;
    lemma_rest(s, p, 1, marker);
    lemma_one_code(s.pen, code, s.fg_color, s.bg_color);
    assert(p.skip(1) =~= rest);
}

/// A complete extended colour takes effect, and then what follows it.
pub proof fn law_extended_in_order(s: Screen, color: Seq<u16>, rest: Seq<u16>, marker: Option<u8>)
    requires
        rest.len() > 0,
        color.len() == 3 && color[1] == 5 || color.len() == 5 && color[1] == 2,
        color[0] == 38 || color[0] == 48,
    ensures
        s.csi(color + rest, marker, 'm') == s.csi(color, marker, 'm').csi(rest, marker, 'm'),
{
    let p = color + rest;
    lemma_rest(s, p, color.len() as int, marker);
    assert(p.skip(color.len() as int) =~= rest);
    assert(color.skip(color.len() as int) =~= Seq::<u16>::empty());
    assert(p[0] == color[0] && p[1] == color[1] && p[2] == color[2]);
    reveal_with_fuel(Pen::selected_all, 2);
}

/// An extended colour that is not complete is passed over, and what follows it
/// takes effect by itself.
pub proof fn law_extended_incomplete(s: Screen, code: u16, rest: Seq<u16>, marker: Option<u8>)
    requires
        code == 38 || code == 48,
        rest.len() > 0,
        rest[0] == 5 ==> rest.len() < 2,
        rest[0] == 2 ==> rest.len() < 4,
    ensures
        s.csi(seq![code] + rest, marker, 'm') == s.csi(rest, marker, 'm'),
{
    let p = seq![code] + rest;
    lemma_rest(s, p, 1, marker);
    assert(p.skip(1) =~= rest);
}

} // verus!
