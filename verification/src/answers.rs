//! What goes out: replies, numbers in digits, keys, sizes; and what is read
//! from operating system commands.

use crate::bounds::{greatest, least};
use crate::color::Color;
use crate::csi::{first_byte, leading_values};
use crate::laws::{law_decimal_value, law_directory_tracked, law_percent_round_trip};
use crate::model::Screen;
use crate::osc::{
    command_number, digits_value, file_scheme, from_slash, hex_value, is_digit, joined,
    percent_decoded, rejoined, starts_with_escape, unsigned,
};
use crate::reply::{addressed, color_report, cursor_report, decimal, hex4, write_view, PtyWrite};
use crate::window::{cell_count, is_next_power, key_code, Key};
use vstd::arithmetic::div_mod::{lemma_div_denominator, lemma_fundamental_div_mod};
use vstd::arithmetic::power::{lemma_pow0, lemma_pow_positive, pow};
use vstd::arithmetic::power2::{lemma_pow2_unfold, pow2};
use vstd::prelude::*;

verus! {

/// The least and the greatest of two numbers.
pub proof fn law_bounds(x: int, y: int)
    ensures
        least(x, y) <= x && least(x, y) <= y && (least(x, y) == x || least(x, y) == y),
        greatest(x, y) >= x && greatest(x, y) >= y && (greatest(x, y) == x || greatest(x, y) == y),
{
}

// Digits.

/// The digits of a number: the digit at each place is that of the number in
/// base ten, and there is no leading zero but in zero itself.
pub proof fn law_decimal_digits(n: nat, i: int)
    requires
        0 <= i < decimal(n).len(),
    ensures
        ({
            let d = decimal(n);
            &&& d[i] == 48 + (n as int / pow(10, (d.len() - 1 - i) as nat)) % 10
            &&& n < pow(10, d.len())
            &&& n > 0 ==> d[0] != 48
            &&& n == 0 ==> d == seq![48u8]
        }),
    decreases n,
{
    reveal(pow);
    let d = decimal(n);
    lemma_pow0(10);
    if n < 10 {
        reveal_with_fuel(pow, 2);
        assert(i == 0);
    } else {
        let rest = decimal(n / 10);
        let e = (d.len() - 1 - i) as nat;
        lemma_decimal_nonempty(n / 10);
        law_decimal_digits(n / 10, 0);
        assert(pow(10, d.len()) == 10 * pow(10, rest.len()));
        if i < rest.len() {
            law_decimal_digits(n / 10, i);
            let f = (e - 1) as nat;
            lemma_pow_positive(10, f);
            assert(pow(10, e) == 10 * pow(10, f));
            lemma_div_denominator(n as int, 10, pow(10, f));
        }
    }
}

proof fn lemma_decimal_nonempty(n: nat)
    ensures
        decimal(n).len() > 0,
{
}

proof fn lemma_leading_zero(digits: Seq<u8>)
    ensures
        digits_value(seq![48u8] + digits) == digits_value(digits),
    decreases digits.len(),
{
    let all = seq![48u8] + digits;
    if digits.len() == 0 {
        reveal_with_fuel(digits_value, 2);
        assert(all.drop_last() =~= Seq::<u8>::empty());
    } else {
        lemma_leading_zero(digits.drop_last());
        assert(all.drop_last() =~= seq![48u8] + digits.drop_last());
    }
}

proof fn lemma_digits(n: nat)
    ensures
        decimal(n).len() > 0,
        forall|i: int| 0 <= i < decimal(n).len() ==> 48 <= #[trigger] decimal(n)[i] <= 57,
    decreases n,
{
    if n >= 10 {
        lemma_digits(n / 10);
    }
}

/// A command is known by its number in digits; leading zeros and a plus sign
/// make no difference. A number of more than sixteen bits counts as the
/// greatest one of sixteen bits.
pub proof fn law_command_digits(n: nat)
    ensures
        ({
            let known = if n <= 65535 {
                n as int
            } else {
                65535
            };
            &&& command_number(decimal(n)) == known
            &&& command_number(seq![0x30u8] + decimal(n)) == known
            &&& command_number(seq![0x2bu8] + decimal(n)) == known
        }),
{
    let d = decimal(n);
    lemma_digits(n);
    law_decimal_value(n);
    lemma_leading_zero(d);
    assert(is_digit(d[0]));
    let zero = seq![0x30u8] + d;
    let plus = seq![0x2bu8] + d;
    assert(plus.skip(1) =~= d);
    assert forall|i: int| 0 <= i < zero.len() implies is_digit(#[trigger] zero[i]) by {
        if i > 0 {
            assert(zero[i] == d[i - 1]);
        }
    }
}

/// A leading zero makes no difference to a number in digits, nor does a plus
/// sign in front of anything but a plus sign.
pub proof fn law_command_prefix(bytes: Seq<u8>)
    requires
        bytes.len() > 0,
        bytes[0] != 0x2b,
    ensures
        command_number(seq![0x2bu8] + bytes) == command_number(bytes),
        (forall|i: int| 0 <= i < bytes.len() ==> 48 <= #[trigger] bytes[i] <= 57)
            ==> command_number(seq![0x30u8] + bytes) == command_number(bytes),
{
    let zero = seq![0x30u8] + bytes;
    assert((seq![0x2bu8] + bytes).skip(1) =~= bytes);
    lemma_leading_zero(bytes);
    if forall|i: int| 0 <= i < bytes.len() ==> 48 <= #[trigger] bytes[i] <= 57 {
        assert forall|i: int| 0 <= i < zero.len() implies is_digit(#[trigger] zero[i]) by {
            if i > 0 {
                assert(zero[i] == bytes[i - 1]);
            }
        }
        assert forall|i: int| 0 <= i < bytes.len() implies is_digit(#[trigger] bytes[i]) by {}
    }
}

/// What is not made of digits, but for a plus sign in front of at least one,
/// counts as the greatest number of sixteen bits.
pub proof fn law_command_not_a_number(bytes: Seq<u8>, i: int)
    requires
        bytes.len() == 0 || bytes == seq![0x2bu8] || {
            &&& 0 <= i < bytes.len()
            &&& bytes[i] < 48 || bytes[i] > 57
            &&& i == 0 ==> bytes[0] != 0x2b
        },
    ensures
        command_number(bytes) == 65535,
{
    let digits = unsigned(bytes);
    if bytes.len() > 0 && bytes != seq![0x2bu8] {
        if bytes[0] == 0x2b {
            assert(digits[i - 1] == bytes[i]);
            assert(!is_digit(digits[i - 1]));
        } else {
            assert(!is_digit(digits[i]));
        }
    } else if bytes.len() > 0 {
        assert(digits =~= Seq::<u8>::empty());
    }
}

/// The four digits of a number of sixteen bits: the digit at each place is
/// that of the number in base sixteen, in lower case.
pub proof fn law_hex_digits(n: u16)
    ensures
        ({
            let digit = |v: int|
                if v < 10 {
                    48 + v
                } else {
                    97 + (v - 10)
                };
            &&& hex4(n as int).len() == 4
            &&& hex4(n as int)[0] == digit(n as int / 4096)
            &&& hex4(n as int)[1] == digit(n as int / 256 % 16)
            &&& hex4(n as int)[2] == digit(n as int / 16 % 16)
            &&& hex4(n as int)[3] == digit(n as int % 16)
        }),
{
}

// Replies.

/// The position is reported as `ESC [ row ; column R`, counted from one.
pub proof fn law_position_report(x: nat, y: nat)
    ensures
        cursor_report(x as int, y as int) == seq![0x1bu8, 0x5b] + decimal(y + 1) + seq![0x3bu8]
            + decimal(x + 1) + seq![0x52u8],
{
}

/// A colour is reported as `ESC ] 11;rgb:` with four hexadecimal digits for
/// each channel, slashes between them, and `ESC \` at the end. A channel is
/// scaled to 65535, rounded down; more than full intensity counts as full.
pub proof fn law_color_report(c: Color, r: u16, g: u16, b: u16)
    requires
        c.r <= 1020 && r * 1020 <= c.r * 65535 < (r + 1) * 1020 || c.r > 1020 && r == 65535,
        c.g <= 1020 && g * 1020 <= c.g * 65535 < (g + 1) * 1020 || c.g > 1020 && g == 65535,
        c.b <= 1020 && b * 1020 <= c.b * 65535 < (b + 1) * 1020 || c.b > 1020 && b == 65535,
    ensures
        color_report(c) == seq![0x1bu8, 0x5d, 0x31, 0x31, 0x3b, 0x72, 0x67, 0x62, 0x3a] + hex4(
            r as int,
        ) + seq![0x2fu8] + hex4(g as int) + seq![0x2fu8] + hex4(b as int) + seq![0x1bu8, 0x5c],
{
}

/// The replies to control sequences: to `CSI c` the primary and to `CSI > c`
/// the secondary device attributes, and to `CSI 6 n` the position of the
/// cursor. Nothing else is replied to, nor is anything with a question mark.
pub proof fn law_sequence_replies(s: Screen, p: Seq<u16>, marker: Option<u8>, command: char)
    ensures
        s.csi_reply(p, marker, command) == if marker == Some(0x3fu8) {
            None
        } else if command == 'c' && marker == Some(0x3eu8) {
            Some(seq![0x1bu8, 0x5b, 0x3e, 0x30, 0x3b, 0x30, 0x3b, 0x30, 0x63])
        } else if command == 'c' {
            Some(seq![0x1bu8, 0x5b, 0x3f, 0x31, 0x3b, 0x30, 0x63])
        } else if command == 'n' && p.len() > 0 && p[0] == 6 {
            Some(cursor_report(s.cursor_x, s.cursor_y))
        } else {
            None
        },
{
}

/// The only operating system command that is replied to is number 11 with a
/// question mark: with the background colour.
pub proof fn law_command_replies(s: Screen, number: Seq<u8>, parts: Seq<Seq<u8>>)
    ensures
        s.osc_reply(Seq::empty()) is None,
        s.osc_reply(seq![number] + parts) == if command_number(number) == 11 && joined(parts)
            == seq![0x3fu8] {
            Some(color_report(s.bg_color))
        } else {
            None
        },
{
    assert((seq![number] + parts).skip(1) =~= parts);
}

/// Joining puts the parts in a row, in their order, with nothing in between.
pub proof fn law_joined(first: Seq<Seq<u8>>, part: Seq<u8>, second: Seq<Seq<u8>>)
    ensures
        joined(Seq::empty()) == Seq::<u8>::empty(),
        joined(seq![part]) == part,
        joined(first + second) == joined(first) + joined(second),
    decreases second.len(),
{
    reveal_with_fuel(joined, 2);
    assert(seq![part].drop_last() =~= Seq::<Seq<u8>>::empty());
    assert(joined(seq![part]) =~= part);
    if second.len() == 0 {
        assert(first + second =~= first);
        assert(joined(first) + joined(second) =~= joined(first));
    } else {
        law_joined(first, part, second.drop_last());
        assert((first + second).drop_last() =~= first + second.drop_last());
        assert(joined(first + second) =~= joined(first) + joined(second));
    }
}

/// A reply is written to the pseudo-terminal if there is one.
pub proof fn law_addressed(fd: i32, data: Seq<u8>, w: PtyWrite)
    ensures
        addressed(Some(fd), Some(data)) == Some((fd, data)),
        addressed(None, Some(data)) is None,
        addressed(Some(fd), None) is None,
        addressed(None, None) is None,
        write_view(Some(w)) == Some((w.fd, w.data@)),
        write_view(None) is None,
{
}

// The working directory.

/// A command that is not number 7, and one without any part, changes nothing.
pub proof fn law_other_commands(s: Screen, number: Seq<u8>, parts: Seq<Seq<u8>>)
    requires
        command_number(number) != 7,
    ensures
        s.osc(Seq::empty()) == (Screen { dirty: true, ..s }),
        s.osc(seq![number] + parts) == (Screen { dirty: true, ..s }),
{
}

/// Command 7 with `file://`, a host and a path makes the decoded path the
/// working directory, and changes nothing else.
pub proof fn law_directory_command(s: Screen, number: Seq<u8>, host: Seq<u8>, path: Seq<u8>)
    requires
        command_number(number) == 7,
        !host.contains(0x2f),
        path.len() > 0,
        path[0] == 0x2f,
    ensures
        ({
            let url = seq![0x66u8, 0x69, 0x6c, 0x65, 0x3a, 0x2f, 0x2f] + host + path;
            &&& s.osc(seq![number, url]) == (Screen {
                working_directory: Some(percent_decoded(path)),
                dirty: true,
                ..s
            })
            &&& !path.contains(0x25) ==> s.osc(seq![number, url]).working_directory == Some(path)
        }),
{
    let url = seq![0x66u8, 0x69, 0x6c, 0x65, 0x3a, 0x2f, 0x2f] + host + path;
    let parts = seq![url];
    assert(url == file_scheme() + host + path);
    assert(seq![number] + parts =~= seq![number, url]);
    assert(seq![number, url].skip(1) =~= parts);
    law_directory_tracked(s, number, host, path, parts);
    law_percent_round_trip(path);
}

/// A payload that does not begin with `file://`, or has no slash behind it,
/// leaves the working directory as it is.
pub proof fn law_directory_ignored(s: Screen, number: Seq<u8>, parts: Seq<Seq<u8>>)
    requires
        command_number(number) == 7,
        ({
            let url = rejoined(parts);
            ||| url.len() < 7
            ||| url.take(7) != seq![0x66u8, 0x69, 0x6c, 0x65, 0x3a, 0x2f, 0x2f]
            ||| !url.skip(7).contains(0x2f)
        }),
    ensures
        s.osc(seq![number] + parts) == (Screen { dirty: true, ..s }),
{
    let url = rejoined(parts);
    assert((seq![number] + parts).skip(1) =~= parts);
    if file_scheme().is_prefix_of(url) {
        assert(url.take(7) =~= file_scheme());
        lemma_no_slash(url.skip(7));
    }
}

proof fn lemma_no_slash(bytes: Seq<u8>)
    requires
        !bytes.contains(0x2f),
    ensures
        from_slash(bytes) is None,
    decreases bytes.len(),
{
    if bytes.len() > 0 {
        let rest = bytes.skip(1);
        assert(bytes.contains(bytes[0]));
        assert(!rest.contains(0x2f)) by {
            if rest.contains(0x2f) {
                let i = choose|i: int| 0 <= i < rest.len() && rest[i] == 0x2f;
                assert(bytes[i + 1] == 0x2f);
            }
        }
        lemma_no_slash(rest);
    }
}

/// A percent sign with two hexadecimal digits stands for one byte; any other
/// byte stands for itself.
pub proof fn law_percent(high: int, low: int, upper: bool, b: u8, rest: Seq<u8>)
    requires
        0 <= high < 16,
        0 <= low < 16,
    ensures
        ({
            let digit = |v: int|
                (if v < 10 {
                    48 + v
                } else if upper {
                    55 + v
                } else {
                    87 + v
                }) as u8;
            percent_decoded(seq![0x25u8, digit(high), digit(low)] + rest) == seq![
                (16 * high + low) as u8,
            ] + percent_decoded(rest)
        }),
        b != 0x25 ==> percent_decoded(seq![b] + rest) == seq![b] + percent_decoded(rest),
        percent_decoded(Seq::empty()) == Seq::<u8>::empty(),
{
    let digit = |v: int|
        (if v < 10 {
            48 + v
        } else if upper {
            55 + v
        } else {
            87 + v
        }) as u8;
    let all = seq![0x25u8, digit(high), digit(low)] + rest;
    assert(all.skip(3) =~= rest);
    assert(hex_value(all[1]) == Some(high));
    assert(hex_value(all[2]) == Some(low));
    assert(starts_with_escape(all));
    assert((seq![b] + rest).skip(1) =~= rest);
}

/// A percent sign without two hexadecimal digits stands for itself.
pub proof fn law_percent_alone(rest: Seq<u8>, i: int)
    requires
        rest.len() < 2 || {
            let b = rest[i];
            &&& i == 0 || i == 1
            &&& !(48 <= b <= 57) && !(65 <= b <= 70) && !(97 <= b <= 102)
        },
    ensures
        percent_decoded(seq![0x25u8] + rest) == seq![0x25u8] + percent_decoded(rest),
{
    let all = seq![0x25u8] + rest;
    assert(all.skip(1) =~= rest);
    if rest.len() >= 2 {
        assert(all[1] == rest[0] && all[2] == rest[1]);
    }
}

/// Parts are put together again with semicolons between them.
pub proof fn law_rejoined(first: Seq<Seq<u8>>, part: Seq<u8>, second: Seq<Seq<u8>>)
    requires
        first.len() > 0,
        second.len() > 0,
    ensures
        rejoined(Seq::empty()) == Seq::<u8>::empty(),
        rejoined(seq![part]) == part,
        rejoined(first + second) == rejoined(first).push(0x3b) + rejoined(second),
    decreases second.len(),
{
    let all = first + second;
    assert(all.last() == second.last());
    if second.len() == 1 {
        assert(all.drop_last() =~= first);
    } else {
        law_rejoined(first, part, second.drop_last());
        assert(all.drop_last() =~= first + second.drop_last());
        assert(rejoined(all) =~= rejoined(first).push(0x3b) + rejoined(second));
    }
}

// Parameters.

/// Of every parameter of a control sequence the first number counts, in their
/// order; a parameter without a number is left out.
pub proof fn law_leading_values(first: Seq<Seq<u16>>, group: Seq<u16>, second: Seq<Seq<u16>>)
    ensures
        leading_values(Seq::empty()) == Seq::<u16>::empty(),
        leading_values(seq![group]) == if group.len() > 0 {
            seq![group[0]]
        } else {
            Seq::empty()
        },
        leading_values(first + second) == leading_values(first) + leading_values(second),
    decreases second.len(),
{
    reveal_with_fuel(leading_values, 2);
    assert(seq![group].drop_last() =~= Seq::<Seq<u16>>::empty());
    assert(leading_values(seq![group]) =~= if group.len() > 0 {
        seq![group[0]]
    } else {
        Seq::empty()
    });
    if second.len() == 0 {
        assert(first + second =~= first);
        assert(leading_values(first) + leading_values(second) =~= leading_values(first));
    } else {
        law_leading_values(first, group, second.drop_last());
        assert((first + second).drop_last() =~= first + second.drop_last());
        assert(leading_values(first + second) =~= leading_values(first) + leading_values(second));
    }
}

/// The mark of a control sequence is its first intermediate byte.
pub proof fn law_first_byte(bytes: Seq<u8>)
    ensures
        bytes.len() == 0 ==> first_byte(bytes) is None,
        bytes.len() > 0 ==> first_byte(bytes) == Some(bytes[0]),
{
}

// Keys and sizes.

/// What every key sends. Text is sent in UTF-8, and other keys send nothing.
pub proof fn law_keys(text: String)
    ensures
        key_code(Key::Enter) == seq![0x0du8],
        key_code(Key::Backspace) == seq![0x7fu8],
        key_code(Key::Escape) == seq![0x1bu8],
        key_code(Key::Tab) == seq![0x09u8],
        key_code(Key::Space) == seq![0x20u8],
        key_code(Key::ArrowUp) == seq![0x1bu8, 0x5b, 0x41],
        key_code(Key::ArrowDown) == seq![0x1bu8, 0x5b, 0x42],
        key_code(Key::ArrowRight) == seq![0x1bu8, 0x5b, 0x43],
        key_code(Key::ArrowLeft) == seq![0x1bu8, 0x5b, 0x44],
        key_code(Key::Character(text)) == vstd::utf8::encode_utf8(text@),
        key_code(Key::Other) == Seq::<u8>::empty(),
{
}

/// As many cells are counted as fit into the pixels, in tenths of a pixel, and
/// not one more; but at least one.
pub proof fn law_cell_count(pixels: int, unit: int)
    requires
        pixels >= 0,
        unit > 0,
    ensures
        ({
            let n = cell_count(pixels, unit);
            &&& 1 <= n <= usize::MAX
            &&& n > 1 ==> n * unit <= 10 * pixels
            &&& n < usize::MAX ==> 10 * pixels < (n + 1) * unit
        }),
{
    let n = cell_count(pixels, unit);
    let a = pixels * 10;
    let q = a / unit;
    lemma_fundamental_div_mod(a, unit);
    assert(unit * q == q * unit) by (nonlinear_arith);
    assert((n + 1) * unit == n * unit + unit) by (nonlinear_arith);
    assert((q + 1) * unit == q * unit + unit) by (nonlinear_arith);
    if n <= q {
        assert(n * unit <= q * unit) by (nonlinear_arith)
            requires
                n <= q,
                unit > 0,
        ;
    }
    if q <= n {
        assert(q * unit <= n * unit) by (nonlinear_arith)
            requires
                q <= n,
                unit > 0,
        ;
    }
}

/// The columns that fit are counted by the width of a cell, the rows by its
/// height. The size of the window and the pseudo-terminal are taken down; the
/// grid stays as it is.
pub proof fn law_window(s: Screen, width: int, height: int, fd: i32, cols: int, rows: int)
    ensures
        s.cols_in(width) == cell_count(width, s.char_width),
        s.rows_in(height) == cell_count(height, s.char_height),
        s.in_window(width, height) == (Screen { pixel_width: width, pixel_height: height, ..s }),
        s.attached(fd, cols, rows) == (Screen {
            pty_fd: Some(fd),
            pty_master_fd: Some(fd),
            cols,
            rows,
            ..s
        }),
{
}

/// A capacity grows to a power of two that is enough, but whose half is not.
pub proof fn law_next_power(n: int, size: int)
    requires
        n > 0,
        is_next_power(n, size),
    ensures
        n <= size,
        size < 2 * n,
        exists|k: nat| #[trigger] pow2(k) == size,
{
    let k = choose|k: nat| #[trigger]
        pow2(k) == size && n <= size && (k > 0 ==> pow2((k - 1) as nat) < n);
    vstd::arithmetic::power2::lemma2_to64();
    if k > 0 {
        lemma_pow2_unfold(k);
    }
}

} // verus!
