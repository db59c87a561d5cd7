//! Operating system commands.

use crate::bounds::least;
use crate::model::Screen;
use crate::reply::{addressed, color_report, push_all, write_view, PtyWrite};
use crate::terminal::TerminalState;
use vstd::prelude::*;

verus! {

/// The parts of a command, as byte sequences.
pub open spec fn parts_view(parts: Seq<&[u8]>) -> Seq<Seq<u8>> {
    Seq::new(parts.len(), |i: int| parts[i]@)
}

/// All parts in a row.
pub open spec fn joined(parts: Seq<Seq<u8>>) -> Seq<u8>
    decreases parts.len(),
{
    if parts.len() == 0 {
        Seq::empty()
    } else {
        joined(parts.drop_last()) + parts.last()
    }
}

/// The byte is a decimal digit.
pub open spec fn is_digit(b: u8) -> bool {
    48 <= b <= 57
}

/// The number that decimal digits stand for.
pub open spec fn digits_value(digits: Seq<u8>) -> int
    decreases digits.len(),
{
    if digits.len() == 0 {
        0
    } else {
        10 * digits_value(digits.drop_last()) + (digits.last() - 48)
    }
}

/// Bytes without a leading plus sign.
pub open spec fn unsigned(bytes: Seq<u8>) -> Seq<u8> {
    if bytes.len() > 0 && bytes[0] == 0x2b {
        bytes.skip(1)
    } else {
        bytes
    }
}

/// The number of a command: one or more decimal digits, with a plus sign
/// before them or without. What is no number of sixteen bits counts as the
/// greatest such number.
pub open spec fn command_number(bytes: Seq<u8>) -> int {
    let digits = unsigned(bytes);
    if digits.len() > 0 && (forall|i: int| 0 <= i < digits.len() ==> is_digit(#[trigger] digits[i]))
        && digits_value(digits) <= 65535 {
        digits_value(digits)
    } else {
        65535
    }
}

/// All parts in a row, with the semicolons between them at which they were
/// taken apart.
pub open spec fn rejoined(parts: Seq<Seq<u8>>) -> Seq<u8>
    decreases parts.len(),
{
    if parts.len() == 0 {
        Seq::empty()
    } else if parts.len() == 1 {
        parts[0]
    } else {
        rejoined(parts.drop_last()).push(0x3b) + parts.last()
    }
}

/// `file://`.
pub open spec fn file_scheme() -> Seq<u8> {
    seq![0x66u8, 0x69, 0x6c, 0x65, 0x3a, 0x2f, 0x2f]
}

/// The bytes from the first slash on.
pub open spec fn from_slash(bytes: Seq<u8>) -> Option<Seq<u8>>
    decreases bytes.len(),
{
    if bytes.len() == 0 {
        None
    } else if bytes[0] == 0x2f {
        Some(bytes)
    } else {
        from_slash(bytes.skip(1))
    }
}

/// The value of a hexadecimal digit, in upper or in lower case.
pub open spec fn hex_value(b: u8) -> Option<int> {
    if 48 <= b <= 57 {
        Some(b - 48)
    } else if 65 <= b <= 70 {
        Some(b - 55)
    } else if 97 <= b <= 102 {
        Some(b - 87)
    } else {
        None
    }
}

/// The bytes start with a percent sign and two hexadecimal digits.
pub open spec fn starts_with_escape(bytes: Seq<u8>) -> bool {
    bytes.len() >= 3 && bytes[0] == 0x25 && hex_value(bytes[1]) is Some && hex_value(
        bytes[2],
    ) is Some
}

/// The bytes with every percent sign and the two hexadecimal digits after it
/// replaced by the byte that the digits stand for. A percent sign without two
/// such digits stands for itself.
pub open spec fn percent_decoded(bytes: Seq<u8>) -> Seq<u8>
    decreases bytes.len(),
{
    if bytes.len() == 0 {
        Seq::empty()
    } else if starts_with_escape(bytes) {
        seq![(16 * hex_value(bytes[1])->0 + hex_value(bytes[2])->0) as u8] + percent_decoded(
            bytes.skip(3),
        )
    } else {
        seq![bytes[0]] + percent_decoded(bytes.skip(1))
    }
}

/// The directory that a URL of the form `file://host/path` names: the path,
/// decoded. Any other payload names none.
pub open spec fn url_directory(url: Seq<u8>) -> Option<Seq<u8>> {
    if file_scheme().is_prefix_of(url) {
        match from_slash(url.skip(7)) {
            Some(path) => Some(percent_decoded(path)),
            None => None,
        }
    } else {
        None
    }
}

impl Screen {
    /// An operating system command is carried out: number 7 reports the
    /// working directory. A report that names no directory changes nothing.
    pub open spec fn osc(self, parts: Seq<Seq<u8>>) -> Screen {
        if parts.len() > 0 && command_number(parts[0]) == 7 {
            match url_directory(rejoined(parts.skip(1))) {
                Some(directory) => Screen { working_directory: Some(directory), ..self.touched() },
                None => self.touched(),
            }
        } else {
            self.touched()
        }
    }

    /// The reply to an operating system command: number 11 with a question
    /// mark asks for the background colour.
    pub open spec fn osc_reply(self, parts: Seq<Seq<u8>>) -> Option<Seq<u8>> {
        if parts.len() > 0 && command_number(parts[0]) == 11 && joined(parts.skip(1)) == seq![
            0x3fu8,
        ] {
            Some(color_report(self.bg_color))
        } else {
            None
        }
    }
}

/// The number of a command.
pub fn parse_number(bytes: &[u8]) -> (n: u16)
    ensures
        n == command_number(bytes@),
{
    let start: usize = if bytes.len() > 0 && bytes[0] == 0x2b { 1 } else { 0 };
    let ghost digits = unsigned(bytes@);
    if start == bytes.len() {
        return 65535;
    }
    let mut value: u32 = 0;
    for i in start..bytes.len()
        invariant
            start <= 1,
            start < bytes@.len(),
            digits == unsigned(bytes@),
            digits == bytes@.skip(start as int),
            forall|j: int| 0 <= j < i - start ==> is_digit(#[trigger] digits[j]),
            value == least(digits_value(digits.take(i - start)), 65536),
            value >= 0,
            digits_value(digits.take(i - start)) >= 0,
    {
        let b: u8 = bytes[i];
        assert(digits[i - start] == b);
        if b < 48 || b > 57 {
            assert(!is_digit(digits[i - start]));
            return 65535;
        }
        assert(digits.take(i + 1 - start).drop_last() =~= digits.take(i - start));
        let next: u32 = value * 10 + (b as u32 - 48);
        value = if next < 65536 { next } else { 65536 };
    }
    assert(digits.take(digits.len() as int) =~= digits);
    if value < 65536 {
        value as u16
    } else {
        65535
    }
}

/// The parts after the first one, in a row.
pub fn join_payload(parts: &[&[u8]]) -> (payload: Vec<u8>)
    requires
        parts@.len() > 0,
    ensures
        payload@ == joined(parts_view(parts@).skip(1)),
{
    let ghost rest = parts_view(parts@).skip(1);
    let mut payload: Vec<u8> = Vec::new();
    for i in 1..parts.len()
        invariant
            rest == parts_view(parts@).skip(1),
            payload@ == joined(rest.take(i - 1)),
    {
        assert(rest.take(i as int).drop_last() =~= rest.take(i - 1));
        assert(rest.take(i as int).last() == parts@[i as int]@);
        push_all(&mut payload, parts[i]);
    }
    assert(rest.take(rest.len() as int) =~= rest);
    payload
}

/// The parts after the first one, in a row, with semicolons between them.
pub fn rejoin_payload(parts: &[&[u8]]) -> (payload: Vec<u8>)
    requires
        parts@.len() > 0,
    ensures
        payload@ == rejoined(parts_view(parts@).skip(1)),
{
    let ghost rest = parts_view(parts@).skip(1);
    let mut payload: Vec<u8> = Vec::new();
    for i in 1..parts.len()
        invariant
            rest == parts_view(parts@).skip(1),
            payload@ == rejoined(rest.take(i - 1)),
    {
        assert(rest.take(i as int).drop_last() =~= rest.take(i - 1));
        assert(rest.take(i as int).last() == parts@[i as int]@);
        if i > 1 {
            payload.push(0x3b);
        }
        push_all(&mut payload, parts[i]);
        assert(payload@ =~= rejoined(rest.take(i as int)));
    }
    assert(rest.take(rest.len() as int) =~= rest);
    payload
}

/// The value of a hexadecimal digit, in upper or in lower case.
fn parse_hex(b: u8) -> (v: Option<u8>)
    ensures
        match v {
            Some(n) => hex_value(b) == Some(n as int) && n < 16,
            None => hex_value(b) is None,
        },
{
    if 48 <= b && b <= 57 {
        Some(b - 48)
    } else if 65 <= b && b <= 70 {
        Some(b - 55)
    } else if 97 <= b && b <= 102 {
        Some(b - 87)
    } else {
        None
    }
}

/// The byte that an escape at `i` stands for, if there is one.
fn parse_escape(bytes: &[u8], i: usize) -> (v: Option<u8>)
    requires
        i < bytes@.len(),
    ensures
        ({
            let rest = bytes@.skip(i as int);
            match v {
                Some(n) => starts_with_escape(rest) && n == 16 * hex_value(rest[1])->0 + hex_value(
                    rest[2],
                )->0,
                None => !starts_with_escape(rest),
            }
        }),
{
    if bytes.len() - i < 3 || bytes[i] != 0x25 {
        return None;
    }
    match (parse_hex(bytes[i + 1]), parse_hex(bytes[i + 2])) {
        (Some(high), Some(low)) => Some(16 * high + low),
        _ => None,
    }
}

/// The bytes from `start` on with their escapes replaced.
fn decode_percent(bytes: &[u8], start: usize) -> (decoded: Vec<u8>)
    requires
        start <= bytes@.len(),
    ensures
        decoded@ == percent_decoded(bytes@.skip(start as int)),
{
    let mut decoded: Vec<u8> = Vec::new();
    let mut i: usize = start;
    while i < bytes.len()
        invariant
            start <= i <= bytes@.len(),
            decoded@ + percent_decoded(bytes@.skip(i as int)) == percent_decoded(
                bytes@.skip(start as int),
            ),
        decreases bytes@.len() - i,
    {
        let ghost before = decoded@;
        let ghost rest = bytes@.skip(i as int);
        match parse_escape(bytes, i) {
            Some(b) => {
                decoded.push(b);
                i = i + 3;
                assert(rest.skip(3) =~= bytes@.skip(i as int));
            },
            None => {
                decoded.push(bytes[i]);
                i = i + 1;
                assert(rest.skip(1) =~= bytes@.skip(i as int));
            },
        }
        assert(decoded@ + percent_decoded(bytes@.skip(i as int)) =~= before + percent_decoded(
            rest,
        ));
    }
    assert(percent_decoded(bytes@.skip(i as int)) =~= Seq::empty());
    assert(decoded@ + Seq::<u8>::empty() =~= decoded@);
    decoded
}

/// The place of the first slash from `start` on.
fn find_slash(bytes: &[u8], start: usize) -> (at: Option<usize>)
    requires
        start <= bytes@.len(),
    ensures
        match at {
            Some(i) => start <= i < bytes@.len() && from_slash(bytes@.skip(start as int)) == Some(
                bytes@.skip(i as int),
            ),
            None => from_slash(bytes@.skip(start as int)) is None,
        },
{
    let mut i: usize = start;
    while i < bytes.len()
        invariant
            start <= i <= bytes@.len(),
            from_slash(bytes@.skip(i as int)) == from_slash(bytes@.skip(start as int)),
        decreases bytes@.len() - i,
    {
        if bytes[i] == 0x2f {
            return Some(i);
        }
        assert(bytes@.skip(i as int).skip(1) =~= bytes@.skip(i + 1));
        i = i + 1;
    }
    None
}

fn is_file_url(url: &[u8]) -> (yes: bool)
    ensures
        yes == file_scheme().is_prefix_of(url@),
{
    let yes = url.len() >= 7 && url[0] == 0x66 && url[1] == 0x69 && url[2] == 0x6c && url[3] == 0x65
        && url[4] == 0x3a && url[5] == 0x2f && url[6] == 0x2f;
    proof {
        let scheme = file_scheme();
        if yes {
            assert(scheme =~= url@.subrange(0, 7));
        } else if scheme.is_prefix_of(url@) {
            assert forall|i: int| 0 <= i < 7 implies #[trigger] url@[i] == scheme[i] by {
                assert(url@.subrange(0, 7)[i] == url@[i]);
            }
        }
    }
    yes
}

/// The directory that a URL of the form `file://host/path` names.
pub fn parse_directory(url: &[u8]) -> (directory: Option<Vec<u8>>)
    ensures
        match directory {
            Some(path) => url_directory(url@) == Some(path@),
            None => url_directory(url@) is None,
        },
{
    if !is_file_url(url) {
        return None;
    }
    match find_slash(url, 7) {
        Some(i) => Some(decode_percent(url, i)),
        None => None,
    }
}

impl TerminalState {
    fn set_working_directory(&mut self, directory: Vec<u8>)
        ensures
            final(self)@ == (Screen { working_directory: Some(directory@), ..old(self)@ }),
    {
        self.working_directory = Some(directory);
    }

    /// Carries an operating system command out. The result is what is to be
    /// written in reply.
    pub fn perform_osc_dispatch(&mut self, params: &[&[u8]], _command: bool) -> (w: Option<
        PtyWrite,
    >)
        ensures
            final(self)@ == old(self)@.osc(parts_view(params@)),
            write_view(w) == addressed(
                old(self).pty_fd,
                old(self)@.osc_reply(parts_view(params@)),
            ),
    {
        self.touch();
        if params.len() == 0 {
            return None;
        }
        let number: u16 = parse_number(params[0]);
        if number == 7 {
            let url: Vec<u8> = rejoin_payload(params);
            match parse_directory(url.as_slice()) {
                Some(directory) => self.set_working_directory(directory),
                None => {},
            }
            return None;
        }
        let payload: Vec<u8> = join_payload(params);
        if number == 11 && payload.len() == 1 && payload[0] == 0x3f {
            assert(payload@ =~= seq![0x3fu8]);
            return self.send_background_color();
        }
        None
    }
}

} // verus!
