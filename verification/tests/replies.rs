use fluxvt::color::rgb_color;
use fluxvt::osc::{join_payload, parse_number};
use fluxvt::reply::{push_decimal, push_hex4, PtyWrite};
use fluxvt::terminal::TerminalState;

fn terminal() -> TerminalState {
    let mut t = TerminalState::new(80, 24);
    t.pty_fd = Some(9);
    t
}

fn text(w: Option<PtyWrite>) -> String {
    let w = w.unwrap();
    assert_eq!(w.fd, 9);
    String::from_utf8(w.data).unwrap()
}

#[test]
fn writes_go_to_the_descriptor() {
    let t = terminal();
    assert_eq!(t.write_pty(b"abc"), Some(PtyWrite { fd: 9, data: b"abc".to_vec() }));
    let t = TerminalState::new(80, 24);
    assert_eq!(t.write_pty(b"abc"), None);
}

#[test]
fn decimal_digits() {
    let mut b = Vec::new();
    push_decimal(&mut b, 0);
    b.push(b' ');
    push_decimal(&mut b, 10);
    b.push(b' ');
    push_decimal(&mut b, 18446744073709551616);
    assert_eq!(b, b"0 10 18446744073709551616");
}

#[test]
fn hexadecimal_digits() {
    let mut b = Vec::new();
    push_hex4(&mut b, 0);
    push_hex4(&mut b, 0x0ccc);
    push_hex4(&mut b, 0xfA9b);
    assert_eq!(b, b"00000cccfa9b");
}

#[test]
fn cursor_position() {
    let mut t = terminal();
    assert_eq!(text(t.send_cursor_position()), "\x1b[1;1R");
    t.cursor_x = 78;
    t.cursor_y = 11;
    assert_eq!(text(t.send_cursor_position()), "\x1b[12;79R");
    t.cursor_x = usize::MAX;
    assert_eq!(text(t.send_cursor_position()), "\x1b[12;18446744073709551616R");
}

#[test]
fn cursor_query() {
    let mut t = terminal();
    t.csi_dispatch(&[5, 7], b"", 'H');
    assert_eq!(text(t.csi_dispatch(&[6], b"", 'n')), "\x1b[5;7R");
    assert_eq!(t.csi_dispatch(&[6], b"?", 'n'), None);
    assert_eq!(t.csi_dispatch(&[5], b"", 'n'), None);
    assert_eq!(t.csi_dispatch(&[], b"", 'n'), None);
    assert_eq!(text(t.csi_dispatch(&[6], b">", 'n')), "\x1b[5;7R");
    t.pty_fd = None;
    assert_eq!(t.csi_dispatch(&[6], b"", 'n'), None);
}

#[test]
fn device_attributes() {
    let mut t = terminal();
    assert_eq!(text(t.csi_dispatch(&[], b"", 'c')), "\x1b[?1;0c");
    assert_eq!(text(t.csi_dispatch(&[0], b">", 'c')), "\x1b[>0;0;0c");
    assert_eq!(t.csi_dispatch(&[], b"?", 'c'), None);
}

#[test]
fn background_color() {
    let mut t = terminal();
    assert_eq!(text(t.send_background_color()), "\x1b]11;rgb:0ccc/0ccc/0ccc\x1b\\");
    t.bg_color = rgb_color(255, 1, 128);
    assert_eq!(text(t.send_background_color()), "\x1b]11;rgb:ffff/0101/8080\x1b\\");
}

#[test]
fn command_numbers() {
    assert_eq!(parse_number(b"11"), 11);
    assert_eq!(parse_number(b"+11"), 11);
    assert_eq!(parse_number(b"000000000000011"), 11);
    assert_eq!(parse_number(b"65535"), 65535);
    assert_eq!(parse_number(b"65547"), 65535);
    assert_eq!(parse_number(b"4294967307"), 65535);
    assert_eq!(parse_number(b""), 65535);
    assert_eq!(parse_number(b"+"), 65535);
    assert_eq!(parse_number(b"-11"), 65535);
    assert_eq!(parse_number(b"1a"), 65535);
    assert_eq!(parse_number(b" 11"), 65535);
    assert_eq!(parse_number(&[0xff]), 65535);
}

#[test]
fn command_numbers_agree_with_std() {
    let cases: [&[u8]; 12] = [
        b"0", b"7", b"+7", b"++7", b"7+", b"65534", b"65536", b"99999999999999999999", b"\xc3\xa9",
        b"1 1", b"\xff1", b"0x11",
    ];
    for case in cases {
        let expected = std::str::from_utf8(case).unwrap_or("").parse::<u16>().unwrap_or(u16::MAX);
        assert_eq!(parse_number(case), expected);
    }
}

#[test]
fn payloads_are_joined() {
    assert_eq!(join_payload(&[b"1", b"ab", b"", b"c"]), b"abc");
    assert!(join_payload(&[b"1"]).is_empty());
}

#[test]
fn background_query() {
    let mut t = terminal();
    t.dirty = false;
    let expected = "\x1b]11;rgb:0ccc/0ccc/0ccc\x1b\\";
    assert_eq!(text(t.perform_osc_dispatch(&[b"11", b"?"], false)), expected);
    assert!(t.dirty);
    assert_eq!(text(t.perform_osc_dispatch(&[b"11", b"", b"?"], true)), expected);
    assert_eq!(t.perform_osc_dispatch(&[b"11"], false), None);
    assert_eq!(t.perform_osc_dispatch(&[b"11", b"??"], false), None);
    assert_eq!(t.perform_osc_dispatch(&[b"11", b"x"], false), None);
    assert_eq!(t.perform_osc_dispatch(&[b"10", b"?"], false), None);
    assert_eq!(t.perform_osc_dispatch(&[b"x", b"?"], false), None);
}

#[test]
fn other_commands_do_nothing() {
    let mut t = terminal();
    t.dirty = false;
    assert_eq!(t.perform_osc_dispatch(&[], false), None);
    assert!(t.dirty);
    for n in [&b"0"[..], b"1", b"2", b"52", b"133", b"junk"] {
        assert_eq!(t.perform_osc_dispatch(&[n, b"title"], false), None);
    }
    assert!(t.working_directory.is_none());
    assert_eq!((t.cursor_x, t.cursor_y), (0, 0));
}

fn directory(parts: &[&[u8]]) -> Option<Vec<u8>> {
    let mut t = terminal();
    assert_eq!(t.perform_osc_dispatch(parts, false), None);
    t.working_directory
}

#[test]
fn working_directory() {
    let mut t = terminal();
    assert_eq!(t.perform_osc_dispatch(&[b"7", b"file://host/home/me"], false), None);
    assert_eq!(t.working_directory.as_deref(), Some(&b"/home/me"[..]));
    t.perform_osc_dispatch(&[b"7", b"file://host/tmp"], false);
    assert_eq!(t.working_directory.as_deref(), Some(&b"/tmp"[..]));
    t.perform_osc_dispatch(&[b"7", b"nonsense"], false);
    assert_eq!(t.working_directory.as_deref(), Some(&b"/tmp"[..]));
}

#[test]
fn directories_of_urls() {
    assert_eq!(directory(&[b"7", b"file:///etc"]).as_deref(), Some(&b"/etc"[..]));
    assert_eq!(directory(&[b"7", b"file://h/"]).as_deref(), Some(&b"/"[..]));
    assert_eq!(directory(&[b"7", b"file://h/a%20b"]).as_deref(), Some(&b"/a b"[..]));
    assert_eq!(directory(&[b"7", b"file://h/%C3%a9%2f"]).as_deref(), Some("/\u{e9}/".as_bytes()));
    assert_eq!(directory(&[b"7", b"file://h/100%"]).as_deref(), Some(&b"/100%"[..]));
    assert_eq!(directory(&[b"7", b"file://h/%4"]).as_deref(), Some(&b"/%4"[..]));
    assert_eq!(directory(&[b"7", b"file://h/%g0%0g%%41"]).as_deref(), Some(&b"/%g0%0g%A"[..]));
    assert_eq!(directory(&[b"7", b"file://h/a", b"b"]).as_deref(), Some(&b"/a;b"[..]));
    assert_eq!(directory(&[b"7", b"file://h/", b"", b""]).as_deref(), Some(&b"/;;"[..]));
}

#[test]
fn payloads_that_name_no_directory() {
    assert_eq!(directory(&[b"7"]), None);
    assert_eq!(directory(&[b"7", b""]), None);
    assert_eq!(directory(&[b"7", b"/tmp"]), None);
    assert_eq!(directory(&[b"7", b"file:/tmp"]), None);
    assert_eq!(directory(&[b"7", b"FILE://h/tmp"]), None);
    assert_eq!(directory(&[b"7", b"http://h/tmp"]), None);
    assert_eq!(directory(&[b"7", b"file://host"]), None);
    assert_eq!(directory(&[b"8", b"file://h/tmp"]), None);
}
