use fluxvt::color::{rgb_color, xterm_color};
use fluxvt::reply::PtyWrite;
use fluxvt::stream::{Event, Stream};
use fluxvt::terminal::TerminalState;
use vte::{Params, Parser, Perform};

/// A terminal after some bytes, with its replies.
struct Fed {
    state: TerminalState,
    replies: Vec<u8>,
    used: usize,
    complete: bool,
}

fn feed(mut state: TerminalState, bytes: &[u8]) -> Fed {
    state.pty_fd = Some(1);
    let progress = Stream::new().try_feed(&mut state, bytes);
    let mut replies = Vec::new();
    for w in progress.writes {
        assert_eq!(w.fd, 1);
        replies.extend(w.data);
    }
    Fed { state, replies, used: progress.used, complete: progress.complete }
}

fn line(t: &TerminalState, y: usize) -> String {
    t.grid[y].iter().map(|c| c.ch).collect()
}

#[test]
fn text_and_newlines() {
    let f = feed(TerminalState::new(5, 3), b"ab\r\ncd\xc3\xa9");
    assert_eq!(line(&f.state, 0), "ab   ");
    assert_eq!(line(&f.state, 1), "cd\u{e9}  ");
}

#[test]
fn parameters_reach_the_terminal() {
    let f = feed(TerminalState::new(20, 10), b"\x1b[4;7Hx\x1b[6n");
    assert_eq!(f.state.grid[3][6].ch, 'x');
    assert_eq!(f.replies, b"\x1b[4;8R");
}

#[test]
fn missing_parameters_are_zero() {
    let f = feed(TerminalState::new(20, 10), b"\x1b[5;5H\x1b[;3H\x1b[6n");
    assert_eq!(f.replies, b"\x1b[1;3R");
}

#[test]
fn only_the_first_subparameter_counts() {
    let f = feed(TerminalState::new(20, 10), b"\x1b[4:9;7:8:9H\x1b[6n");
    assert_eq!(f.replies, b"\x1b[4;7R");
}

#[test]
fn rendition_by_stream() {
    let f = feed(TerminalState::new(4, 1), b"\x1b[1;38;5;110mA\x1b[48;2;1;2;3mB\x1b[mC");
    assert_eq!(f.state.grid[0][0].fg, Some(xterm_color(110)));
    assert!(f.state.grid[0][0].bold);
    assert_eq!(f.state.grid[0][1].bg, Some(rgb_color(1, 2, 3)));
    assert!(f.state.grid[0][1].bold);
    assert!(!f.state.grid[0][2].bold);
}

#[test]
fn huge_palette_index() {
    let f = feed(TerminalState::new(4, 1), b"\x1b[38;5;65535mA");
    assert_eq!(f.state.grid[0][0].fg, Some(xterm_color(65535)));
}

#[test]
fn private_marks_reach_the_terminal() {
    let f = feed(TerminalState::new(4, 1), b"ab\x1b[?1049hxyz\x1b[?25l\x1b[?1049l");
    assert_eq!(line(&f.state, 0), "ab  ");
    assert!(!f.state.cursor_visible);
    let f = feed(TerminalState::new(4, 1), b"\x1b[c\x1b[>c\x1b[?c");
    assert_eq!(f.replies, b"\x1b[?1;0c\x1b[>0;0;0c");
}

#[test]
fn operating_system_commands() {
    let f = feed(TerminalState::new(4, 1), b"\x1b]11;?\x07\x1b]7;file://h/tmp\x1b\\");
    assert_eq!(f.replies, b"\x1b]11;rgb:0ccc/0ccc/0ccc\x1b\\");
    assert_eq!(f.state.working_directory.as_deref(), Some(&b"/tmp"[..]));
    let f = feed(TerminalState::new(4, 1), b"\x1b]7;file://h/a;b%3b\x07");
    assert_eq!(f.state.working_directory.as_deref(), Some(&b"/a;b;"[..]));
}

#[test]
fn replies_come_in_order() {
    let mut t = TerminalState::new(9, 9);
    t.pty_fd = Some(5);
    let mut stream = Stream::new();
    let writes = stream.feed(&mut t, b"\x1b[6n\x1b]11;?\x07ab\x1b[c\x1b[6n");
    let data: Vec<&[u8]> = writes.iter().map(|w| &w.data[..]).collect();
    assert_eq!(
        data,
        [&b"\x1b[1;1R"[..], b"\x1b]11;rgb:0ccc/0ccc/0ccc\x1b\\", b"\x1b[?1;0c", b"\x1b[1;3R"]
    );
    assert!(writes.iter().all(|w| w.fd == 5));
    t.pty_fd = None;
    assert!(stream.feed(&mut t, b"\x1b[6n").is_empty());
}

#[test]
fn output_can_be_cut_anywhere() {
    let bytes = b"a\xc3\xa9\x1b[2;3Hx\x1b[6n\x1b]7;file://h/t%20m\x07\x1b[1;31mred\r\n\x1b[?25l";
    let whole = feed(TerminalState::new(7, 3), bytes);
    for cut in 0..=bytes.len() {
        let mut t = TerminalState::new(7, 3);
        t.pty_fd = Some(1);
        let mut stream = Stream::new();
        let mut replies = Vec::new();
        for piece in [&bytes[..cut], &bytes[cut..]] {
            for w in stream.feed(&mut t, piece) {
                replies.extend(w.data);
            }
        }
        assert_eq!(replies, whole.replies);
        assert_eq!(t.grid, whole.state.grid);
        assert_eq!((t.cursor_x, t.cursor_y), (whole.state.cursor_x, whole.state.cursor_y));
        assert_eq!(t.working_directory, whole.state.working_directory);
        assert_eq!(t.cursor_visible, whole.state.cursor_visible);
    }
}

#[test]
fn what_nobody_asked_for_is_left_out() {
    let f = feed(TerminalState::new(6, 1), b"a\x1b7\x1bPq123\x1b\\b\xffc");
    assert_eq!(line(&f.state, 0), "abc   ");
    assert!(f.complete);
}

#[test]
fn sequences_off_the_grid_end_the_stream() {
    let mut t = TerminalState::new(4, 1);
    t.cursor_y = 3;
    let f = feed(t, b"\x1b[6n\x1b[1A\x1b[P\x1b[K\x1b[6n");
    assert!(!f.complete);
    assert_eq!(f.used, 11);
    assert_eq!(f.replies, b"\x1b[4;1R");
    assert_eq!(f.state.cursor_y, 2);
    let f = feed(TerminalState::new(4, 1), b"\x1b[P\x1b[K");
    assert!(f.complete);
    assert_eq!(f.used, 6);
}

#[test]
fn a_saved_cursor_off_a_smaller_screen() {
    let mut t = TerminalState::new(4, 4);
    let mut stream = Stream::new();
    assert!(stream.try_feed(&mut t, b"\x1b[4;4H\x1b[s").complete);
    t.resize(2, 2);
    let progress = stream.try_feed(&mut t, b"\x1b[u\x1b[@c");
    assert!(!progress.complete);
    assert_eq!(progress.used, 6);
    assert!(progress.writes.is_empty());
}

#[test]
fn events_are_taken_in_one_by_one() {
    let mut t = TerminalState::new(4, 1);
    t.pty_fd = Some(7);
    assert!(t.accepts_event(&Event::Print('x')));
    assert_eq!(t.receive(&Event::Print('x')), None);
    assert_eq!(t.receive(&Event::Execute(8)), None);
    let query = Event::Csi { groups: vec![vec![6, 1]], intermediates: vec![], command: 'n' };
    assert_eq!(t.receive(&query), Some(PtyWrite { fd: 7, data: b"\x1b[1;1R".to_vec() }));
    let report = Event::Osc(vec![b"7".to_vec(), b"file://h/a".to_vec(), b"b".to_vec()]);
    assert_eq!(t.receive(&report), None);
    assert_eq!(t.working_directory.as_deref(), Some(&b"/a;b"[..]));
    t.cursor_y = 9;
    let delete = Event::Csi { groups: vec![], intermediates: vec![], command: 'P' };
    assert!(!t.accepts_event(&delete));
    let mut writes = Vec::new();
    assert!(!t.receive_all(&vec![query, delete, Event::Print('y')], &mut writes));
    assert_eq!(writes, [PtyWrite { fd: 7, data: b"\x1b[10;1R".to_vec() }]);
}

#[test]
fn direct_dispatch() {
    struct Direct(TerminalState, Option<PtyWrite>);
    impl Perform for Direct {
        fn csi_dispatch(&mut self, params: &Params, i: &[u8], ignore: bool, command: char) {
            self.1 = self.0.perform_csi_dispatch(params, i, ignore, command);
        }
    }
    let mut d = Direct(TerminalState::new(9, 9), None);
    d.0.pty_fd = Some(2);
    let mut parser = Parser::new();
    for &byte in b"\x1b[3;4H\x1b[6n" {
        parser.advance(&mut d, byte);
    }
    assert_eq!(d.1, Some(PtyWrite { fd: 2, data: b"\x1b[3;4R".to_vec() }));
}

#[test]
fn refused_dispatch() {
    struct Direct(TerminalState, usize);
    impl Perform for Direct {
        fn csi_dispatch(&mut self, params: &Params, i: &[u8], ignore: bool, command: char) {
            if self.0.try_csi_dispatch(params, i, ignore, command).is_none() {
                self.1 += 1;
            }
        }
    }
    let mut d = Direct(TerminalState::new(4, 1), 0);
    d.0.cursor_y = 3;
    let mut parser = Parser::new();
    for &byte in b"\x1b[P\x1b[K\x1b[1A" {
        parser.advance(&mut d, byte);
    }
    assert_eq!(d.1, 2);
    assert_eq!(d.0.cursor_y, 2);
}

#[test]
fn any_bytes_are_taken_in() {
    // A simple generator of bytes, rich in escape sequences.
    let mut seed: u32 = 12345;
    let mut bytes = Vec::new();
    let pieces: [&[u8]; 24] = [
        b"\x1b[", b"\x1b[?", b"\x1b]", b";", b"1", b"9", b"1049", b"h", b"l", b"J", b"K", b"L",
        b"M", b"P", b"@", b"S", b"H", b"m", b"s", b"u", b"text", b"\n", b"\t", b"\x07",
    ];
    for _ in 0..20000 {
        seed = seed.wrapping_mul(1664525).wrapping_add(1013904223);
        bytes.extend_from_slice(pieces[(seed >> 16) as usize % pieces.len()]);
    }
    let f = feed(TerminalState::new(13, 7), &bytes);
    assert!(f.complete);
    assert_eq!(f.used, bytes.len());
    assert_eq!(f.state.grid.len(), 7);
    assert!(f.state.grid.iter().all(|row| row.len() == 13));
    assert!(f.state.cursor_x < 13 && f.state.cursor_y < 7);
    assert!(f.state.scrollback.len() <= f.state.scrollback_limit);
}
