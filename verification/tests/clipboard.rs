use fluxvt::clipboard::{KeyAction, Place, Selection};
use fluxvt::reply::PtyWrite;
use fluxvt::stream::Stream;
use fluxvt::terminal::TerminalState;
use fluxvt::window::Key;

fn screen(text: &[u8]) -> TerminalState {
    let mut t = TerminalState::new(6, 4);
    t.pty_fd = Some(4);
    Stream::new().feed(&mut t, text);
    t
}

fn selection(x: usize, y: usize, to_x: usize, to_y: usize) -> Selection {
    Selection { anchor: Place { x, y }, head: Place { x: to_x, y: to_y } }
}

fn typed(s: &str) -> Key {
    Key::Character(s.to_string())
}

#[test]
fn copying() {
    let t = screen(b"one  \r\n  two\r\n\r\nlast");
    assert_eq!(t.copy(selection(0, 0, 2, 0)), "one");
    assert_eq!(t.copy(selection(1, 0, 1, 0)), "n");
    assert_eq!(t.copy(selection(0, 0, 5, 0)), "one");
    assert_eq!(t.copy(selection(1, 0, 3, 1)), "ne\n  tw");
    assert_eq!(t.copy(selection(3, 1, 1, 0)), "ne\n  tw");
    assert_eq!(t.copy(selection(2, 1, 3, 3)), "two\n\nlast");
    assert_eq!(t.copy(selection(0, 2, 5, 2)), "");
}

#[test]
fn copying_beyond_the_grid() {
    let t = screen(b"one\r\n\r\n\r\nlast");
    assert_eq!(t.copy(selection(0, 3, 90, 3)), "last");
    assert_eq!(t.copy(selection(0, 3, 1, 90)), "last");
    assert_eq!(t.copy(selection(90, 0, 91, 0)), "");
    assert_eq!(t.copy(selection(0, 7, 3, 9)), "");
}

#[test]
fn pasting() {
    let mut t = screen(b"");
    assert_eq!(t.paste(""), None);
    assert_eq!(t.paste("a\u{e9}"), Some(PtyWrite { fd: 4, data: b"a\xc3\xa9".to_vec() }));
    Stream::new().feed(&mut t, b"\x1b[?2004h");
    assert_eq!(t.paste("x"), Some(PtyWrite { fd: 4, data: b"\x1b[200~x\x1b[201~".to_vec() }));
    assert_eq!(t.paste(""), None);
    t.pty_fd = None;
    assert_eq!(t.paste("x"), None);
}

#[test]
fn shortcuts() {
    let t = screen(b"");
    for s in ["c", "C"] {
        assert_eq!(t.key_action(&typed(s), true, true), KeyAction::Copy);
    }
    for s in ["v", "V"] {
        assert_eq!(t.key_action(&typed(s), true, true), KeyAction::Paste);
    }
    for (control, shift) in [(false, false), (false, true), (true, false)] {
        for s in ["c", "C", "v", "V"] {
            let action = t.key_action(&typed(s), control, shift);
            let data = s.as_bytes().to_vec();
            assert_eq!(action, KeyAction::Write(Some(PtyWrite { fd: 4, data })));
        }
    }
    let enter = PtyWrite { fd: 4, data: vec![13] };
    assert_eq!(t.key_action(&Key::Enter, true, true), KeyAction::Write(Some(enter)));
    assert_eq!(t.key_action(&Key::Other, true, true), KeyAction::Write(None));
    let both = PtyWrite { fd: 4, data: b"cv".to_vec() };
    assert_eq!(t.key_action(&typed("cv"), true, true), KeyAction::Write(Some(both)));
}

#[test]
fn places() {
    let t = screen(b"");
    assert_eq!(t.place_at(0, 0), Place { x: 0, y: 0 });
    assert_eq!(t.place_at(9, 19), Place { x: 0, y: 0 });
    assert_eq!(t.place_at(10, 20), Place { x: 1, y: 1 });
    assert_eq!(t.place_at(47, 79), Place { x: 4, y: 3 });
    assert_eq!(t.place_at(48, 80), Place { x: 5, y: 3 });
    assert_eq!(t.place_at(5000, 5000), Place { x: 5, y: 3 });
}

#[test]
fn printed_text_is_copied_back() {
    let t = screen(b"\x1b[2;3Hab c");
    assert_eq!(t.copy(selection(2, 1, 5, 1)), "ab c");
}
