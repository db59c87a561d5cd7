use fluxvt::reply::{PtyWrite, WindowSize};
use fluxvt::terminal::TerminalState;
use fluxvt::window::{
    cells_in, grown_capacity, key_bytes, shell_path, surface_format, surface_size, Key,
};

#[test]
fn keys() {
    assert_eq!(key_bytes(&Key::Enter), b"\r");
    assert_eq!(key_bytes(&Key::Backspace), b"\x7f");
    assert_eq!(key_bytes(&Key::Escape), b"\x1b");
    assert_eq!(key_bytes(&Key::Tab), b"\t");
    assert_eq!(key_bytes(&Key::Space), b" ");
    assert_eq!(key_bytes(&Key::ArrowUp), b"\x1b[A");
    assert_eq!(key_bytes(&Key::ArrowDown), b"\x1b[B");
    assert_eq!(key_bytes(&Key::ArrowRight), b"\x1b[C");
    assert_eq!(key_bytes(&Key::ArrowLeft), b"\x1b[D");
    assert_eq!(key_bytes(&Key::Character("\u{e9}a".to_string())), b"\xc3\xa9a");
    assert!(key_bytes(&Key::Other).is_empty());
}

#[test]
fn key_presses() {
    let mut t = TerminalState::new(2, 1);
    assert_eq!(t.key_pressed(&Key::Enter), None);
    t.pty_fd = Some(3);
    assert_eq!(t.key_pressed(&Key::Enter), Some(PtyWrite { fd: 3, data: vec![13] }));
    assert_eq!(t.key_pressed(&Key::Other), None);
    assert_eq!(t.key_pressed(&Key::Character(String::new())), None);
}

#[test]
fn cells_in_pixels() {
    assert_eq!(cells_in(800, 96), 83);
    assert_eq!(cells_in(600, 200), 30);
    assert_eq!(cells_in(48, 96), 5);
    assert_eq!(cells_in(47, 96), 4);
    assert_eq!(cells_in(9, 96), 1);
    assert_eq!(cells_in(0, 96), 1);
    for w in (0..200_000u32).chain(u32::MAX - 1000..=u32::MAX) {
        let expected = ((w as f64 / 9.6).floor() as usize).max(1);
        assert_eq!(cells_in(w, 96), expected);
    }
}

#[test]
fn window_sizes() {
    let mut t = TerminalState::new(80, 24);
    t.attach_pty(6, 80, 24);
    assert!(t.accepts_window(480, 100));
    assert_eq!(t.window_resized(480, 100), Some(WindowSize { fd: 6, ws_row: 5, ws_col: 50 }));
    assert_eq!((t.cols, t.rows), (50, 5));
    assert_eq!((t.pixel_width, t.pixel_height), (480, 100));
    assert_eq!(t.window_resized(481, 101), None);
    assert_eq!((t.pixel_width, t.pixel_height), (481, 101));
    assert_eq!(t.window_resized(0, 0), Some(WindowSize { fd: 6, ws_row: 1, ws_col: 1 }));
    t.char_width = 0;
    assert!(!t.accepts_window(480, 100));
}

#[test]
fn attaching() {
    let mut t = TerminalState::new(3, 2);
    t.attach_pty(6, 80, 24);
    assert_eq!((t.pty_fd, t.pty_master_fd), (Some(6), Some(6)));
    assert_eq!((t.cols, t.rows), (80, 24));
    assert_eq!(t.grid.len(), 2);
}

#[test]
fn surfaces() {
    assert_eq!(surface_size(0, 0), (1, 1));
    assert_eq!(surface_size(800, 1), (800, 1));
    assert_eq!(surface_format(&[false, true, true]), 1);
    assert_eq!(surface_format(&[true, true]), 0);
    assert_eq!(surface_format(&[false, false]), 0);
}

#[test]
fn capacities() {
    assert_eq!(grown_capacity(10, 10), 10);
    assert_eq!(grown_capacity(10, 11), 16);
    assert_eq!(grown_capacity(0, 1), 1);
    assert_eq!(grown_capacity(0, 16), 16);
    assert_eq!(grown_capacity(11520, 11526), 16384);
    for n in 1..5000usize {
        assert_eq!(grown_capacity(0, n), n.next_power_of_two());
    }
    assert_eq!(grown_capacity(0, usize::MAX / 2 + 1), usize::MAX / 2 + 1);
}

#[test]
fn shells() {
    assert_eq!(shell_path(Some("/bin/zsh".to_string())), "/bin/zsh");
    assert_eq!(shell_path(None), "/bin/bash");
}
