use fluxvt::cell::Cell;
use fluxvt::color::{ansi_color, Color};
use fluxvt::reply::WindowSize;
use fluxvt::terminal::TerminalState;

fn line(t: &TerminalState, y: usize) -> String {
    t.grid[y].iter().map(|c| c.ch).collect()
}

fn type_text(t: &mut TerminalState, text: &str) {
    for c in text.chars() {
        assert!(t.accepts_print());
        t.perform_print(c);
    }
}

fn control(t: &mut TerminalState, byte: u8) {
    assert!(t.accepts_execute(byte));
    t.perform_execute(byte);
}

#[test]
fn new_terminal() {
    let t = TerminalState::new(80, 24);
    assert_eq!((t.cols, t.rows), (80, 24));
    assert_eq!(t.grid.len(), 24);
    assert!(t.grid.iter().all(|row| row.len() == 80 && row.iter().all(|c| *c == Cell::blank())));
    assert_eq!((t.cursor_x, t.cursor_y), (0, 0));
    assert_eq!((t.saved_cursor_x, t.saved_cursor_y), (0, 0));
    assert_eq!(t.fg_color, Color::foreground());
    assert_eq!(t.bg_color, Color::background());
    assert_eq!(t.current_fg, Color::foreground());
    assert_eq!(t.current_bg, Color::background());
    assert_eq!((t.font_size, t.char_width, t.char_height), (160, 96, 200));
    assert_eq!((t.pixel_width, t.pixel_height), (800, 600));
    assert_eq!((t.pty_fd, t.pty_master_fd), (None, None));
    assert!(t.scrollback.is_empty());
    assert_eq!((t.scrollback_limit, t.scroll_offset), (10000, 0));
    assert!(t.alt_screen.is_none());
    assert!(t.cursor_visible && t.dirty);
    assert!(!t.pending_wrap && !t.bracketed_paste && !t.focus_reporting);
    assert!(t.working_directory.is_none());
    assert!(!t.bold && !t.dim && !t.italic && !t.underline && !t.strikethrough && !t.reverse);
}

#[test]
fn blank_cell() {
    let c = Cell::blank();
    assert_eq!(c.ch, ' ');
    assert_eq!((c.fg, c.bg), (None, None));
    assert!(!c.bold && !c.dim && !c.italic && !c.underline && !c.strikethrough && !c.reverse);
}

#[test]
fn print_uses_the_pen() {
    let mut t = TerminalState::new(4, 2);
    t.current_fg = ansi_color(1, false);
    t.bold = true;
    t.italic = true;
    t.dirty = false;
    type_text(&mut t, "a");
    let c = t.grid[0][0];
    assert_eq!(c.ch, 'a');
    assert_eq!(c.fg, Some(ansi_color(1, false)));
    assert_eq!(c.bg, Some(Color::background()));
    assert!(c.bold && c.italic && !c.dim && !c.underline && !c.strikethrough && !c.reverse);
    assert_eq!((t.cursor_x, t.cursor_y), (1, 0));
    assert!(t.dirty);
}

#[test]
fn reversed_cells_keep_the_colors_of_the_pen() {
    let mut t = TerminalState::new(4, 2);
    t.reverse = true;
    type_text(&mut t, "a");
    assert_eq!(t.grid[0][0].fg, Some(Color::foreground()));
    assert_eq!(t.grid[0][0].bg, Some(Color::background()));
    assert!(t.grid[0][0].reverse);
}

#[test]
fn text_fills_a_line() {
    let mut t = TerminalState::new(5, 2);
    type_text(&mut t, "hello");
    assert_eq!(line(&t, 0), "hello");
    assert_eq!(line(&t, 1), "     ");
    assert_eq!((t.cursor_x, t.cursor_y), (4, 0));
    assert!(t.pending_wrap);
}

#[test]
fn wrap_comes_with_the_next_character() {
    let mut t = TerminalState::new(3, 2);
    type_text(&mut t, "abcd");
    assert_eq!(line(&t, 0), "abc");
    assert_eq!(line(&t, 1), "d  ");
    assert_eq!((t.cursor_x, t.cursor_y), (1, 1));
    assert!(!t.pending_wrap);
}

#[test]
fn wrap_scrolls_in_the_last_line() {
    let mut t = TerminalState::new(2, 2);
    type_text(&mut t, "abcde");
    assert_eq!(line(&t, 0), "cd");
    assert_eq!(line(&t, 1), "e ");
    assert_eq!(t.scrollback.len(), 1);
    assert_eq!(t.scrollback[0][0].ch, 'a');
    assert_eq!((t.cursor_x, t.cursor_y), (1, 1));
}

#[test]
fn single_column() {
    let mut t = TerminalState::new(1, 2);
    type_text(&mut t, "ab");
    assert_eq!(line(&t, 0), "a");
    assert_eq!(line(&t, 1), "b");
    assert_eq!((t.cursor_x, t.cursor_y), (0, 1));
    assert!(t.pending_wrap);
}

#[test]
fn print_off_the_screen() {
    let mut t = TerminalState::new(3, 2);
    t.cursor_y = 7;
    assert!(t.accepts_print());
    t.perform_print('x');
    assert_eq!(line(&t, 0), "   ");
    assert_eq!(line(&t, 1), "   ");
    assert_eq!((t.cursor_x, t.cursor_y), (1, 7));
}

#[test]
fn print_needs_its_cell() {
    let mut t = TerminalState::new(3, 2);
    t.grid[0].truncate(1);
    t.cursor_x = 1;
    assert!(!t.accepts_print());
    t.cursor_x = 0;
    assert!(t.accepts_print());
    t.cols = 0;
    assert!(!t.accepts_print());
    let mut t = TerminalState::new(3, 0);
    assert!(t.accepts_print());
    t.pending_wrap = true;
    assert!(!t.accepts_print());
}

#[test]
fn print_after_wrap_needs_the_next_row() {
    let mut t = TerminalState::new(2, 2);
    t.pending_wrap = true;
    t.grid.truncate(1);
    assert!(!t.accepts_print());
    let mut t = TerminalState::new(2, 1);
    t.pending_wrap = true;
    t.grid.push(Vec::new());
    assert!(!t.accepts_print());
    t.grid.pop();
    assert!(t.accepts_print());
    t.perform_print('q');
    assert_eq!(line(&t, 0), "q ");
}

#[test]
fn carriage_return() {
    let mut t = TerminalState::new(3, 2);
    type_text(&mut t, "abc");
    control(&mut t, b'\r');
    assert_eq!((t.cursor_x, t.cursor_y), (0, 0));
    assert!(!t.pending_wrap);
}

#[test]
fn line_feed_keeps_the_column() {
    let mut t = TerminalState::new(4, 2);
    type_text(&mut t, "ab");
    control(&mut t, b'\n');
    assert_eq!((t.cursor_x, t.cursor_y), (2, 1));
    control(&mut t, b'\n');
    assert_eq!((t.cursor_x, t.cursor_y), (2, 1));
    assert_eq!(t.scrollback.len(), 1);
}

#[test]
fn line_feed_keeps_a_due_wrap() {
    let mut t = TerminalState::new(2, 3);
    type_text(&mut t, "ab");
    control(&mut t, b'\n');
    assert!(t.pending_wrap);
    assert_eq!(t.cursor_y, 1);
}

#[test]
fn tabs() {
    let mut t = TerminalState::new(20, 2);
    control(&mut t, b'\t');
    assert_eq!(t.cursor_x, 8);
    control(&mut t, b'\t');
    assert_eq!(t.cursor_x, 16);
    control(&mut t, b'\t');
    assert_eq!(t.cursor_x, 19);
    let mut t = TerminalState::new(17, 2);
    t.cursor_x = 9;
    control(&mut t, b'\t');
    assert_eq!(t.cursor_x, 16);
}

#[test]
fn backspace_stops_at_the_edge() {
    let mut t = TerminalState::new(4, 1);
    t.cursor_x = 1;
    control(&mut t, 8);
    assert_eq!(t.cursor_x, 0);
    control(&mut t, 8);
    assert_eq!(t.cursor_x, 0);
}

#[test]
fn other_controls_only_draw() {
    let mut t = TerminalState::new(4, 1);
    t.dirty = false;
    control(&mut t, 7);
    assert!(t.dirty);
    assert_eq!((t.cursor_x, t.cursor_y), (0, 0));
}

#[test]
fn controls_need_cells() {
    let t = TerminalState::new(0, 0);
    assert!(!t.accepts_execute(b'\n'));
    assert!(!t.accepts_execute(b'\t'));
    assert!(t.accepts_execute(b'\r'));
    assert!(t.accepts_execute(8));
}

#[test]
fn scrolling_fills_the_history() {
    let mut t = TerminalState::new(1, 2);
    type_text(&mut t, "ab");
    t.scroll_up();
    assert_eq!(line(&t, 0), "b");
    assert_eq!(line(&t, 1), " ");
    assert_eq!(t.scrollback[0][0].ch, 'a');
    t.scroll_up();
    assert_eq!(t.scrollback[1][0].ch, 'b');
    assert_eq!((t.cursor_x, t.cursor_y), (0, 1));
}

#[test]
fn history_is_limited() {
    let mut t = TerminalState::new(1, 1);
    t.scrollback_limit = 2;
    for c in ['a', 'b', 'c'] {
        t.grid[0][0].ch = c;
        t.scroll_up();
    }
    let kept: String = t.scrollback.iter().map(|row| row[0].ch).collect();
    assert_eq!(kept, "bc");
    t.scrollback_limit = 1;
    t.grid[0][0].ch = 'd';
    t.scroll_up();
    let kept: String = t.scrollback.iter().map(|row| row[0].ch).collect();
    assert_eq!(kept, "cd");
}

#[test]
fn no_rows_no_scrolling() {
    let mut t = TerminalState::new(3, 0);
    t.dirty = false;
    t.scroll_up();
    assert!(t.grid.is_empty() && t.scrollback.is_empty() && !t.dirty);
}

#[test]
fn clear_resets_a_part_of_the_pen() {
    let mut t = TerminalState::new(3, 2);
    type_text(&mut t, "abcd");
    t.current_fg = ansi_color(2, true);
    t.current_bg = ansi_color(3, true);
    t.bold = true;
    t.dim = true;
    t.reverse = true;
    t.underline = true;
    t.clear();
    assert_eq!(line(&t, 0), "   ");
    assert_eq!(line(&t, 1), "   ");
    assert_eq!(t.grid[0][0], Cell::blank());
    assert_eq!((t.cursor_x, t.cursor_y), (0, 0));
    assert_eq!(t.current_fg, Color::foreground());
    assert_eq!(t.current_bg, Color::background());
    assert!(!t.bold && !t.reverse && t.dim && t.underline);
}

#[test]
fn resize_keeps_what_fits() {
    let mut t = TerminalState::new(3, 2);
    type_text(&mut t, "abcdef");
    assert!(t.accepts_resize(2, 3));
    assert_eq!(t.resize(2, 3), None);
    assert_eq!(t.grid.len(), 3);
    assert_eq!(line(&t, 0), "ab");
    assert_eq!(line(&t, 1), "de");
    assert_eq!(line(&t, 2), "  ");
    assert_eq!((t.cols, t.rows), (2, 3));
    assert_eq!((t.cursor_x, t.cursor_y), (1, 1));
}

#[test]
fn resize_back_restores() {
    let mut t = TerminalState::new(3, 2);
    type_text(&mut t, "abcdef");
    let before = t.grid.clone();
    t.resize(10, 7);
    t.resize(3, 2);
    assert_eq!(t.grid, before);
    assert_eq!((t.cursor_x, t.cursor_y), (2, 1));
}

#[test]
fn resize_to_the_same_size() {
    let mut t = TerminalState::new(3, 2);
    t.pty_master_fd = Some(5);
    t.dirty = false;
    assert_eq!(t.resize(3, 2), None);
    assert!(!t.dirty);
}

#[test]
fn resize_tells_the_pty() {
    let mut t = TerminalState::new(3, 2);
    t.pty_master_fd = Some(5);
    assert_eq!(t.resize(4, 2), Some(WindowSize { fd: 5, ws_row: 2, ws_col: 4 }));
    assert_eq!(t.resize(65536 + 7, 1), Some(WindowSize { fd: 5, ws_row: 1, ws_col: 7 }));
}

#[test]
fn resize_to_nothing() {
    let mut t = TerminalState::new(3, 2);
    t.cursor_x = 2;
    t.cursor_y = 1;
    t.resize(0, 0);
    assert!(t.grid.is_empty());
    assert_eq!((t.cursor_x, t.cursor_y), (0, 0));
}

#[test]
fn resize_needs_its_cells() {
    let mut t = TerminalState::new(3, 2);
    t.grid.truncate(1);
    assert!(!t.accepts_resize(5, 5));
    assert!(t.accepts_resize(5, 1));
    assert!(t.accepts_resize(3, 2));
    assert!(t.accepts_resize(0, 9));
}

#[test]
fn alternate_screen_round_trip() {
    let mut t = TerminalState::new(3, 2);
    type_text(&mut t, "ab");
    let before = t.grid.clone();
    t.enter_alt_screen();
    assert_eq!(line(&t, 0), "   ");
    assert_eq!((t.cursor_x, t.cursor_y), (0, 0));
    type_text(&mut t, "xyz");
    t.exit_alt_screen();
    assert_eq!(t.grid, before);
    assert_eq!((t.cursor_x, t.cursor_y), (2, 0));
    assert!(t.alt_screen.is_none());
}

#[test]
fn alternate_screen_only_once() {
    let mut t = TerminalState::new(3, 1);
    type_text(&mut t, "a");
    t.enter_alt_screen();
    type_text(&mut t, "b");
    t.dirty = false;
    t.enter_alt_screen();
    assert_eq!(line(&t, 0), "b  ");
    assert!(!t.dirty);
    t.exit_alt_screen();
    assert_eq!(line(&t, 0), "a  ");
    t.dirty = false;
    t.exit_alt_screen();
    assert_eq!(line(&t, 0), "a  ");
    assert!(!t.dirty);
}

#[test]
fn alternate_screen_keeps_the_old_size() {
    // The screen that was put aside is not resized along.
    let mut t = TerminalState::new(3, 2);
    t.enter_alt_screen();
    t.resize(5, 4);
    t.exit_alt_screen();
    assert_eq!((t.cols, t.rows), (5, 4));
    assert_eq!(t.grid.len(), 2);
    t.cursor_x = 4;
    assert!(!t.accepts_print());
}

#[test]
fn text_over_many_lines_stands_in_order() {
    for limit in [10000, 2] {
        let mut t = TerminalState::new(3, 2);
        t.scrollback_limit = limit;
        type_text(&mut t, "x");
        let text: Vec<char> = ('a'..='t').collect();
        for &c in &text {
            t.perform_print(c);
        }
        let rows: Vec<_> = t.scrollback.iter().chain(t.grid.iter()).collect();
        let lost = 7 - rows.len();
        assert_eq!(t.scrollback.len(), 5.min(limit));
        for (k, &c) in text.iter().enumerate() {
            let line = (1 + k) / 3;
            if line >= lost {
                assert_eq!(rows[line - lost][(1 + k) % 3].ch, c);
            }
        }
    }
}

#[test]
fn saved_cursor_outlives_everything_else() {
    let mut t = TerminalState::new(9, 5);
    t.csi_dispatch(&[4, 6], b"", 'H');
    t.csi_dispatch(&[], b"", 's');
    t.clear();
    t.scroll_up();
    t.enter_alt_screen();
    type_text(&mut t, "text");
    t.exit_alt_screen();
    t.resize(12, 7);
    t.perform_execute(10);
    t.csi_dispatch(&[3], b"?", 'u');
    assert_eq!((t.cursor_x, t.cursor_y), (5, 3));
}
