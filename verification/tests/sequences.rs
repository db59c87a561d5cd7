use fluxvt::cell::Cell;
use fluxvt::color::{ansi_color, rgb_color, xterm_color, Color};
use fluxvt::csi::first_values;
use fluxvt::terminal::TerminalState;

fn line(t: &TerminalState, y: usize) -> String {
    t.grid[y].iter().map(|c| c.ch).collect()
}

fn lines(t: &TerminalState) -> Vec<String> {
    (0..t.grid.len()).map(|y| line(t, y)).collect()
}

/// A terminal whose rows hold the given texts.
fn screen(rows: &[&str]) -> TerminalState {
    let cols = rows[0].chars().count();
    let mut t = TerminalState::new(cols, rows.len());
    for (y, row) in rows.iter().enumerate() {
        for (x, c) in row.chars().enumerate() {
            t.grid[y][x].ch = c;
        }
    }
    t
}

fn csi(t: &mut TerminalState, p: &[u16], command: char) {
    assert!(t.accepts_csi(p, command));
    assert_eq!(t.csi_dispatch(p, &[], command), None);
}

fn at(t: &TerminalState) -> (usize, usize) {
    (t.cursor_x, t.cursor_y)
}

#[test]
fn leading_numbers() {
    assert_eq!(first_values(&vec![vec![1, 2], vec![], vec![7]]), vec![1, 7]);
    assert!(first_values(&Vec::new()).is_empty());
}

#[test]
fn cursor_motion() {
    let mut t = TerminalState::new(10, 6);
    csi(&mut t, &[4, 5], 'H');
    assert_eq!(at(&t), (4, 3));
    csi(&mut t, &[2], 'A');
    assert_eq!(at(&t), (4, 1));
    csi(&mut t, &[3], 'B');
    assert_eq!(at(&t), (4, 4));
    csi(&mut t, &[], 'C');
    assert_eq!(at(&t), (5, 4));
    csi(&mut t, &[0], 'D');
    assert_eq!(at(&t), (4, 4));
    csi(&mut t, &[2], 'F');
    assert_eq!(at(&t), (0, 2));
    csi(&mut t, &[7], 'G');
    assert_eq!(at(&t), (6, 2));
    csi(&mut t, &[], 'E');
    assert_eq!(at(&t), (0, 3));
    csi(&mut t, &[2, 2], 'f');
    assert_eq!(at(&t), (1, 1));
    csi(&mut t, &[6], 'd');
    assert_eq!(at(&t), (1, 5));
    csi(&mut t, &[], 'H');
    assert_eq!(at(&t), (0, 0));
}

#[test]
fn cursor_motion_stops_at_the_edges() {
    let mut t = TerminalState::new(10, 6);
    csi(&mut t, &[65535, 65535], 'H');
    assert_eq!(at(&t), (9, 5));
    csi(&mut t, &[65535], 'A');
    csi(&mut t, &[65535], 'D');
    assert_eq!(at(&t), (0, 0));
    csi(&mut t, &[65535], 'B');
    csi(&mut t, &[65535], 'C');
    assert_eq!(at(&t), (9, 5));
    csi(&mut t, &[65535], 'F');
    assert_eq!(at(&t), (0, 0));
    csi(&mut t, &[65535], 'E');
    assert_eq!(at(&t), (0, 5));
    csi(&mut t, &[65535], 'G');
    csi(&mut t, &[65535], 'd');
    assert_eq!(at(&t), (9, 5));
}

#[test]
fn motion_there_and_back() {
    let mut t = TerminalState::new(10, 6);
    csi(&mut t, &[4, 5], 'H');
    csi(&mut t, &[3], 'A');
    csi(&mut t, &[3], 'B');
    csi(&mut t, &[4], 'D');
    csi(&mut t, &[4], 'C');
    assert_eq!(at(&t), (4, 3));
}

#[test]
fn sequences_end_a_due_wrap() {
    let mut t = screen(&["ab", "  "]);
    t.pending_wrap = true;
    t.dirty = false;
    csi(&mut t, &[], 'z');
    assert!(!t.pending_wrap && t.dirty);
}

#[test]
fn erase_from_the_cursor() {
    let mut t = screen(&["abc", "def", "ghi"]);
    t.cursor_x = 1;
    t.cursor_y = 1;
    csi(&mut t, &[], 'J');
    assert_eq!(lines(&t), ["abc", "d  ", "   "]);
    assert_eq!(at(&t), (1, 1));
}

#[test]
fn erase_up_to_the_cursor() {
    let mut t = screen(&["abc", "def", "ghi"]);
    t.cursor_x = 1;
    t.cursor_y = 1;
    csi(&mut t, &[1], 'J');
    assert_eq!(lines(&t), ["   ", "  f", "ghi"]);
    assert_eq!(at(&t), (1, 1));
}

#[test]
fn erase_all_of_the_display() {
    for mode in [2, 3] {
        let mut t = screen(&["abc", "def"]);
        t.cursor_x = 1;
        t.cursor_y = 1;
        csi(&mut t, &[mode], 'J');
        assert_eq!(lines(&t), ["   ", "   "]);
        assert_eq!(at(&t), (0, 0));
        assert_eq!(t.grid[0][0], Cell::blank());
    }
}

#[test]
fn erase_both_parts() {
    let mut t = screen(&["abc", "def", "ghi"]);
    t.cursor_x = 1;
    t.cursor_y = 1;
    csi(&mut t, &[0], 'J');
    csi(&mut t, &[1], 'J');
    assert_eq!(lines(&t), ["   ", "   ", "   "]);
    assert_eq!(at(&t), (1, 1));
}

#[test]
fn erase_unknown_mode() {
    let mut t = screen(&["abc", "def"]);
    csi(&mut t, &[4], 'J');
    csi(&mut t, &[3], 'K');
    assert_eq!(lines(&t), ["abc", "def"]);
}

#[test]
fn erase_in_line() {
    let start = ["abcd", "efgh"];
    for (mode, expected) in [(0, "ab  "), (1, "   d"), (2, "    ")] {
        let mut t = screen(&start);
        t.cursor_x = 2;
        csi(&mut t, &[mode], 'K');
        assert_eq!(lines(&t), [expected, "efgh"]);
        assert_eq!(at(&t), (2, 0));
    }
}

#[test]
fn erase_needs_its_cells() {
    let mut t = screen(&["abc", "def"]);
    t.cursor_y = 2;
    assert!(t.accepts_csi(&[0], 'J'));
    assert!(!t.accepts_csi(&[1], 'J'));
    assert!(t.accepts_csi(&[2], 'J'));
    assert!(!t.accepts_csi(&[0], 'K'));
    t.cursor_x = 3;
    assert!(t.accepts_csi(&[0], 'K'));
    assert!(!t.accepts_csi(&[1], 'K'));
    t.cursor_y = 1;
    assert!(!t.accepts_csi(&[1], 'K'));
    assert!(t.accepts_csi(&[1], 'J'));
    t.rows = 3;
    assert!(!t.accepts_csi(&[0], 'J'));
    assert!(!t.accepts_csi(&[2], 'J'));
    t.cols = 0;
    assert!(t.accepts_csi(&[2], 'J'));
}

#[test]
fn insert_lines() {
    let mut t = screen(&["a", "b", "c", "d"]);
    t.cursor_y = 1;
    csi(&mut t, &[2], 'L');
    assert_eq!(lines(&t), ["a", " ", " ", "b"]);
    csi(&mut t, &[100], 'L');
    assert_eq!(lines(&t), ["a", " ", " ", " "]);
}

#[test]
fn delete_lines() {
    let mut t = screen(&["a", "b", "c", "d"]);
    t.cursor_y = 1;
    csi(&mut t, &[2], 'M');
    assert_eq!(lines(&t), ["a", "d", " ", " "]);
    csi(&mut t, &[100], 'M');
    assert_eq!(lines(&t), ["a", " ", " ", " "]);
}

#[test]
fn lines_there_and_back() {
    let mut t = screen(&["a", "b", "c", "d"]);
    t.cursor_y = 1;
    csi(&mut t, &[1], 'L');
    csi(&mut t, &[1], 'M');
    assert_eq!(lines(&t), ["a", "b", "c", " "]);
}

#[test]
fn line_edits_off_the_grid() {
    let mut t = screen(&["a", "b"]);
    t.cursor_y = 2;
    assert!(!t.accepts_csi(&[], 'L'));
    assert!(t.accepts_csi(&[], 'M'));
    csi(&mut t, &[], 'M');
    assert_eq!(lines(&t), ["a", "b"]);
    // A grid that is too high is cut to the height of the screen.
    t.rows = 1;
    csi(&mut t, &[], 'M');
    assert_eq!(lines(&t), ["a"]);
    let mut t = TerminalState::new(2, 3);
    t.grid.clear();
    csi(&mut t, &[5], 'L');
    assert_eq!(lines(&t), ["  "]);
}

#[test]
fn insert_cells() {
    let mut t = screen(&["abcd", "efgh"]);
    t.cursor_x = 1;
    csi(&mut t, &[2], '@');
    assert_eq!(lines(&t), ["a  b", "efgh"]);
    csi(&mut t, &[100], '@');
    assert_eq!(lines(&t), ["a   ", "efgh"]);
}

#[test]
fn delete_cells() {
    let mut t = screen(&["abcd", "efgh"]);
    t.cursor_x = 1;
    csi(&mut t, &[2], 'P');
    assert_eq!(lines(&t), ["ad  ", "efgh"]);
    csi(&mut t, &[100], 'P');
    assert_eq!(lines(&t), ["a   ", "efgh"]);
}

#[test]
fn cells_there_and_back() {
    let mut t = screen(&["abcd"]);
    t.cursor_x = 1;
    csi(&mut t, &[1], '@');
    csi(&mut t, &[1], 'P');
    assert_eq!(lines(&t), ["abc "]);
}

#[test]
fn cell_edits_off_the_grid() {
    let mut t = screen(&["abcd"]);
    t.cursor_y = 1;
    assert!(!t.accepts_csi(&[], 'P'));
    assert!(!t.accepts_csi(&[], '@'));
    t.cursor_y = 0;
    t.cursor_x = 4;
    csi(&mut t, &[], 'P');
    csi(&mut t, &[], '@');
    assert_eq!(lines(&t), ["abcd"]);
    // A row that is too long is cut to the width of the screen.
    t.cols = 2;
    t.cursor_x = 3;
    csi(&mut t, &[4], '@');
    assert_eq!(lines(&t), ["ab"]);
}

#[test]
fn scroll_several_lines() {
    let mut t = screen(&["a", "b", "c"]);
    csi(&mut t, &[2], 'S');
    assert_eq!(lines(&t), ["c", " ", " "]);
    let kept: String = t.scrollback.iter().map(|row| row[0].ch).collect();
    assert_eq!(kept, "ab");
    csi(&mut t, &[5], 'S');
    let kept: String = t.scrollback.iter().map(|row| row[0].ch).collect();
    assert_eq!(kept, "abc    ");
    t.scrollback_limit = 4;
    csi(&mut t, &[1], 'S');
    assert_eq!(t.scrollback.len(), 7);
}

#[test]
fn scrolling_in_two_steps() {
    let mut t = screen(&["a", "b", "c"]);
    let mut u = screen(&["a", "b", "c"]);
    t.scrollback_limit = 2;
    u.scrollback_limit = 2;
    csi(&mut t, &[3], 'S');
    csi(&mut u, &[1], 'S');
    csi(&mut u, &[2], 'S');
    assert_eq!(t.grid, u.grid);
    assert_eq!(t.scrollback, u.scrollback);
    let kept: String = t.scrollback.iter().map(|row| row[0].ch).collect();
    assert_eq!(kept, "bc");
}

#[test]
fn attributes_on_and_off() {
    let mut t = TerminalState::new(2, 1);
    csi(&mut t, &[1, 2, 3, 4, 7, 9], 'm');
    assert!(t.bold && t.dim && t.italic && t.underline && t.reverse && t.strikethrough);
    csi(&mut t, &[22], 'm');
    assert!(!t.bold && !t.dim && t.italic);
    csi(&mut t, &[23, 24, 27, 29], 'm');
    assert!(!t.italic && !t.underline && !t.reverse && !t.strikethrough);
}

#[test]
fn attribute_reset() {
    for p in [vec![], vec![0], vec![1, 31, 0]] {
        let mut t = TerminalState::new(2, 1);
        t.bold = true;
        t.dim = true;
        t.italic = true;
        t.underline = true;
        t.strikethrough = true;
        t.reverse = true;
        t.current_fg = ansi_color(1, true);
        t.current_bg = ansi_color(2, true);
        csi(&mut t, &p, 'm');
        assert!(!t.bold && !t.dim && !t.italic && !t.underline && !t.strikethrough && !t.reverse);
        assert_eq!(t.current_fg, Color::foreground());
        assert_eq!(t.current_bg, Color::background());
    }
}

#[test]
fn colors_by_code() {
    let mut t = TerminalState::new(2, 1);
    csi(&mut t, &[31, 44], 'm');
    assert_eq!((t.current_fg, t.current_bg), (ansi_color(1, false), ansi_color(4, false)));
    csi(&mut t, &[97, 100], 'm');
    assert_eq!((t.current_fg, t.current_bg), (ansi_color(7, true), ansi_color(0, true)));
    csi(&mut t, &[39, 49], 'm');
    assert_eq!((t.current_fg, t.current_bg), (Color::foreground(), Color::background()));
    csi(&mut t, &[37, 40], 'm');
    assert_eq!((t.current_fg, t.current_bg), (ansi_color(7, false), ansi_color(0, false)));
    csi(&mut t, &[90, 107], 'm');
    assert_eq!((t.current_fg, t.current_bg), (ansi_color(0, true), ansi_color(7, true)));
}

#[test]
fn extended_colors() {
    let mut t = TerminalState::new(2, 1);
    csi(&mut t, &[38, 5, 110, 48, 2, 1, 2, 3, 1], 'm');
    assert_eq!((t.current_fg, t.current_bg), (xterm_color(110), rgb_color(1, 2, 3)));
    assert!(t.bold);
    csi(&mut t, &[48, 5, 200, 38, 2, 300, 0, 9], 'm');
    assert_eq!((t.current_fg, t.current_bg), (rgb_color(255, 0, 9), xterm_color(200)));
}

#[test]
fn incomplete_extended_colors() {
    // What is left of the sequence counts as ordinary codes.
    let mut t = TerminalState::new(2, 1);
    csi(&mut t, &[38, 5], 'm');
    assert_eq!(t.current_fg, Color::foreground());
    csi(&mut t, &[38, 2, 1, 4], 'm');
    assert_eq!(t.current_fg, Color::foreground());
    assert!(t.dim && t.bold && t.underline);
    csi(&mut t, &[48, 7], 'm');
    assert_eq!(t.current_bg, Color::background());
    assert!(t.reverse);
}

#[test]
fn reset_after_an_open_extended_color() {
    // Here the final 0 is a palette index.
    let mut t = TerminalState::new(2, 1);
    csi(&mut t, &[1, 38, 5, 0], 'm');
    assert!(t.bold);
    assert_eq!(t.current_fg, xterm_color(0));
}

#[test]
fn unknown_codes() {
    let mut t = TerminalState::new(2, 1);
    csi(&mut t, &[5, 6, 8, 21, 38, 58, 99, 108, 65535], 'm');
    assert!(!t.bold && !t.dim && !t.italic && !t.underline && !t.strikethrough && !t.reverse);
    assert_eq!((t.current_fg, t.current_bg), (Color::foreground(), Color::background()));
}

#[test]
fn private_modes() {
    let mut t = TerminalState::new(2, 1);
    t.csi_dispatch(&[25], b"?", 'l');
    assert!(!t.cursor_visible);
    t.csi_dispatch(&[25, 1004, 2004, 7], b"?", 'h');
    assert!(t.cursor_visible && t.focus_reporting && t.bracketed_paste);
    t.csi_dispatch(&[1004, 2004], b"?", 'l');
    assert!(!t.focus_reporting && !t.bracketed_paste);
}

#[test]
fn modes_need_the_mark() {
    let mut t = TerminalState::new(2, 1);
    t.csi_dispatch(&[25], b"", 'l');
    t.csi_dispatch(&[25], b">", 'l');
    assert!(t.cursor_visible);
}

#[test]
fn alternate_screen_by_mode() {
    let mut t = screen(&["ab", "cd"]);
    t.cursor_x = 1;
    t.csi_dispatch(&[1049], b"?", 'h');
    assert_eq!(lines(&t), ["  ", "  "]);
    assert_eq!(at(&t), (0, 0));
    t.csi_dispatch(&[1049], b"?", 'l');
    assert_eq!(lines(&t), ["ab", "cd"]);
    assert_eq!(at(&t), (1, 0));
}

#[test]
fn save_and_restore() {
    let mut t = TerminalState::new(10, 5);
    csi(&mut t, &[3, 4], 'H');
    csi(&mut t, &[], 's');
    csi(&mut t, &[5, 9], 'H');
    t.perform_print('x');
    csi(&mut t, &[], 'u');
    assert_eq!(at(&t), (3, 2));
}

#[test]
fn restore_after_shrinking() {
    // The saved position is not resized along.
    let mut t = TerminalState::new(10, 5);
    csi(&mut t, &[5, 9], 'H');
    csi(&mut t, &[], 's');
    t.resize(4, 2);
    csi(&mut t, &[], 'u');
    assert_eq!(at(&t), (8, 4));
    assert!(!t.accepts_csi(&[], 'P'));
}

#[test]
fn rendition_in_parts() {
    let mut t = TerminalState::new(2, 1);
    let mut u = TerminalState::new(2, 1);
    csi(&mut t, &[1, 38, 5, 9, 4, 41], 'm');
    csi(&mut u, &[1, 38, 5, 9], 'm');
    csi(&mut u, &[4, 41], 'm');
    assert_eq!((t.current_fg, t.current_bg), (u.current_fg, u.current_bg));
    assert_eq!((t.bold, t.underline), (true, true));
    assert_eq!((u.bold, u.underline), (true, true));
}
