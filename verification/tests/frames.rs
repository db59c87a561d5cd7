use fluxvt::color::{ansi_color, Color, Rgba, FULL};
use fluxvt::frame::{Span, Style, Vertex};
use fluxvt::terminal::TerminalState;

fn type_text(t: &mut TerminalState, text: &str) {
    for c in text.chars() {
        t.perform_print(c);
    }
}

fn span(text: &str, bold: bool, color: Color) -> Span {
    Span { text: text.to_string(), style: Some(Style { bold, color: color.to_rgba() }) }
}

fn line_break() -> Span {
    Span { text: "\n".to_string(), style: None }
}

fn quad(col: usize, row: usize, color: Color) -> Vec<Vertex> {
    [(false, false), (true, false), (false, true), (true, false), (true, true), (false, true)]
        .iter()
        .map(|&(right, bottom)| Vertex { col, row, right, bottom, color })
        .collect()
}

#[test]
fn blank_screen() {
    let t = TerminalState::new(3, 2);
    let frame = t.frame();
    let fg = Color::foreground();
    assert_eq!(
        frame.spans,
        vec![span("   ", false, fg), line_break(), span("   ", false, fg), line_break()]
    );
    let cursor = Color { r: FULL, g: FULL, b: FULL, a: 510 };
    assert_eq!(frame.vertices, quad(0, 0, cursor));
}

#[test]
fn hidden_cursor() {
    let mut t = TerminalState::new(3, 2);
    t.cursor_visible = false;
    assert!(t.frame().vertices.is_empty());
}

#[test]
fn runs_of_one_style() {
    let mut t = TerminalState::new(6, 1);
    t.bold = true;
    type_text(&mut t, "ab");
    t.bold = false;
    type_text(&mut t, "c");
    t.current_fg = ansi_color(1, false);
    type_text(&mut t, "de");
    let fg = Color::foreground();
    assert_eq!(
        t.frame().spans,
        vec![
            span("ab", true, fg),
            span("c", false, fg),
            span("de", false, ansi_color(1, false)),
            span(" ", false, fg),
            line_break(),
        ]
    );
}

#[test]
fn runs_join_across_attributes_that_are_not_drawn() {
    let mut t = TerminalState::new(3, 1);
    t.italic = true;
    type_text(&mut t, "a");
    t.italic = false;
    t.underline = true;
    type_text(&mut t, "b");
    assert_eq!(t.frame().spans, vec![span("ab ", false, Color::foreground()), line_break()]);
}

#[test]
fn text_is_kept() {
    let mut t = TerminalState::new(4, 2);
    type_text(&mut t, "a");
    t.bold = true;
    type_text(&mut t, "\u{e9}\u{4e16}");
    let all: String = t.frame().spans.iter().map(|s| s.text.as_str()).collect();
    assert_eq!(all, "a\u{e9}\u{4e16} \n    \n");
}

#[test]
fn backgrounds() {
    let mut t = TerminalState::new(3, 2);
    t.cursor_visible = false;
    type_text(&mut t, "a");
    t.current_bg = ansi_color(4, false);
    type_text(&mut t, "b");
    t.cursor_y = 1;
    t.cursor_x = 2;
    type_text(&mut t, "c");
    let mut expected = quad(1, 0, ansi_color(4, false));
    expected.extend(quad(2, 1, ansi_color(4, false)));
    assert_eq!(t.frame().vertices, expected);
}

#[test]
fn cursor_comes_last() {
    let mut t = TerminalState::new(3, 1);
    t.current_bg = ansi_color(4, false);
    type_text(&mut t, "b");
    let frame = t.frame();
    assert_eq!(frame.vertices.len(), 12);
    assert_eq!(frame.vertices[..6], quad(0, 0, ansi_color(4, false))[..]);
    let cursor = Color { r: FULL, g: FULL, b: FULL, a: 510 };
    assert_eq!(frame.vertices[6..], quad(1, 0, cursor)[..]);
}

#[test]
fn reversed_cells_are_drawn_in_exchanged_colors() {
    let mut t = TerminalState::new(2, 1);
    t.cursor_visible = false;
    t.grid[0][0].reverse = true;
    let frame = t.frame();
    assert_eq!(frame.vertices, quad(0, 0, Color::foreground()));
    assert_eq!(frame.spans[0], span(" ", false, Color::background()));
}

#[test]
fn reverse_video_is_shown() {
    let mut t = TerminalState::new(80, 24);
    t.cursor_visible = false;
    t.csi_dispatch(&[7], b"", 'm');
    type_text(&mut t, "a");
    let frame = t.frame();
    assert_eq!(frame.vertices, quad(0, 0, Color::foreground()));
    assert_eq!(frame.spans[0], span("a", false, Color::background()));
    t.csi_dispatch(&[27], b"", 'm');
    type_text(&mut t, "b");
    assert_eq!(t.frame().vertices, quad(0, 0, Color::foreground()));
    let plain = span("", false, Color::foreground());
    assert_eq!(t.frame().spans[1].style, plain.style);
}

#[test]
fn reverse_video_exchanges_chosen_colors() {
    let mut t = TerminalState::new(2, 1);
    t.cursor_visible = false;
    t.csi_dispatch(&[31, 44, 7], b"", 'm');
    type_text(&mut t, "a");
    let frame = t.frame();
    assert_eq!(frame.vertices, quad(0, 0, ansi_color(1, false)));
    assert_eq!(frame.spans[0], span("a", false, ansi_color(4, false)));
}

#[test]
fn style_colors_have_eight_bits() {
    let mut t = TerminalState::new(1, 1);
    t.current_fg = Color { r: 1032, g: 7, b: 0, a: 510 };
    type_text(&mut t, "x");
    let style = t.frame().spans[0].style.unwrap();
    assert_eq!(style.color, Rgba { r: 255, g: 1, b: 0, a: 127 });
}

#[test]
fn frames_are_taken_once() {
    let mut t = TerminalState::new(2, 1);
    let frame = t.take_frame().unwrap();
    assert_eq!(frame, t.frame());
    assert!(!t.dirty);
    assert_eq!(t.take_frame(), None);
    t.perform_execute(7);
    assert!(t.take_frame().is_some());
}

#[test]
fn empty_rows() {
    let t = TerminalState::new(0, 2);
    assert_eq!(t.frame().spans, vec![line_break(), line_break()]);
}
