use fluxvt::color::{ansi_color, channel_to_u16, rgb_color, xterm_color, Color, Rgba, FULL};
use fluxvt::terminal::TerminalState;

fn opaque(r: u32, g: u32, b: u32) -> Color {
    Color { r, g, b, a: FULL }
}

fn floats(c: Color) -> [f32; 4] {
    [c.r, c.g, c.b, c.a].map(|n| n as f32 / FULL as f32)
}

#[test]
fn default_colors() {
    assert_eq!(floats(Color::foreground()), [0.9, 0.9, 0.9, 1.0]);
    assert_eq!(floats(Color::background()), [0.05, 0.05, 0.05, 1.0]);
}

#[test]
fn basic_colors_normal() {
    assert_eq!(floats(ansi_color(0, false)), [0.0, 0.0, 0.0, 1.0]);
    assert_eq!(floats(ansi_color(1, false)), [0.8, 0.0, 0.0, 1.0]);
    assert_eq!(floats(ansi_color(2, false)), [0.0, 0.8, 0.0, 1.0]);
    assert_eq!(floats(ansi_color(3, false)), [0.8, 0.8, 0.0, 1.0]);
    assert_eq!(floats(ansi_color(4, false)), [0.0, 0.0, 0.8, 1.0]);
    assert_eq!(floats(ansi_color(5, false)), [0.8, 0.0, 0.8, 1.0]);
    assert_eq!(floats(ansi_color(6, false)), [0.0, 0.8, 0.8, 1.0]);
    assert_eq!(floats(ansi_color(7, false)), [0.8, 0.8, 0.8, 1.0]);
}

#[test]
fn basic_colors_bright() {
    assert_eq!(floats(ansi_color(0, true)), [0.4, 0.4, 0.4, 1.0]);
    assert_eq!(floats(ansi_color(1, true)), [1.0, 0.2, 0.2, 1.0]);
    assert_eq!(floats(ansi_color(2, true)), [0.2, 1.0, 0.2, 1.0]);
    assert_eq!(floats(ansi_color(3, true)), [1.0, 1.0, 0.2, 1.0]);
    assert_eq!(floats(ansi_color(4, true)), [0.2, 0.2, 1.0, 1.0]);
    assert_eq!(floats(ansi_color(5, true)), [1.0, 0.2, 1.0, 1.0]);
    assert_eq!(floats(ansi_color(6, true)), [0.2, 1.0, 1.0, 1.0]);
    assert_eq!(floats(ansi_color(7, true)), [1.0, 1.0, 1.0, 1.0]);
}

#[test]
fn basic_index_is_clamped() {
    assert_eq!(ansi_color(8, false), ansi_color(7, false));
    assert_eq!(ansi_color(65535, true), ansi_color(7, true));
}

#[test]
fn rgb_is_clamped() {
    assert_eq!(rgb_color(0, 128, 255), opaque(0, 512, 1020));
    assert_eq!(rgb_color(-5, 256, 65535), opaque(0, 1020, 1020));
    assert_eq!(floats(rgb_color(1, 77, 200)), [1.0 / 255.0, 77.0 / 255.0, 200.0 / 255.0, 1.0]);
}

#[test]
fn palette_starts_with_basic_colors() {
    for i in 0..8u16 {
        assert_eq!(TerminalState::color_from_256(i), ansi_color(i, false));
        assert_eq!(TerminalState::color_from_256(i + 8), ansi_color(i, true));
    }
}

#[test]
fn palette_cube() {
    assert_eq!(xterm_color(16), opaque(0, 0, 0));
    assert_eq!(xterm_color(17), rgb_color(0, 0, 95));
    assert_eq!(xterm_color(22), rgb_color(0, 95, 0));
    assert_eq!(xterm_color(52), rgb_color(95, 0, 0));
    assert_eq!(xterm_color(110), rgb_color(135, 175, 215));
    assert_eq!(xterm_color(231), rgb_color(255, 255, 255));
    assert_eq!(floats(xterm_color(110)), [135.0 / 255.0, 175.0 / 255.0, 215.0 / 255.0, 1.0]);
}

#[test]
fn palette_greys() {
    assert_eq!(xterm_color(232), rgb_color(8, 8, 8));
    assert_eq!(xterm_color(255), rgb_color(238, 238, 238));
    assert_eq!(floats(xterm_color(244)), [128.0 / 255.0, 128.0 / 255.0, 128.0 / 255.0, 1.0]);
}

#[test]
fn palette_past_its_end() {
    // The intensity grows on, and wraps around at sixteen bits.
    assert_eq!(xterm_color(256), opaque(992, 992, 992));
    assert_eq!(xterm_color(257), opaque(1032, 1032, 1032));
    assert_eq!(xterm_color(6784), opaque(4 * 65528, 4 * 65528, 4 * 65528));
    assert_eq!(xterm_color(6785), opaque(8, 8, 8));
}

#[test]
fn eight_bits_truncate() {
    let c = Color::foreground().to_rgba();
    assert_eq!(c, Rgba { r: 229, g: 229, b: 229, a: 255 });
    let c = Color::background().to_rgba();
    assert_eq!(c, Rgba { r: 12, g: 12, b: 12, a: 255 });
    assert_eq!(opaque(1032, 510, 3).to_rgba(), Rgba { r: 255, g: 127, b: 0, a: 255 });
}

#[test]
fn eight_bits_agree_with_floats() {
    for v in 0..=255i64 {
        let c = rgb_color(v, v, v);
        assert_eq!(c.to_rgba().r as i64, v);
        assert_eq!((floats(c)[0] * 255.0) as u8, c.to_rgba().r);
    }
    for i in 0..256u16 {
        let c = xterm_color(i);
        assert_eq!((floats(c)[0] * 255.0) as u8, c.to_rgba().r);
        assert_eq!((floats(c)[1] * 255.0) as u8, c.to_rgba().g);
        assert_eq!((floats(c)[2] * 255.0) as u8, c.to_rgba().b);
    }
}

#[test]
fn sixteen_bits_agree_with_floats() {
    assert_eq!(channel_to_u16(51), 3276);
    assert_eq!(channel_to_u16(918), 58981);
    assert_eq!(channel_to_u16(1020), 65535);
    assert_eq!(channel_to_u16(5000), 65535);
    for n in 0..=1020u32 {
        let f = n as f32 / FULL as f32;
        assert_eq!((f * 65535.0) as u16, channel_to_u16(n));
    }
}
