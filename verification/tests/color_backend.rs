//! How cells are written to the terminal.
use sshmux::color_backend::{
    draw, write_color_sgr, write_modifier_diff, Attribute, Cell, DrawStep,
};
use sshmux::style::{Color, Modifier};

fn sgr(fg: Color, bg: Color) -> Vec<u8> {
    write_color_sgr(fg, bg).into_bytes()
}

// ── Indexed(0..=15) → basic ANSI (session output via a session) ──

#[test]
fn indexed_basic_blue_emits_34() {
    // The whole point: Indexed(4) from a session must produce \x1b[34m,
    // NOT \x1b[38;5;4m which bypasses the user's colour scheme.
    assert_eq!(sgr(Color::Indexed(4), Color::Reset), b"\x1b[34;49m");
}

#[test]
fn indexed_0_to_7_use_basic_fg() {
    assert_eq!(sgr(Color::Indexed(0), Color::Reset), b"\x1b[30;49m");
    assert_eq!(sgr(Color::Indexed(1), Color::Reset), b"\x1b[31;49m");
    assert_eq!(sgr(Color::Indexed(2), Color::Reset), b"\x1b[32;49m");
    assert_eq!(sgr(Color::Indexed(3), Color::Reset), b"\x1b[33;49m");
    assert_eq!(sgr(Color::Indexed(4), Color::Reset), b"\x1b[34;49m");
    assert_eq!(sgr(Color::Indexed(5), Color::Reset), b"\x1b[35;49m");
    assert_eq!(sgr(Color::Indexed(6), Color::Reset), b"\x1b[36;49m");
    assert_eq!(sgr(Color::Indexed(7), Color::Reset), b"\x1b[37;49m");
}

#[test]
fn indexed_8_to_15_use_bright_fg() {
    assert_eq!(sgr(Color::Indexed(8), Color::Reset), b"\x1b[90;49m");
    assert_eq!(sgr(Color::Indexed(9), Color::Reset), b"\x1b[91;49m");
    assert_eq!(sgr(Color::Indexed(10), Color::Reset), b"\x1b[92;49m");
    assert_eq!(sgr(Color::Indexed(11), Color::Reset), b"\x1b[93;49m");
    assert_eq!(sgr(Color::Indexed(12), Color::Reset), b"\x1b[94;49m");
    assert_eq!(sgr(Color::Indexed(13), Color::Reset), b"\x1b[95;49m");
    assert_eq!(sgr(Color::Indexed(14), Color::Reset), b"\x1b[96;49m");
    assert_eq!(sgr(Color::Indexed(15), Color::Reset), b"\x1b[97;49m");
}

#[test]
fn indexed_0_to_7_use_basic_bg() {
    assert_eq!(sgr(Color::Reset, Color::Indexed(0)), b"\x1b[39;40m");
    assert_eq!(sgr(Color::Reset, Color::Indexed(4)), b"\x1b[39;44m");
    assert_eq!(sgr(Color::Reset, Color::Indexed(7)), b"\x1b[39;47m");
}

#[test]
fn indexed_8_to_15_use_bright_bg() {
    assert_eq!(sgr(Color::Reset, Color::Indexed(8)), b"\x1b[39;100m");
    assert_eq!(sgr(Color::Reset, Color::Indexed(12)), b"\x1b[39;104m");
    assert_eq!(sgr(Color::Reset, Color::Indexed(15)), b"\x1b[39;107m");
}

// ── Indexed(16..=255) → 256-colour (xterm palette) ──

#[test]
fn indexed_high_uses_256_color_form() {
    assert_eq!(sgr(Color::Indexed(16), Color::Reset), b"\x1b[38;5;16;49m");
    assert_eq!(sgr(Color::Indexed(231), Color::Reset), b"\x1b[38;5;231;49m");
    assert_eq!(sgr(Color::Reset, Color::Indexed(16)), b"\x1b[39;48;5;16m");
}

// ── Named colours → 256-colour ──

#[test]
fn named_black_uses_256_color() {
    // Named Color::Black is used by sshmux's UI, NOT session output.
    // Must stay 256-colour.
    assert_eq!(sgr(Color::Black, Color::Reset), b"\x1b[38;5;0;49m");
}

#[test]
fn named_blue_uses_256_color() {
    assert_eq!(sgr(Color::Blue, Color::Reset), b"\x1b[38;5;4;49m");
}

#[test]
fn named_darkgray_uses_256_color() {
    assert_eq!(sgr(Color::DarkGray, Color::Reset), b"\x1b[38;5;8;49m");
}

#[test]
fn named_white_uses_256_color() {
    assert_eq!(sgr(Color::White, Color::Reset), b"\x1b[38;5;15;49m");
}

#[test]
fn named_bg_uses_256_color() {
    assert_eq!(sgr(Color::Reset, Color::Black), b"\x1b[39;48;5;0m");
    assert_eq!(sgr(Color::Reset, Color::DarkGray), b"\x1b[39;48;5;8m");
}

// ── RGB → truecolour ──

#[test]
fn rgb_uses_truecolor_form() {
    assert_eq!(
        sgr(Color::Rgb(10, 20, 30), Color::Reset),
        b"\x1b[38;2;10;20;30;49m"
    );
    assert_eq!(
        sgr(Color::Reset, Color::Rgb(10, 20, 30)),
        b"\x1b[39;48;2;10;20;30m"
    );
}

// ── Combined fg + bg ──

#[test]
fn indexed_fg_and_bg_combined() {
    assert_eq!(sgr(Color::Indexed(4), Color::Indexed(3)), b"\x1b[34;43m");
}

#[test]
fn mixed_types_combined() {
    assert_eq!(
        sgr(Color::Rgb(1, 2, 3), Color::Indexed(42)),
        b"\x1b[38;2;1;2;3;48;5;42m"
    );
}

#[test]
fn reset_pair() {
    assert_eq!(sgr(Color::Reset, Color::Reset), b"\x1b[39;49m");
}

fn cell(x: u16, symbol: &str, fg: Color, bold: bool) -> Cell {
    let mut modifier = Modifier::empty();
    modifier.bold = bold;
    Cell { x, y: 0, symbol: symbol.to_string(), fg, bg: Color::Reset, modifier }
}

fn shown(steps: &[DrawStep]) -> Vec<String> {
    steps.iter().map(|s| format!("{s:?}")).collect()
}

#[test]
fn cells_that_follow_each_other_need_no_move() {
    let steps = draw(&vec![
        cell(3, "a", Color::Indexed(4), true),
        cell(4, "b", Color::Indexed(4), true),
        cell(6, "c", Color::Reset, false),
    ]);
    assert_eq!(
        shown(&steps),
        [
            "MoveTo(3, 0)",
            "SetAttribute(Bold)",
            "Colors(\"\\u{1b}[34;49m\")",
            "Print(\"a\")",
            "Print(\"b\")",
            "MoveTo(6, 0)",
            "SetAttribute(NormalIntensity)",
            "Colors(\"\\u{1b}[39;49m\")",
            "Print(\"c\")",
            "Colors(\"\\u{1b}[39;49m\")",
            "SetAttribute(Reset)",
        ]
    );
}

#[test]
fn nothing_drawn_still_resets() {
    assert_eq!(
        shown(&draw(&vec![])),
        ["Colors(\"\\u{1b}[39;49m\")", "SetAttribute(Reset)"]
    );
}

#[test]
fn losing_bold_keeps_dim() {
    let mut from = Modifier::empty();
    from.bold = true;
    from.dim = true;
    let mut to = Modifier::empty();
    to.dim = true;
    assert_eq!(
        write_modifier_diff(from, to),
        [Attribute::NormalIntensity, Attribute::Dim]
    );
    assert_eq!(write_modifier_diff(to, to), []);
}
