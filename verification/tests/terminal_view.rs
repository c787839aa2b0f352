//! The screen of a session, as it is shown.
use sshmux::color_backend::Cell;
use sshmux::geometry::Rect;
use sshmux::style::Color;
use sshmux::view::screen::{render_screen, vc, Screen, ScreenCell, ScreenColor, TerminalView};

fn color(c: vt100::Color) -> ScreenColor {
    match c {
        vt100::Color::Default => ScreenColor::Default,
        vt100::Color::Idx(i) => ScreenColor::Idx(i),
        vt100::Color::Rgb(r, g, b) => ScreenColor::Rgb(r, g, b),
    }
}

fn screen(parser: &vt100::Parser) -> Screen {
    let s = parser.screen();
    let (rows, cols) = s.size();
    let cells = (0..rows)
        .map(|y| {
            (0..cols)
                .filter_map(|x| s.cell(y, x))
                .map(|c| ScreenCell {
                    contents: c.contents().to_string(),
                    fg: color(c.fgcolor()),
                    bg: color(c.bgcolor()),
                    bold: c.bold(),
                    dim: c.dim(),
                    italic: c.italic(),
                    underline: c.underline(),
                    inverse: c.inverse(),
                })
                .collect()
        })
        .collect();
    Screen { cells, cursor: s.cursor_position(), hide_cursor: s.hide_cursor() }
}

fn render(parser: &vt100::Parser, show_cursor: bool, w: u16, h: u16) -> Vec<Cell> {
    render_screen(&screen(parser), show_cursor, Rect::new(0, 0, w, h))
}

fn cell(cells: &[Cell], x: u16, y: u16) -> &Cell {
    cells.iter().find(|c| c.x == x && c.y == y).expect("drawn")
}

fn assert_rows(cells: &[Cell], expected: &[&str]) {
    for (y, row) in expected.iter().enumerate() {
        let shown: String = cells
            .iter()
            .filter(|c| c.y as usize == y)
            .map(|c| c.symbol.as_str())
            .collect();
        assert_eq!(shown.trim_end(), *row);
    }
}

#[test]
fn golden_plain_text_grid() {
    let mut parser = vt100::Parser::new(4, 10, 0);
    parser.process(b"hi\r\nworld");
    let buf = render(&parser, false, 10, 4);
    assert_rows(&buf, &["hi", "world", "", ""]);
}

#[test]
fn cursor_cell_is_reversed_when_live() {
    let mut parser = vt100::Parser::new(2, 10, 0);
    parser.process(b"ab");
    let buf = render(&parser, true, 10, 2);
    // Cursor sits after 'b' at column 2.
    assert!(
        cell(&buf, 2, 0).modifier.reversed,
        "cursor cell must be reversed"
    );
    assert!(
        !cell(&buf, 1, 0).modifier.reversed,
        "non-cursor cells untouched"
    );
}

#[test]
fn cursor_hidden_during_scrollback() {
    let mut parser = vt100::Parser::new(2, 10, 0);
    parser.process(b"ab");
    let buf = render(&parser, false, 10, 2);
    assert!(
        !cell(&buf, 2, 0).modifier.reversed,
        "no reversed cursor while scrolled back"
    );
}

#[test]
fn colors_and_attributes_map_to_ratatui() {
    let mut parser = vt100::Parser::new(2, 10, 0);
    parser.process(b"\x1b[1;31mR\x1b[0m\x1b[44mB");
    let buf = render(&parser, false, 10, 2);
    let r = cell(&buf, 0, 0);
    assert_eq!(r.fg, Color::Indexed(1));
    assert!(r.modifier.bold);
    let b = cell(&buf, 1, 0);
    assert_eq!(b.bg, Color::Indexed(4));
}

#[test]
fn vc_all_indexed_stay_indexed() {
    // Indexed colours stay indexed; how they are written is decided when they are drawn.
    assert_eq!(vc(color(vt100::Color::Idx(0))), Color::Indexed(0));
    assert_eq!(vc(color(vt100::Color::Idx(4))), Color::Indexed(4));
    assert_eq!(vc(color(vt100::Color::Idx(15))), Color::Indexed(15));
    assert_eq!(vc(color(vt100::Color::Idx(16))), Color::Indexed(16));
    assert_eq!(vc(color(vt100::Color::Idx(231))), Color::Indexed(231));
    assert_eq!(vc(color(vt100::Color::Idx(255))), Color::Indexed(255));
}

#[test]
fn vc_rgb_passthrough() {
    assert_eq!(vc(color(vt100::Color::Rgb(1, 2, 3))), Color::Rgb(1, 2, 3));
    assert_eq!(
        vc(color(vt100::Color::Rgb(255, 255, 255))),
        Color::Rgb(255, 255, 255)
    );
}

#[test]
fn vc_default_is_reset() {
    assert_eq!(vc(color(vt100::Color::Default)), Color::Reset);
}

#[test]
fn screen_is_cut_off_at_the_area() {
    let mut parser = vt100::Parser::new(4, 10, 0);
    parser.process(b"hello\r\nworld");
    let cells = render_screen(&screen(&parser), false, Rect::new(5, 2, 3, 1));
    let shown: Vec<(u16, u16, &str)> =
        cells.iter().map(|c| (c.x, c.y, c.symbol.as_str())).collect();
    assert_eq!(shown, [(5, 2, "h"), (6, 2, "e"), (7, 2, "l")]);
}

#[test]
fn cursor_is_hidden_while_scrolled_back() {
    let mut parser = vt100::Parser::new(2, 10, 0);
    parser.process(b"ab");
    let s = screen(&parser);
    let area = Rect::new(0, 0, 10, 2);
    assert!(cell(&TerminalView.render(area, &s, 0), 2, 0).modifier.reversed);
    assert!(!cell(&TerminalView.render(area, &s, 3), 2, 0).modifier.reversed);
}
