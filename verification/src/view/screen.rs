//! The screen of a session, as it is shown.
use vstd::prelude::*;
use crate::color_backend::{Cell, CellView};
use crate::geometry::Rect;
use crate::style::{Color, Modifier};

verus! {

/// A colour of the screen of a session.
#[derive(Clone, Copy, Debug, PartialEq, Eq, Structural)]
pub enum ScreenColor {
    Default,
    Idx(u8),
    Rgb(u8, u8, u8),
}

/// The colour in which a colour of a session is shown.
pub open spec fn shown_color(c: ScreenColor) -> Color {
    match c {
        ScreenColor::Rgb(r, g, b) => Color::Rgb(r, g, b),
        ScreenColor::Idx(i) => Color::Indexed(i),
        ScreenColor::Default => Color::Reset,
    }
}

/// The colour in which a colour of a session is shown.
pub fn vc(c: ScreenColor) -> (r: Color)
    ensures
        r == shown_color(c),
{
    match c {
        ScreenColor::Rgb(r, g, b) => Color::Rgb(r, g, b),
        ScreenColor::Idx(i) => Color::Indexed(i),
        ScreenColor::Default => Color::Reset,
    }
}

/// A cell of the screen of a session.
#[derive(Debug)]
pub struct ScreenCell {
    pub contents: String,
    pub fg: ScreenColor,
    pub bg: ScreenColor,
    pub bold: bool,
    pub dim: bool,
    pub italic: bool,
    pub underline: bool,
    pub inverse: bool,
}

/// The screen of a session, row by row.
#[derive(Debug)]
pub struct Screen {
    pub cells: Vec<Vec<ScreenCell>>,
    /// The row and the column of the cursor.
    pub cursor: (u16, u16),
    pub hide_cursor: bool,
}

impl Screen {
    /// Whether there is a cell in a row and a column.
    pub open spec fn has_cell(&self, y: int, x: int) -> bool {
        0 <= y < self.cells@.len() && 0 <= x < self.cells@[y]@.len()
    }

    /// The cell of the display that shows the cursor, where it is shown.
    pub open spec fn cursor_cell(&self, show_cursor: bool, area: Rect) -> Option<(int, int)> {
        if show_cursor && !self.hide_cursor && self.cursor.1 < area.width && self.cursor.0
            < area.height {
            Some((area.x + self.cursor.1, area.y + self.cursor.0))
        } else {
            None
        }
    }
}

/// What is shown of a cell at `x`, `y`. An empty cell is a blank; the cell under
/// the cursor is reversed.
pub open spec fn shown_cell(c: ScreenCell, x: u16, y: u16, under_cursor: bool) -> CellView {
    CellView {
        x,
        y,
        symbol: if c.contents@.len() == 0 {
            " "@
        } else {
            c.contents@
        },
        fg: shown_color(c.fg),
        bg: shown_color(c.bg),
        modifier: Modifier {
            bold: c.bold,
            dim: c.dim,
            italic: c.italic,
            underlined: c.underline,
            reversed: c.inverse || under_cursor,
            ..Modifier::none()
        },
    }
}

/// What is shown of the first `n` cells of a row of the screen.
pub open spec fn shown_row(
    s: Screen,
    show_cursor: bool,
    area: Rect,
    y: int,
    n: int,
) -> Seq<CellView>
    decreases n,
{
    if n <= 0 {
        Seq::empty()
    } else {
        let before = shown_row(s, show_cursor, area, y, n - 1);
        let x = n - 1;
        if s.has_cell(y, x) && area.x + x <= u16::MAX && area.y + y <= u16::MAX {
            before.push(
                shown_cell(
                    s.cells@[y]@[x],
                    (area.x + x) as u16,
                    (area.y + y) as u16,
                    s.cursor_cell(show_cursor, area) == Some((area.x + x, area.y + y)),
                ),
            )
        } else {
            before
        }
    }
}

/// What is shown of the first `n` rows of the screen.
pub open spec fn shown_rows(s: Screen, show_cursor: bool, area: Rect, n: int) -> Seq<CellView>
    decreases n,
{
    if n <= 0 {
        Seq::empty()
    } else {
        shown_rows(s, show_cursor, area, n - 1) + shown_row(
            s,
            show_cursor,
            area,
            n - 1,
            area.width as int,
        )
    }
}

/// The cells of a list.
pub open spec fn cells_view(v: Seq<Cell>) -> Seq<CellView> {
    v.map_values(|c: Cell| c@)
}

fn show_cell(c: &ScreenCell, x: u16, y: u16, under_cursor: bool) -> (r: Cell)
    ensures
        r@ == shown_cell(*c, x, y, under_cursor),
{
    Cell {
        x,
        y,
        symbol: if c.contents.as_str().is_empty() {
            " ".to_owned()
        } else {
            c.contents.clone()
        },
        fg: vc(c.fg),
        bg: vc(c.bg),
        modifier: Modifier {
            bold: c.bold,
            dim: c.dim,
            italic: c.italic,
            underlined: c.underline,
            slow_blink: false,
            rapid_blink: false,
            reversed: c.inverse || under_cursor,
            crossed_out: false,
        },
    }
}

fn show_row(s: &Screen, show_cursor: bool, area: Rect, y: u16, out: &mut Vec<Cell>)
    ensures
        cells_view(final(out)@) == cells_view(old(out)@) + shown_row(
            *s,
            show_cursor,
            area,
            y as int,
            area.width as int,
        ),
{
    let ghost start = cells_view(out@);
    let mut x: u16 = 0;
    assert(cells_view(out@) =~= start + shown_row(*s, show_cursor, area, y as int, 0));
    while x < area.width
        invariant
            x <= area.width,
            cells_view(out@) == start + shown_row(*s, show_cursor, area, y as int, x as int),
        decreases area.width - x,
    {
        let ghost before = cells_view(out@);
        let sx: u32 = area.x as u32 + x as u32;
        let sy: u32 = area.y as u32 + y as u32;
        if (y as usize) < s.cells.len() && (x as usize) < s.cells[y as usize].len() && sx <= 0xffff
            && sy <= 0xffff {
            let under = show_cursor && !s.hide_cursor && s.cursor.1 < area.width && s.cursor.0
                < area.height && s.cursor.1 == x && s.cursor.0 == y;
            assert(under == (s.cursor_cell(show_cursor, area) == Some(
                (area.x + x, area.y + y),
            )));
            let cell = show_cell(&s.cells[y as usize][x as usize], sx as u16, sy as u16, under);
            let ghost seen = cell@;
            out.push(cell);
            assert(cells_view(out@) =~= before.push(seen));
        }
        x += 1;
        assert(cells_view(out@) =~= start + shown_row(*s, show_cursor, area, y as int, x as int));
    }
}

/// What is shown of the screen of a session in an area. The cursor is shown when
/// the latest output is in sight.
pub fn render_screen(s: &Screen, show_cursor: bool, area: Rect) -> (r: Vec<Cell>)
    ensures
        cells_view(r@) == shown_rows(*s, show_cursor, area, area.height as int),
{
    let mut r: Vec<Cell> = Vec::new();
    let mut y: u16 = 0;
    assert(cells_view(r@) =~= Seq::empty());
    while y < area.height
        invariant
            y <= area.height,
            cells_view(r@) == shown_rows(*s, show_cursor, area, y as int),
        decreases area.height - y,
    {
        show_row(s, show_cursor, area, y, &mut r);
        y += 1;
    }
    r
}

/// The contents of a pane with a session.
#[derive(Clone, Copy, Debug)]
pub struct TerminalView;

impl TerminalView {
    /// What is shown of a session in an area: the cursor is hidden while the
    /// output is scrolled back.
    pub fn render(&self, area: Rect, screen: &Screen, scroll: usize) -> (r: Vec<Cell>)
        ensures
            cells_view(r@) == shown_rows(*screen, scroll == 0, area, area.height as int),
    {
        render_screen(screen, scroll == 0, area)
    }
}

/// Nothing is drawn outside the area.
pub proof fn law_row_stays_in_area(s: Screen, show_cursor: bool, area: Rect, y: int, n: int)
    requires
        0 <= y < area.height,
        0 <= n <= area.width,
    ensures
        forall|i: int|
            0 <= i < shown_row(s, show_cursor, area, y, n).len() ==> ({
                let c = #[trigger] shown_row(s, show_cursor, area, y, n)[i];
                area.has(c.x as int, c.y as int)
            }),
    decreases n,
{
    if n > 0 {
        law_row_stays_in_area(s, show_cursor, area, y, n - 1);
        let before = shown_row(s, show_cursor, area, y, n - 1);
        let now = shown_row(s, show_cursor, area, y, n);
        assert forall|i: int| 0 <= i < now.len() implies ({
            let c = #[trigger] now[i];
            area.has(c.x as int, c.y as int)
        }) by {
            if i < before.len() {
                assert(now[i] == before[i]);
            }
        }
    }
}

} // verus!
