//! Areas of the screen and how they are divided.
use ratatui::layout::{Constraint, Direction, Layout};
use vstd::prelude::*;

verus! {

/// A rectangle of screen cells.
#[derive(Clone, Copy, Debug, PartialEq, Eq, Structural)]
pub struct Rect {
    pub x: u16,
    pub y: u16,
    pub width: u16,
    pub height: u16,
}

impl Default for Rect {
    fn default() -> (r: Rect)
        ensures
            r == (Rect { x: 0, y: 0, width: 0, height: 0 }),
    {
        Rect { x: 0, y: 0, width: 0, height: 0 }
    }
}

/// The smaller of two numbers.
pub open spec fn at_most(a: int, b: int) -> int {
    if a <= b {
        a
    } else {
        b
    }
}

/// The larger of two numbers.
pub open spec fn at_least(a: int, b: int) -> int {
    if a >= b {
        a
    } else {
        b
    }
}

/// `a - b`, or zero where that is negative.
pub open spec fn monus(a: int, b: int) -> int {
    if a >= b {
        a - b
    } else {
        0
    }
}

impl Rect {
    /// The column after the last one.
    pub open spec fn end_x(self) -> int {
        self.x + self.width
    }

    /// The row after the last one.
    pub open spec fn end_y(self) -> int {
        self.y + self.height
    }

    /// Whether the cell at `col`, `row` is inside.
    pub open spec fn has(self, col: int, row: int) -> bool {
        self.x <= col < self.end_x() && self.y <= row < self.end_y()
    }

    /// Whether the rectangle lies on a screen whose last column and row are
    /// numbered 65534.
    pub open spec fn on_screen(self) -> bool {
        self.end_x() <= u16::MAX && self.end_y() <= u16::MAX
    }

    /// A rectangle, cut off at the last column and row that can be numbered.
    pub fn new(x: u16, y: u16, width: u16, height: u16) -> (r: Rect)
        ensures
            r.x == x,
            r.y == y,
            r.width == at_most(width as int, u16::MAX - x),
            r.height == at_most(height as int, u16::MAX - y),
            r.on_screen(),
    {
        Rect {
            x,
            y,
            width: x.saturating_add(width) - x,
            height: y.saturating_add(height) - y,
        }
    }

    /// The column after the last one, where it can be numbered.
    pub fn right(&self) -> (r: u16)
        ensures
            r == at_most(self.end_x(), u16::MAX as int),
    {
        self.x.saturating_add(self.width)
    }

    /// The row after the last one, where it can be numbered.
    pub fn bottom(&self) -> (r: u16)
        ensures
            r == at_most(self.end_y(), u16::MAX as int),
    {
        self.y.saturating_add(self.height)
    }

    /// Whether the cell at `col`, `row` is inside.
    pub fn contains(&self, col: u16, row: u16) -> (r: bool)
        ensures
            r == self.has(col as int, row as int),
    {
        self.x <= col && (col as u32) < self.x as u32 + self.width as u32 && self.y <= row && (
        row as u32) < self.y as u32 + self.height as u32
    }
}

/// The direction in which an area is divided among its panes.
#[derive(Clone, Copy, Debug, PartialEq, Eq, Structural)]
pub enum Split {
    LeftRight,
    TopBottom,
}

/// How much room a part of a divided area takes.
#[derive(Clone, Copy, Debug, PartialEq, Eq, Structural)]
pub enum Track {
    /// A share of the room, in proportion to the other shares.
    Fill(u16),
    /// A fixed number of cells.
    Length(u16),
}

/// Whether `part` spans `area` across the direction of the split, and lies inside
/// it along that direction.
pub open spec fn spans(area: Rect, kind: Split, part: Rect) -> bool {
    match kind {
        Split::LeftRight => part.y == area.y && part.height == area.height && area.x <= part.x
            && part.end_x() <= at_most(area.end_x(), u16::MAX as int),
        Split::TopBottom => part.x == area.x && part.width == area.width && area.y <= part.y
            && part.end_y() <= at_most(area.end_y(), u16::MAX as int),
    }
}

/// Whether `parts` is an outcome that `ratatui::layout::Layout::split` has for
/// an area, a direction and a list of tracks.
pub uninterp spec fn layout_outcome(
    area: Rect,
    kind: Split,
    tracks: Seq<Track>,
    parts: Seq<Rect>,
) -> bool;

/// Calls `ratatui::layout::Layout::split`, which solves a system of weighted
/// constraints. The contract says that the parts are an outcome of the solver
/// for exactly these tracks, that there is one part for each track, and that
/// each spans the area across the direction of the split and lies inside it
/// along that direction, which the solver is required to see to. How long each
/// part is is left unsaid, and so is that the outcome is always the same: the
/// solver walks a hash map, and may choose between solutions of equal weight.
#[verifier::external_body]
fn layout_split(area: Rect, kind: Split, tracks: &Vec<Track>) -> (r: Vec<Rect>)
    ensures
        layout_outcome(area, kind, tracks@, r@),
        r@.len() == tracks@.len(),
        forall|i: int| 0 <= i < r@.len() ==> spans(area, kind, #[trigger] r@[i]),
{
    let direction = match kind {
        Split::LeftRight => Direction::Horizontal,
        Split::TopBottom => Direction::Vertical,
    };
    let constraints = tracks.iter().map(|t| match t {
        Track::Fill(n) => Constraint::Fill(*n),
        Track::Length(n) => Constraint::Length(*n),
    });
    let outer = ratatui::layout::Rect { x: area.x, y: area.y, width: area.width, height: area.height };
    let parts = Layout::default().direction(direction).constraints(constraints).split(outer);
    parts.iter().map(|p| Rect { x: p.x, y: p.y, width: p.width, height: p.height }).collect()
}

/// The tracks of an area that is divided among panes in the given proportion.
/// Panes side by side have a column between them for the separator; stacked
/// panes are separated by their title bars.
pub open spec fn tracks_of(kind: Split, ratios: Seq<u16>) -> Seq<Track> {
    match kind {
        Split::LeftRight => Seq::new(
            (if ratios.len() == 0 {
                0
            } else {
                2 * ratios.len() - 1
            }) as nat,
            |i: int|
                if i % 2 == 0 {
                    Track::Fill(ratios[i / 2])
                } else {
                    Track::Length(1)
                },
        ),
        Split::TopBottom => ratios.map_values(|r: u16| Track::Fill(r)),
    }
}

/// The parts of a divided area that belong to panes, not to separators.
pub open spec fn panes_among(kind: Split, parts: Seq<Rect>) -> Seq<Rect> {
    match kind {
        Split::LeftRight => Seq::new((parts.len() + 1) / 2, |i: int| parts[2 * i]),
        Split::TopBottom => parts,
    }
}

/// Whether `areas` may come of dividing `area` among panes in the given
/// proportion.
pub open spec fn is_split(area: Rect, kind: Split, ratios: Seq<u16>, areas: Seq<Rect>) -> bool {
    &&& areas.len() == ratios.len()
    &&& forall|i: int| 0 <= i < areas.len() ==> spans(area, kind, #[trigger] areas[i])
    &&& exists|parts: Seq<Rect>| #[trigger]
        layout_outcome(area, kind, tracks_of(kind, ratios), parts) && parts.len() == tracks_of(
            kind,
            ratios,
        ).len() && areas == panes_among(kind, parts)
}

/// Lists the tracks of a divided area.
pub fn split_tracks(kind: Split, ratios: &Vec<u16>) -> (r: Vec<Track>)
    ensures
        r@ == tracks_of(kind, ratios@),
{
    let mut tracks: Vec<Track> = Vec::new();
    let mut i: usize = 0;
    while i < ratios.len()
        invariant
            i <= ratios@.len(),
            tracks@ == tracks_of(kind, ratios@.take(i as int)),
        decreases ratios@.len() - i,
    {
        let ghost before = tracks@;
        if i > 0 && matches!(kind, Split::LeftRight) {
            tracks.push(Track::Length(1));
        }
        tracks.push(Track::Fill(ratios[i]));
        i += 1;
        proof {
            let now = tracks_of(kind, ratios@.take(i as int));
            assert(tracks@.len() == now.len());
            assert forall|k: int| 0 <= k < now.len() implies tracks@[k] == now[k] by {
                if k < before.len() {
                    assert(tracks@[k] == before[k]);
                }
            }
            assert(tracks@ =~= now);
        }
    }
    assert(ratios@.take(i as int) =~= ratios@);
    tracks
}

/// Picks the parts of a divided area that belong to panes.
pub fn pane_parts(kind: Split, parts: Vec<Rect>) -> (r: Vec<Rect>)
    ensures
        r@ == panes_among(kind, parts@),
{
    match kind {
        Split::TopBottom => parts,
        Split::LeftRight => {
            let mut r: Vec<Rect> = Vec::new();
            let mut i: usize = 0;
            while i < parts.len()
                invariant
                    kind == Split::LeftRight,
                    i <= parts@.len() + 1,
                    i % 2 == 0,
                    2 * r@.len() == i,
                    forall|k: int| 0 <= k < r@.len() ==> r@[k] == parts@[2 * k],
                decreases parts@.len() + 1 - i,
            {
                r.push(parts[i]);
                if i + 1 >= parts.len() {
                    assert(r@ =~= panes_among(kind, parts@));
                    return r;
                }
                i += 2;
            }
            assert(r@ =~= panes_among(kind, parts@));
            r
        },
    }
}

/// Divides an area among panes in the given proportion.
pub fn split_areas(area: Rect, kind: Split, ratios: &Vec<u16>) -> (r: Vec<Rect>)
    ensures
        is_split(area, kind, ratios@, r@),
{
    let tracks = split_tracks(kind, ratios);
    let parts = layout_split(area, kind, &tracks);
    let ghost whole = parts@;
    let r = pane_parts(kind, parts);
    assert(layout_outcome(area, kind, tracks_of(kind, ratios@), whole));
    r
}

/// The drawable area above the tab bar: strips the bottom row.
pub open spec fn above_tab_bar(area: Rect) -> Rect {
    Rect { height: monus(area.height as int, 1) as u16, ..area }
}

/// The drawable area above the tab bar: strips the bottom row.
pub fn pane_inner(area: Rect) -> (r: Rect)
    ensures
        r == above_tab_bar(area),
{
    Rect { x: area.x, y: area.y, width: area.width, height: area.height.saturating_sub(1) }
}

/// The drawable area below a pane's title bar: strips the top row.
pub open spec fn below_title(area: Rect) -> Rect {
    Rect {
        y: at_most(at_most(area.y + 1, u16::MAX as int), area.end_y()) as u16,
        height: monus(area.height as int, 1) as u16,
        ..area
    }
}

/// The drawable area below a pane's title bar: strips the top row.
pub fn pane_border_inner(area: Rect) -> (r: Rect)
    ensures
        r == below_title(area),
{
    let next: u16 = area.y.saturating_add(1);
    let end: u32 = area.y as u32 + area.height as u32;
    let y: u16 = if (next as u32) <= end {
        next
    } else {
        area.y
    };
    Rect { x: area.x, y, width: area.width, height: area.height.saturating_sub(1) }
}

/// The width of the context menu.
pub const MENU_WIDTH: u16 = 22;

/// The height of the context menu.
pub const MENU_HEIGHT: u16 = 7;

/// Where the context menu lies that is opened at `col`, `row`: centred below
/// that cell, and moved so that it stays on `screen`.
pub open spec fn menu_area(col: u16, row: u16, screen: Rect) -> Rect {
    let x = at_most(
        at_least(col - MENU_WIDTH / 2, screen.x as int),
        screen.x + monus(screen.width as int, MENU_WIDTH as int),
    );
    let y = at_most(
        at_least(row as int, screen.y as int),
        screen.y + monus(screen.height as int, MENU_HEIGHT as int),
    );
    Rect {
        x: x as u16,
        y: y as u16,
        width: at_most(MENU_WIDTH as int, u16::MAX - x) as u16,
        height: at_most(MENU_HEIGHT as int, u16::MAX - y) as u16,
    }
}

/// The rectangle of the context menu that is opened at `col`, `row`.
pub fn context_menu_rect(col: u16, row: u16, screen: Rect) -> (r: Rect)
    requires
        screen.on_screen(),
    ensures
        r == menu_area(col, row, screen),
{
    let left: u16 = col.saturating_sub(MENU_WIDTH / 2);
    let from_x: u16 = if left >= screen.x {
        left
    } else {
        screen.x
    };
    let last_x: u16 = screen.x + screen.width.saturating_sub(MENU_WIDTH);
    let x: u16 = if from_x <= last_x {
        from_x
    } else {
        last_x
    };
    let from_y: u16 = if row >= screen.y {
        row
    } else {
        screen.y
    };
    let last_y: u16 = screen.y + screen.height.saturating_sub(MENU_HEIGHT);
    let y: u16 = if from_y <= last_y {
        from_y
    } else {
        last_y
    };
    Rect::new(x, y, MENU_WIDTH, MENU_HEIGHT)
}

/// On a screen that is large enough, the context menu lies on the screen with
/// all of its cells.
pub proof fn law_menu_stays_on_screen(col: u16, row: u16, screen: Rect)
    requires
        screen.on_screen(),
        screen.width >= MENU_WIDTH,
        screen.height >= MENU_HEIGHT,
    ensures
        menu_area(col, row, screen).width == MENU_WIDTH,
        menu_area(col, row, screen).height == MENU_HEIGHT,
        screen.x <= menu_area(col, row, screen).x,
        menu_area(col, row, screen).end_x() <= screen.end_x(),
        screen.y <= menu_area(col, row, screen).y,
        menu_area(col, row, screen).end_y() <= screen.end_y(),
{
}

/// Where it fits below the cell that was clicked, the menu starts in the row of
/// that cell, and the cell is in the middle of its top row.
pub proof fn law_menu_opens_at_click(col: u16, row: u16, screen: Rect)
    requires
        screen.on_screen(),
        screen.x + MENU_WIDTH / 2 <= col,
        col + MENU_WIDTH / 2 <= screen.end_x(),
        screen.y <= row,
        row + MENU_HEIGHT <= screen.end_y(),
    ensures
        menu_area(col, row, screen).y == row,
        menu_area(col, row, screen).x + MENU_WIDTH / 2 == col,
{
}

} // verus!
