//! The frame around the panes: separators, title bars, and the glyphs where they
//! meet.
use ratatui::buffer::Buffer;
use ratatui::text::{Line, Span};
use ratatui::widgets::{Block, Borders, Widget};
use vstd::prelude::*;
use crate::app;
use crate::geometry;
use crate::pane;
use crate::text;
use crate::app::name_of_session;
use crate::geometry::{pane_border_inner, split_areas, Rect, Split};
use crate::pane::{Pane, PaneView};
use crate::text::cat3;

verus! {

// ---------------------------------------------------------------------------
// A canvas
// ---------------------------------------------------------------------------

/// An area of cells, row by row. A cell holds what is shown there: mostly one
/// character, more where marks are put on top of it. A wide character leaves the
/// cell behind it blank.
#[derive(Debug)]
pub struct Canvas {
    pub area: Rect,
    pub cells: Vec<String>,
}

/// An area of cells, row by row.
#[verifier::ext_equal]
pub struct CanvasView {
    pub area: Rect,
    pub cells: Seq<Seq<char>>,
}

/// What a cell is to the lines around it: the one character that it holds, or a
/// blank.
pub open spec fn glyph_of(s: Seq<char>) -> char {
    if s.len() == 1 {
        s[0]
    } else {
        ' '
    }
}

/// What a cell holds after its glyph became `c`. A cell with that glyph is left
/// as it is.
pub open spec fn redrawn(s: Seq<char>, c: char) -> Seq<char> {
    if glyph_of(s) == c {
        s
    } else {
        seq![c]
    }
}

fn glyph(s: &str) -> (r: char)
    ensures
        r == glyph_of(s@),
{
    if s.unicode_len() == 1 {
        s.get_char(0)
    } else {
        ' '
    }
}

fn symbol(c: char) -> (r: String)
    ensures
        r@ == seq![c],
{
    let mut r = String::new();
    r.push(c);
    assert(r@ =~= seq![c]);
    r
}

impl View for Canvas {
    type V = CanvasView;

    open spec fn view(&self) -> CanvasView {
        CanvasView { area: self.area, cells: text::texts(self.cells@) }
    }
}

impl CanvasView {
    /// A canvas on which nothing is drawn.
    pub open spec fn blank(area: Rect) -> CanvasView {
        CanvasView { area, cells: Seq::new((area.width * area.height) as nat, |i: int| seq![' ']) }
    }

    /// The number of the cell at `x`, `y`.
    pub open spec fn number(self, x: int, y: int) -> int {
        (y - self.area.y) * self.area.width + (x - self.area.x)
    }

    /// The column of a cell.
    pub open spec fn column(self, i: int) -> int {
        self.area.x + i % (self.area.width as int)
    }

    /// The row of a cell.
    pub open spec fn row(self, i: int) -> int {
        self.area.y + i / (self.area.width as int)
    }

    /// What is shown at `x`, `y`. Outside the canvas there are blanks.
    pub open spec fn shown(self, x: int, y: int) -> Seq<char> {
        if self.area.has(x, y) && 0 <= self.number(x, y) < self.cells.len() {
            self.cells[self.number(x, y)]
        } else {
            seq![' ']
        }
    }

    /// The glyph at `x`, `y`.
    pub open spec fn at(self, x: int, y: int) -> char {
        glyph_of(self.shown(x, y))
    }

    /// The canvas with another glyph at `x`, `y`, where that is on it.
    pub open spec fn with(self, x: int, y: int, c: char) -> CanvasView {
        if self.area.has(x, y) && 0 <= self.number(x, y) < self.cells.len() {
            CanvasView {
                cells: self.cells.update(self.number(x, y), redrawn(self.shown(x, y), c)),
                ..self
            }
        } else {
            self
        }
    }
}

impl Canvas {
    /// A canvas on which nothing is drawn.
    pub fn new(area: Rect) -> (r: Canvas)
        ensures
            r@ == CanvasView::blank(area),
    {
        let mut cells: Vec<String> = Vec::new();
        assert(area.width * area.height <= 0xffff * 0xffff) by (nonlinear_arith)
            requires
                area.width <= 0xffff,
                area.height <= 0xffff,
        ;
        let n: u32 = area.width as u32 * area.height as u32;
        let mut i: u32 = 0;
        while i < n
            invariant
                i <= n,
                cells@.len() == i,
                forall|k: int| 0 <= k < i ==> (#[trigger] cells@[k])@ == seq![' '],
            decreases n - i,
        {
            cells.push(symbol(' '));
            i += 1;
        }
        let r = Canvas { area, cells };
        assert(r@ =~= CanvasView::blank(area));
        r
    }

    fn find(&self, x: u32, y: u32) -> (r: Option<usize>)
        ensures
            match r {
                Some(i) => self@.area.has(x as int, y as int) && i == self@.number(
                    x as int,
                    y as int,
                ) && i < self@.cells.len(),
                None => !(self@.area.has(x as int, y as int) && 0 <= self@.number(
                    x as int,
                    y as int,
                ) < self@.cells.len()),
            },
    {
        let left: u32 = self.area.x as u32;
        let top: u32 = self.area.y as u32;
        let width: u32 = self.area.width as u32;
        let height: u32 = self.area.height as u32;
        if x < left || x >= left + width || y < top || y >= top + height {
            return None;
        }
        let down: u32 = y - top;
        let across: u32 = x - left;
        assert(down * width <= 0xfffe * 0xffff) by (nonlinear_arith)
            requires
                down <= 0xfffe,
                width <= 0xffff,
        ;
        let i: u32 = down * width + across;
        assert(i == self@.number(x as int, y as int));
        if (i as usize) < self.cells.len() {
            Some(i as usize)
        } else {
            None
        }
    }

    /// What is shown at `x`, `y`. Outside the canvas there are blanks.
    pub fn get(&self, x: u32, y: u32) -> (r: String)
        ensures
            r@ == self@.shown(x as int, y as int),
    {
        match self.find(x, y) {
            Some(i) => self.cells[i].clone(),
            None => symbol(' '),
        }
    }

    /// The glyph at `x`, `y`.
    pub fn glyph_at(&self, x: u32, y: u32) -> (r: char)
        ensures
            r == self@.at(x as int, y as int),
    {
        match self.find(x, y) {
            Some(i) => glyph(self.cells[i].as_str()),
            None => ' ',
        }
    }

    /// Draws a glyph at `x`, `y`, where that is on the canvas.
    pub fn put(&mut self, x: u32, y: u32, c: char)
        ensures
            final(self)@ == old(self)@.with(x as int, y as int, c),
    {
        if let Some(i) = self.find(x, y) {
            let ghost before = self@;
            if glyph(self.cells[i].as_str()) != c {
                self.cells.set(i, symbol(c));
            }
            assert(self@.cells =~= before.with(x as int, y as int, c).cells);
        }
    }
}

// ---------------------------------------------------------------------------
// Glyphs
// ---------------------------------------------------------------------------

/// Whether a glyph has a line that goes down.
pub open spec fn goes_down(c: char) -> bool {
    c == '│' || c == '┬' || c == '├' || c == '┤' || c == '┼'
}

fn leads_down(c: char) -> (r: bool)
    ensures
        r == goes_down(c),
{
    c == '│' || c == '┬' || c == '├' || c == '┤' || c == '┼'
}

/// The glyph at the top of a separator, by the one above it.
pub open spec fn top_glyph(above: char) -> char {
    if goes_down(above) {
        '┼'
    } else {
        '┬'
    }
}

/// The glyph of a title bar, where `c` is drawn and `above` is above it: a line
/// under a separator is joined to it.
pub open spec fn title_glyph(c: char, above: char) -> char {
    if c == '─' && goes_down(above) {
        '┴'
    } else {
        c
    }
}

/// The glyph to the left of a title bar that meets it.
pub open spec fn left_joint(c: char) -> char {
    if c == '│' {
        '├'
    } else if c == '┬' {
        '┼'
    } else {
        c
    }
}

/// The glyph to the right of a title bar that meets it.
pub open spec fn right_joint(c: char) -> char {
    if c == '│' {
        '┤'
    } else if c == '┬' {
        '┼'
    } else {
        c
    }
}

// ---------------------------------------------------------------------------
// The panes and their areas
// ---------------------------------------------------------------------------

/// The panes of a tab with their areas.
#[derive(Debug)]
pub enum Frame {
    Leaf { area: Rect, title: String },
    Split { kind: Split, area: Rect, parts: Vec<Frame> },
}

/// The panes of a tab with their areas.
#[verifier::ext_equal]
pub enum FrameView {
    Leaf { area: Rect, title: Seq<char> },
    Split { kind: Split, area: Rect, parts: Seq<FrameView> },
}

/// The panes of a tab with their areas.
pub open spec fn frame_model(f: Frame) -> FrameView
    decreases f,
{
    match f {
        Frame::Leaf { area, title } => FrameView::Leaf { area, title: title@ },
        Frame::Split { kind, area, parts } => FrameView::Split {
            kind,
            area,
            parts: frames_model(parts@),
        },
    }
}

/// The frames of a list.
pub open spec fn frames_model(s: Seq<Frame>) -> Seq<FrameView>
    decreases s,
{
    Seq::new(
        s.len(),
        |i: int|
            if 0 <= i < s.len() {
                frame_model(s[i])
            } else {
                arbitrary()
            },
    )
}

impl View for Frame {
    type V = FrameView;

    open spec fn view(&self) -> FrameView {
        frame_model(*self)
    }
}

/// The area of a pane.
pub open spec fn area_of(f: FrameView) -> Rect {
    match f {
        FrameView::Leaf { area, .. } => area,
        FrameView::Split { area, .. } => area,
    }
}

impl Frame {
    /// The area of the pane.
    pub fn area(&self) -> (r: Rect)
        ensures
            r == area_of(self@),
    {
        match self {
            Frame::Leaf { area, .. } => *area,
            Frame::Split { area, .. } => *area,
        }
    }
}

/// What a pane is called in its title bar.
pub open spec fn title_of(p: PaneView) -> Seq<char> {
    match p {
        PaneView::Session { ssh_args, .. } => app::session_name(ssh_args),
        PaneView::FileBrowser { browser } => " sftp: "@ + browser.core.host + " "@,
        PaneView::SshBrowser { browser } => " scp: "@ + browser.core.host + " "@,
        _ => "connect"@,
    }
}

/// What a pane is called in its title bar.
pub fn pane_title(p: &Pane) -> (r: String)
    ensures
        r@ == title_of(p@),
{
    match p {
        Pane::Session { ssh_args, .. } => name_of_session(ssh_args.as_str()),
        Pane::FileBrowser { browser } => cat3(" sftp: ", browser.core.host.as_str(), " "),
        Pane::SshBrowser { browser } => cat3(" scp: ", browser.core.host.as_str(), " "),
        _ => "connect".to_owned(),
    }
}

/// Whether a frame has the panes of a tree that is shown in `area`. Panes of a
/// split without an area are left out.
pub open spec fn is_frame(p: PaneView, area: Rect, f: FrameView) -> bool
    decreases p,
{
    match (p, f) {
        (
            PaneView::Split { kind, children, ratios },
            FrameView::Split { kind: k, area: a, parts },
        ) => {
            &&& k == kind
            &&& a == area
            &&& exists|areas: Seq<Rect>| #[trigger]
                geometry::is_split(area, kind, ratios, areas) && are_frames(children, areas, parts)
        },
        (PaneView::Split { .. }, _) => false,
        _ => f == (FrameView::Leaf { area, title: title_of(p) }),
    }
}

/// Whether each frame has the panes of a tree that is shown in its area.
pub open spec fn are_frames(s: Seq<PaneView>, areas: Seq<Rect>, parts: Seq<FrameView>) -> bool
    decreases s,
{
    &&& parts.len() == geometry::at_most(s.len() as int, areas.len() as int)
    &&& forall|i: int|
        0 <= i < s.len() && i < parts.len() ==> is_frame(s[i], areas[i], #[trigger] parts[i])
}

/// The panes of a tree with their areas, when it is shown in `area`.
pub fn frame_of(pane: &Pane, area: Rect) -> (r: Frame)
    ensures
        is_frame(pane@, area, r@),
    decreases pane,
{
    match pane {
        Pane::Split { kind, children, ratios } => {
            let areas = split_areas(area, *kind, ratios);
            let ghost model = pane::panes_model(children@);
            let mut parts: Vec<Frame> = Vec::new();
            let mut i: usize = 0;
            while i < children.len() && i < areas.len()
                invariant
                    pane matches Pane::Split { kind: k, children: c, ratios: s } && k == kind && c
                        == children && s == ratios,
                    geometry::is_split(area, *kind, ratios@, areas@),
                    model == pane::panes_model(children@),
                    i <= children@.len(),
                    i <= areas@.len(),
                    parts@.len() == i,
                    forall|k: int|
                        0 <= k < i ==> is_frame(
                            model[k],
                            areas@[k],
                            #[trigger] frames_model(parts@)[k],
                        ),
                decreases children@.len() - i,
            {
                assert(model[i as int] == children@[i as int]@);
                let ghost before = frames_model(parts@);
                let part = frame_of(&children[i], areas[i]);
                parts.push(part);
                assert(frames_model(parts@) =~= before.push(part@));
                i += 1;
            }
            assert(are_frames(model, areas@, frames_model(parts@)));
            let r = Frame::Split { kind: *kind, area, parts };
            proof {
                let f = r@;
                let p = pane@;
                assert(p == (PaneView::Split { kind: *kind, children: model, ratios: ratios@ }));
                assert(f == (FrameView::Split {
                    kind: *kind,
                    area,
                    parts: frames_model(parts@),
                }));
                lemma_split_frame(*kind, ratios@, model, area, areas@, frames_model(parts@));
            }
            r
        },
        _ => {
            let r = Frame::Leaf { area, title: pane_title(pane) };
            assert(r@ == (FrameView::Leaf { area, title: title_of(pane@) }));
            r
        },
    }
}

proof fn lemma_split_frame(
    kind: Split,
    ratios: Seq<u16>,
    children: Seq<PaneView>,
    area: Rect,
    areas: Seq<Rect>,
    parts: Seq<FrameView>,
)
    requires
        geometry::is_split(area, kind, ratios, areas),
        are_frames(children, areas, parts),
    ensures
        is_frame(
            PaneView::Split { kind, children, ratios },
            area,
            FrameView::Split { kind, area, parts },
        ),
{
    let p = PaneView::Split { kind, children, ratios };
    let f = FrameView::Split { kind, area, parts };
    assert(p->children == children && p->ratios == ratios);
    assert(geometry::is_split(area, kind, ratios, areas));
    if !is_frame(p, area, f) {
        assert(!exists|a: Seq<Rect>| #[trigger]
            geometry::is_split(area, kind, p->ratios, a) && are_frames(p->children, a, f->parts));
    }
}

// ---------------------------------------------------------------------------
// Drawing the frame
// ---------------------------------------------------------------------------

/// What `ratatui` shows, cell by cell, in a row of `width` cells that a block
/// with a line along its top and a title of three spans is drawn in.
pub uninterp spec fn title_row(
    before: Seq<char>,
    title: Seq<char>,
    after: Seq<char>,
    width: int,
) -> Seq<Seq<char>>;

/// Whether a text is made of printable ASCII characters and lines, each of which
/// takes one cell.
pub open spec fn is_plain(s: Seq<char>) -> bool {
    forall|i: int| 0 <= i < s.len() ==> #[trigger] s[i] == '─' || ' ' <= s[i] <= '~'
}

/// The character of a line with a title at its start.
pub open spec fn line_char(text: Seq<char>, i: int) -> char {
    if 0 <= i < text.len() {
        text[i]
    } else {
        '─'
    }
}

/// A row with a plain text at its start and a line behind it.
pub open spec fn plain_row(text: Seq<char>, width: int) -> Seq<Seq<char>> {
    Seq::new(width as nat, |i: int| seq![line_char(text, i)])
}

/// Draws a `ratatui::widgets::Block` with a border along its top and a title of
/// three spans into a row of its own, and gives what each cell shows. The
/// contract says that the row has `width` cells, that the same texts and width
/// give the same row, and that a plain text stands in it character by character,
/// cut off at the end, with the border behind it. How other texts are divided
/// into cells is left unsaid: that goes by grapheme clusters and their widths.
/// A row of the greatest width is left out, because `ratatui` looks for a cell
/// behind its end when the title is too long.
#[verifier::external_body]
fn lay_title(before: &str, title: &str, after: &str, width: u16) -> (r: Vec<String>)
    requires
        width < u16::MAX,
    ensures
        text::texts(r@) == title_row(before@, title@, after@, width as int),
        r@.len() == width,
        is_plain(before@ + title@ + after@) ==> text::texts(r@) == plain_row(
            before@ + title@ + after@,
            width as int,
        ),
{
    let area = ratatui::layout::Rect::new(0, 0, width, 1);
    let mut row = Buffer::empty(area);
    let line = Line::from(vec![Span::raw(before), Span::raw(title), Span::raw(after)]);
    Block::default().borders(Borders::TOP).title(line).render(area, &mut row);
    row.content.iter().map(|cell| cell.symbol().to_string()).collect()
}

/// The row of a title bar. The last cell of one of the greatest width is not part
/// of it.
pub open spec fn title_bar(title: Seq<char>, width: u16) -> Seq<Seq<char>> {
    title_row("── "@, title, " "@, geometry::at_most(width as int, u16::MAX - 1))
}

/// A cell of a title bar. Behind the end of its row there is a line.
pub open spec fn bar_cell(row: Seq<Seq<char>>, i: int) -> Seq<char> {
    if 0 <= i < row.len() {
        row[i]
    } else {
        seq!['─']
    }
}

/// A cell of the canvas after a title bar was drawn along the top of `area`.
pub open spec fn titled_cell(c: CanvasView, area: Rect, row: Seq<Seq<char>>, i: int) -> Seq<char> {
    let x = c.column(i);
    let y = c.row(i);
    if area.height > 0 && y == area.y && area.x <= x < area.end_x() {
        let s = bar_cell(row, x - area.x);
        if y > 0 {
            redrawn(s, title_glyph(glyph_of(s), c.at(x, y - 1)))
        } else {
            s
        }
    } else {
        c.cells[i]
    }
}

/// The canvas after a title bar was drawn along the top of `area`.
pub open spec fn titled(c: CanvasView, area: Rect, row: Seq<Seq<char>>) -> CanvasView {
    if c.area.width == 0 {
        c
    } else {
        CanvasView {
            cells: Seq::new(c.cells.len(), |i: int| titled_cell(c, area, row, i)),
            ..c
        }
    }
}

fn join_title(c: char, above: char) -> (r: char)
    ensures
        r == title_glyph(c, above),
{
    if c == '─' && leads_down(above) {
        '┴'
    } else {
        c
    }
}

/// Draws the row of a title bar along the top of `area`.
pub fn draw_title_row(canvas: &mut Canvas, area: Rect, row: &Vec<String>)
    ensures
        final(canvas)@ == titled(old(canvas)@, area, text::texts(row@)),
{
    if canvas.area.width == 0 {
        return ;
    }
    let ghost c = canvas@;
    let ghost shown = text::texts(row@);
    let width: u64 = canvas.area.width as u64;
    let left: u64 = area.x as u64;
    let right: u64 = area.x as u64 + area.width as u64;
    let mut cells: Vec<String> = Vec::new();
    let mut i: usize = 0;
    while i < canvas.cells.len()
        invariant
            c == canvas@,
            shown == text::texts(row@),
            width == c.area.width,
            width > 0,
            left == area.x,
            right == area.end_x(),
            i <= canvas.cells@.len(),
            cells@.len() == i,
            forall|k: int|
                0 <= k < i ==> (#[trigger] cells@[k])@ == titled_cell(c, area, shown, k),
        decreases canvas.cells@.len() - i,
    {
        let x: u64 = canvas.area.x as u64 + i as u64 % width;
        let down: u64 = i as u64 / width;
        let mut cell = canvas.cells[i].clone();
        if area.height > 0 && area.y >= canvas.area.y && down == (area.y - canvas.area.y) as u64
            && left <= x && x < right {
            let k: usize = (x - left) as usize;
            cell =
            if k < row.len() {
                row[k].clone()
            } else {
                symbol('─')
            };
            assert(cell@ == bar_cell(shown, x - area.x));
            if area.y > 0 {
                let was = glyph(cell.as_str());
                let now = join_title(was, canvas.glyph_at(x as u32, area.y as u32 - 1));
                if now != was {
                    cell = symbol(now);
                }
            }
        }
        assert(cell@ == titled_cell(c, area, shown, i as int));
        cells.push(cell);
        i += 1;
    }
    assert(text::texts(cells@) =~= titled(c, area, shown).cells);
    canvas.cells = cells;
}

/// Draws a title bar along the top of `area`.
pub fn draw_title_bar(canvas: &mut Canvas, area: Rect, title: &str)
    ensures
        final(canvas)@ == titled(old(canvas)@, area, title_bar(title@, area.width)),
        is_plain(title@) ==> final(canvas)@ == titled(
            old(canvas)@,
            area,
            plain_row("── "@ + title@ + " "@, geometry::at_most(area.width as int, u16::MAX - 1)),
        ),
{
    let width: u16 = if area.width < u16::MAX {
        area.width
    } else {
        u16::MAX - 1
    };
    let row = lay_title("── ", title, " ", width);
    proof {
        if is_plain(title@) {
            reveal_strlit("── ");
            reveal_strlit(" ");
            let all = "── "@ + title@ + " "@;
            assert forall|i: int| 0 <= i < all.len() implies #[trigger] all[i] == '─' || ' '
                <= all[i] <= '~' by {
                if 3 <= i < all.len() - 1 {
                    assert(all[i] == title@[i - 3]);
                }
            }
        }
    }
    draw_title_row(canvas, area, &row);
}

/// Whether a column is the one behind a pane that has a neighbour to its right.
pub open spec fn is_separator_column(parts: Seq<FrameView>, x: int) -> bool {
    exists|k: int|
        0 <= k < parts.len() - 1 && x == geometry::at_most(
            area_of(#[trigger] parts[k]).end_x(),
            u16::MAX as int,
        )
}

/// A cell of the canvas after the separators of a split were drawn.
pub open spec fn separated_cell(c: CanvasView, area: Rect, parts: Seq<FrameView>, i: int) -> Seq<
    char,
> {
    let x = c.column(i);
    let y = c.row(i);
    if area.y <= y < area.end_y() && is_separator_column(parts, x) {
        if y == area.y {
            seq![
                top_glyph(
                    if y > 0 {
                        c.at(x, y - 1)
                    } else {
                        ' '
                    },
                ),
            ]
        } else {
            seq!['│']
        }
    } else {
        c.cells[i]
    }
}

/// The canvas after the separators of a split were drawn.
pub open spec fn separated(c: CanvasView, area: Rect, parts: Seq<FrameView>) -> CanvasView {
    if c.area.width == 0 {
        c
    } else {
        CanvasView {
            cells: Seq::new(c.cells.len(), |i: int| separated_cell(c, area, parts, i)),
            ..c
        }
    }
}

fn separator_column(parts: &Vec<Frame>, x: u64) -> (r: bool)
    ensures
        r == is_separator_column(frames_model(parts@), x as int),
{
    let ghost model = frames_model(parts@);
    let mut k: usize = 0;
    while k < parts.len() && k + 1 < parts.len()
        invariant
            model == frames_model(parts@),
            k <= parts@.len(),
            forall|j: int|
                0 <= j < k ==> x != geometry::at_most(
                    area_of(#[trigger] model[j]).end_x(),
                    u16::MAX as int,
                ),
        decreases parts@.len() - k,
    {
        assert(model[k as int] == parts@[k as int]@);
        if x == parts[k].area().right() as u64 {
            return true;
        }
        k += 1;
    }
    false
}

/// Draws the separators of a split.
pub fn draw_separators(canvas: &mut Canvas, area: Rect, parts: &Vec<Frame>)
    ensures
        final(canvas)@ == separated(old(canvas)@, area, frames_model(parts@)),
{
    if canvas.area.width == 0 {
        return ;
    }
    let ghost c = canvas@;
    let ghost model = frames_model(parts@);
    let width: u64 = canvas.area.width as u64;
    let top: u64 = area.y as u64;
    let bottom: u64 = area.y as u64 + area.height as u64;
    let mut cells: Vec<String> = Vec::new();
    let mut i: usize = 0;
    while i < canvas.cells.len()
        invariant
            c == canvas@,
            model == frames_model(parts@),
            width == c.area.width,
            width > 0,
            top == area.y,
            bottom == area.end_y(),
            i <= canvas.cells@.len(),
            cells@.len() == i,
            forall|k: int|
                0 <= k < i ==> (#[trigger] cells@[k])@ == separated_cell(c, area, model, k),
        decreases canvas.cells@.len() - i,
    {
        let x: u64 = canvas.area.x as u64 + i as u64 % width;
        let down: u64 = i as u64 / width;
        let mut cell = canvas.cells[i].clone();
        if down < 0x20000 {
            let y: u64 = canvas.area.y as u64 + down;
            if top <= y && y < bottom && separator_column(parts, x) {
                let mut line = '│';
                if y == top {
                    line = '┬';
                    if y > 0 && leads_down(canvas.glyph_at(x as u32, y as u32 - 1)) {
                        line = '┼';
                    }
                }
                cell = symbol(line);
            }
        }
        assert(cell@ == separated_cell(c, area, model, i as int));
        cells.push(cell);
        i += 1;
    }
    assert(text::texts(cells@) =~= separated(c, area, model).cells);
    canvas.cells = cells;
}

/// The canvas after the glyphs on both sides of a title bar were joined to it.
pub open spec fn sides_joined(c: CanvasView, a: Rect) -> CanvasView {
    let d = if a.x > 0 {
        c.with(a.x - 1, a.y as int, left_joint(c.at(a.x - 1, a.y as int)))
    } else {
        c
    };
    if a.end_x() < c.area.end_x() {
        d.with(a.end_x(), a.y as int, right_joint(d.at(a.end_x(), a.y as int)))
    } else {
        d
    }
}

fn join_left(c: char) -> (r: char)
    ensures
        r == left_joint(c),
{
    if c == '│' {
        '├'
    } else if c == '┬' {
        '┼'
    } else {
        c
    }
}

fn join_right(c: char) -> (r: char)
    ensures
        r == right_joint(c),
{
    if c == '│' {
        '┤'
    } else if c == '┬' {
        '┼'
    } else {
        c
    }
}

/// Joins the glyphs on both sides of a title bar to it.
pub fn join_sides(canvas: &mut Canvas, a: Rect)
    ensures
        final(canvas)@ == sides_joined(old(canvas)@, a),
{
    let y: u32 = a.y as u32;
    if a.x > 0 {
        let x: u32 = a.x as u32 - 1;
        let c = join_left(canvas.glyph_at(x, y));
        canvas.put(x, y, c);
    }
    let right: u32 = a.x as u32 + a.width as u32;
    if right < canvas.area.x as u32 + canvas.area.width as u32 {
        let c = join_right(canvas.glyph_at(right, y));
        canvas.put(right, y, c);
    }
}

/// The canvas after a frame was drawn. Where there is only one pane it has no
/// title bar.
pub open spec fn drawn(f: FrameView, c: CanvasView, multi: bool) -> CanvasView
    decreases f, 0int,
{
    match f {
        FrameView::Leaf { area, title } => if multi {
            titled(c, area, title_bar(title, area.width))
        } else {
            c
        },
        FrameView::Split { kind, area, parts } => match kind {
            Split::LeftRight => drawn_parts(
                parts,
                separated(c, area, parts),
                multi,
                false,
                parts.len() as int,
            ),
            Split::TopBottom => drawn_parts(parts, c, multi, true, parts.len() as int),
        },
    }
}

/// The canvas after the first `n` parts of a split were drawn. The title bars of
/// stacked parts, but for the first, are joined to what is beside them.
pub open spec fn drawn_parts(
    parts: Seq<FrameView>,
    c: CanvasView,
    multi: bool,
    stacked: bool,
    n: int,
) -> CanvasView
    decreases parts, n,
{
    if 0 < n <= parts.len() {
        let before = drawn_parts(parts, c, multi, stacked, n - 1);
        let after = drawn(parts[n - 1], before, multi);
        if stacked && n > 1 {
            sides_joined(after, area_of(parts[n - 1]))
        } else {
            after
        }
    } else {
        c
    }
}

/// Draws a frame.
pub fn draw_frame(frame: &Frame, canvas: &mut Canvas, multi: bool)
    ensures
        final(canvas)@ == drawn(frame@, old(canvas)@, multi),
    decreases frame,
{
    match frame {
        Frame::Leaf { area, title } => {
            if multi {
                draw_title_bar(canvas, *area, title.as_str());
            }
        },
        Frame::Split { kind, area, parts } => {
            let stacked = matches!(*kind, Split::TopBottom);
            if !stacked {
                draw_separators(canvas, *area, parts);
            }
            let ghost c = canvas@;
            let ghost model = frames_model(parts@);
            assert(frame@ == (FrameView::Split { kind: *kind, area: *area, parts: model }));
            let mut i: usize = 0;
            while i < parts.len()
                invariant
                    frame matches Frame::Split { parts: p, .. } && p == parts,
                    model == frames_model(parts@),
                    i <= parts@.len(),
                    canvas@ == drawn_parts(model, c, multi, stacked, i as int),
                decreases parts@.len() - i,
            {
                assert(model[i as int] == parts@[i as int]@);
                draw_frame(&parts[i], canvas, multi);
                if stacked && i > 0 {
                    join_sides(canvas, parts[i].area());
                }
                i += 1;
            }
        },
    }
}

/// The leaves of a frame, each with its area and its title.
pub open spec fn frame_leaves(f: FrameView) -> Seq<(Rect, Seq<char>)>
    decreases f, 0int,
{
    match f {
        FrameView::Leaf { area, title } => seq![(area, title)],
        FrameView::Split { parts, .. } => frame_leaves_before(parts, parts.len() as int),
    }
}

/// The leaves of the first `n` parts of a split.
pub open spec fn frame_leaves_before(parts: Seq<FrameView>, n: int) -> Seq<(Rect, Seq<char>)>
    decreases parts, n,
{
    if 0 < n <= parts.len() {
        frame_leaves_before(parts, n - 1) + frame_leaves(parts[n - 1])
    } else {
        Seq::empty()
    }
}

/// Where a leaf is drawn.
#[derive(Debug)]
pub struct LeafPlan {
    /// The area with the title bar.
    pub area: Rect,
    /// The area for the contents.
    pub inner: Rect,
    pub title: String,
    pub is_focus: bool,
}

/// Where a leaf is drawn.
#[verifier::ext_equal]
pub struct LeafPlanView {
    pub area: Rect,
    pub inner: Rect,
    pub title: Seq<char>,
    pub is_focus: bool,
}

impl View for LeafPlan {
    type V = LeafPlanView;

    open spec fn view(&self) -> LeafPlanView {
        LeafPlanView {
            area: self.area,
            inner: self.inner,
            title: self.title@,
            is_focus: self.is_focus,
        }
    }
}

/// Where a leaf is drawn that has the number `i`.
pub open spec fn leaf_plan(leaf: (Rect, Seq<char>), i: int, focus: int, multi: bool) -> LeafPlanView {
    LeafPlanView {
        area: leaf.0,
        inner: if multi {
            geometry::below_title(leaf.0)
        } else {
            leaf.0
        },
        title: leaf.1,
        is_focus: i == focus,
    }
}

/// The plans of a list.
pub open spec fn plans_view(v: Seq<LeafPlan>) -> Seq<LeafPlanView> {
    v.map_values(|p: LeafPlan| p@)
}

/// Lists the leaves of a frame, behind those that are listed already.
fn plan_leaves(frame: &Frame, focus: usize, multi: bool, plans: &mut Vec<LeafPlan>)
    ensures
        plans_view(final(plans)@) == plans_view(old(plans)@) + Seq::new(
            frame_leaves(frame@).len(),
            |i: int|
                leaf_plan(
                    frame_leaves(frame@)[i],
                    old(plans)@.len() + i,
                    focus as int,
                    multi,
                ),
        ),
    decreases frame,
{
    let ghost first = plans@.len() as int;
    let ghost start = plans_view(plans@);
    match frame {
        Frame::Leaf { area, title } => {
            let plan = LeafPlan {
                area: *area,
                inner: if multi {
                    pane_border_inner(*area)
                } else {
                    *area
                },
                title: title.clone(),
                is_focus: plans.len() == focus,
            };
            plans.push(plan);
            assert(plans_view(plans@) =~= start + Seq::new(
                1,
                |i: int| leaf_plan((*area, title@), first + i, focus as int, multi),
            ));
            assert(frame_leaves(frame@) =~= seq![(*area, title@)]);
            assert(plans_view(plans@) =~= start + Seq::new(
                frame_leaves(frame@).len(),
                |i: int| leaf_plan(frame_leaves(frame@)[i], first + i, focus as int, multi),
            ));
        },
        Frame::Split { parts, .. } => {
            let ghost model = frames_model(parts@);
            assert(frame@->parts == model);
            let mut k: usize = 0;
            assert(plans_view(plans@) =~= start + Seq::new(
                0,
                |i: int|
                    leaf_plan(frame_leaves_before(model, 0)[i], first + i, focus as int, multi),
            ));
            while k < parts.len()
                invariant
                    frame matches Frame::Split { parts: p, .. } && p == parts,
                    model == frames_model(parts@),
                    k <= parts@.len(),
                    plans@.len() == first + frame_leaves_before(model, k as int).len(),
                    plans_view(plans@) == start + Seq::new(
                        frame_leaves_before(model, k as int).len(),
                        |i: int|
                            leaf_plan(
                                frame_leaves_before(model, k as int)[i],
                                first + i,
                                focus as int,
                                multi,
                            ),
                    ),
                    start.len() == first,
                decreases parts@.len() - k,
            {
                assert(model[k as int] == parts@[k as int]@);
                let ghost before = plans_view(plans@);
                plan_leaves(&parts[k], focus, multi, plans);
                k += 1;
                proof {
                    let more = frame_leaves(model[k - 1]);
                    let all = frame_leaves_before(model, k as int);
                    assert(all == frame_leaves_before(model, k - 1) + more);
                    assert(plans_view(plans@).len() == plans@.len());
                    assert(plans_view(plans@) =~= start + Seq::new(
                        all.len(),
                        |i: int| leaf_plan(all[i], first + i, focus as int, multi),
                    ));
                }
            }
            assert(frame_leaves(frame@) == frame_leaves_before(model, model.len() as int));
            assert(plans_view(plans@) =~= start + Seq::new(
                frame_leaves(frame@).len(),
                |i: int| leaf_plan(frame_leaves(frame@)[i], first + i, focus as int, multi),
            ));
        },
    }
}

/// The frame around the panes.
#[derive(Clone, Copy, Debug)]
pub struct PaneTreeView {
    pub focus_idx: usize,
}

impl PaneTreeView {
    /// Draws the frame, and lists where the leaves are to be drawn.
    pub fn render_frame(&self, frame: &Frame, multi: bool, canvas: &mut Canvas) -> (r: Vec<LeafPlan>)
        ensures
            final(canvas)@ == drawn(frame@, old(canvas)@, multi),
            plans_view(r@) == Seq::new(
                frame_leaves(frame@).len(),
                |i: int| leaf_plan(frame_leaves(frame@)[i], i, self.focus_idx as int, multi),
            ),
    {
        draw_frame(frame, canvas, multi);
        let mut r: Vec<LeafPlan> = Vec::new();
        plan_leaves(frame, self.focus_idx, multi, &mut r);
        assert(plans_view(r@) =~= Seq::new(
            frame_leaves(frame@).len(),
            |i: int| leaf_plan(frame_leaves(frame@)[i], i, self.focus_idx as int, multi),
        ));
        r
    }

    /// Draws the frame of a tree that is shown in `area`, and lists where the
    /// leaves are to be drawn.
    pub fn render_with(&self, pane: &Pane, area: Rect, canvas: &mut Canvas) -> (r: Vec<LeafPlan>)
        ensures
            exists|f: FrameView| #[trigger]
                is_frame(pane@, area, f) && final(canvas)@ == drawn(
                    f,
                    old(canvas)@,
                    crate::pane::count(pane@) > 1,
                ) && plans_view(r@) == Seq::new(
                    frame_leaves(f).len(),
                    |i: int|
                        leaf_plan(
                            frame_leaves(f)[i],
                            i,
                            self.focus_idx as int,
                            crate::pane::count(pane@) > 1,
                        ),
                ),
    {
        let multi = pane.leaf_count() > 1;
        let frame = frame_of(pane, area);
        assert(is_frame(pane@, area, frame@));
        self.render_frame(&frame, multi, canvas)
    }
}

/// A tab with one pane has no frame: the pane fills the whole area.
pub proof fn law_single_pane_has_no_frame(p: PaneView, area: Rect, f: FrameView, c: CanvasView)
    requires
        !(p is Split),
        is_frame(p, area, f),
    ensures
        drawn(f, c, false) == c,
        frame_leaves(f) == seq![(area, title_of(p))],
{
}

} // verus!
