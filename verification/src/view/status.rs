//! The status bar of a browser and the boxes that lie over it, as they are
//! shown.
use vstd::prelude::*;
use crate::browser::common::keys;
use crate::browser::common::navigation;
use crate::browser;
use crate::geometry;
use crate::text;
use crate::view;
use vstd::slice::slice_subrange;
use crate::browser::common::{
    BrowserCore, BrowserFocus, CoreView, DeleteLocation, TransferDirection,
};
use crate::browser::ssh::SshBrowser;
use crate::browser::browser_layout;
use crate::geometry::{pane_inner, Rect};
use crate::keybindings::BrowserBindings;
use crate::style::{Color, Style};
use crate::text::{cat, cat3, cat5, chars_of, decimal_of, string_of};
use crate::view::{centered, line_of, pad_right, smaller, Piece, PieceView};

verus! {

// ---------------------------------------------------------------------------
// The status bar
// ---------------------------------------------------------------------------

impl CoreView {
    /// The question whether something is to be deleted, where it is asked.
    pub open spec fn delete_question(self) -> Option<Seq<char>> {
        match self.delete.confirm {
            Some(t) => Some(
                "  Delete "@ + (if t.location == DeleteLocation::Local {
                    "local"@
                } else {
                    "remote"@
                }) + " '"@ + t.path + (if self.delete.pending.len() > 0 {
                    "' (+"@ + text::decimal(self.delete.pending.len()) + " more)?  [y] Yes   [n] No"@
                } else {
                    "'?  [y] Yes   [n] No"@
                }),
            ),
            None => None,
        }
    }

    /// What the status bar says at its left: the state, the message with the
    /// progress, and how long the last work took.
    pub open spec fn status_line(self, label: Seq<char>, color: Color, progress: Seq<char>) -> Seq<
        PieceView,
    > {
        seq![
            view::piece("["@ + label + "]"@, Style::strong(color)),
            view::piece(" "@ + self.status_msg + progress, Style::colored(color)),
            view::piece(
                match self.last_duration {
                    Some(d) => " ("@ + navigation::duration_text(d as nat) + ")"@,
                    None => Seq::empty(),
                },
                Style::colored(Color::DarkGray),
            ),
        ]
    }
}

impl BrowserCore {
    /// The question whether something is to be deleted, where it is asked.
    pub fn render_confirm_delete(&self) -> (r: Option<String>)
        ensures
            (match r {
                Some(s) => Some(s@),
                None => None,
            }) == self@.delete_question(),
    {
        match &self.delete.confirm {
            Some(t) => {
                let side = match t.location {
                    DeleteLocation::Local => "local",
                    DeleteLocation::Remote => "remote",
                };
                let n: usize = self.delete.pending.len();
                let end = if n > 0 {
                    cat3("' (+", decimal_of(n as u64).as_str(), " more)?  [y] Yes   [n] No")
                } else {
                    "'?  [y] Yes   [n] No".to_owned()
                };
                assert(self@.delete.pending.len() == n);
                Some(cat5("  Delete ", side, " '", t.path.as_str(), end.as_str()))
            },
            None => None,
        }
    }

    /// What the status bar says at its left.
    pub fn render_normal_status(&self, label: &str, color: Color, progress: &str) -> (r: Vec<Piece>)
        ensures
            view::line_view(r@) == self@.status_line(label@, color, progress@),
    {
        let took = match self.last_duration {
            Some(d) => cat3(" (", BrowserCore::format_duration(d).as_str(), ")"),
            None => String::new(),
        };
        assert(self.last_duration is None ==> took@ =~= Seq::empty());
        let r = vec![
            Piece { text: cat3("[", label, "]"), style: Style::bold(color) },
            Piece {
                text: cat3(" ", self.status_msg.as_str(), progress),
                style: Style::plain(color),
            },
            Piece { text: took, style: Style::plain(Color::DarkGray) },
        ];
        assert(view::line_view(r@) =~= self@.status_line(label@, color, progress@));
        r
    }
}

/// What the status bar says at its right: the keys for a transfer and for
/// deleting.
pub open spec fn help_text(b: BrowserBindings) -> Seq<char> {
    " ["@ + b.transfer.shown() + "]xfer ["@ + b.delete.shown() + "]rm "@
}

/// What the status bar says at its right.
pub fn render_help(b: &BrowserBindings) -> (r: String)
    ensures
        r@ == help_text(*b),
{
    cat5(
        " [",
        b.transfer.to_display_string().as_str(),
        "]xfer [",
        b.delete.to_display_string().as_str(),
        "]rm ",
    )
}

/// The column where the right part of the status bar starts.
pub open spec fn help_column(area: Rect, len: int) -> int {
    geometry::at_most(area.x + geometry::monus(area.width as int, len), u16::MAX as int)
}

/// The column where the right part of the status bar starts.
pub fn help_start(area: Rect, help: &str) -> (r: u16)
    ensures
        r == help_column(area, help@.len() as int),
{
    let v = chars_of(help);
    let left: u16 = if v.len() >= area.width as usize {
        0
    } else {
        area.width - v.len() as u16
    };
    area.x.saturating_add(left)
}

/// A number of stars.
pub open spec fn stars(n: int) -> Seq<char> {
    Seq::new(geometry::monus(n, 0) as nat, |i: int| '*')
}

/// The line in which a password is typed: as many stars as it has bytes, and a
/// cursor.
pub open spec fn password_line(bytes: int, width: int) -> Seq<char> {
    view::padded_right("  Password: "@ + stars(bytes) + "█"@, width)
}

/// The line in which a password is typed does not show the password: it depends
/// on its length alone.
pub proof fn law_password_is_not_shown(a: Seq<char>, b: Seq<char>, width: int)
    requires
        crate::view::panel::text_bytes(a) == crate::view::panel::text_bytes(b),
    ensures
        password_line(crate::view::panel::text_bytes(a) as int, width) == password_line(
            crate::view::panel::text_bytes(b) as int,
            width,
        ),
{
}

impl SshBrowser {
    /// The line in which the password is typed.
    pub fn render_password_status(&self, width: u16) -> (r: String)
        ensures
            r@ == password_line(
                geometry::at_most(
                    crate::view::panel::text_bytes(self@.typed) as int,
                    usize::MAX as int,
                ),
                width as int,
            ),
    {
        let n: usize = crate::view::panel::count_bytes(self.password_buf.as_str());
        let mut v: Vec<char> = Vec::new();
        let mut i: usize = 0;
        assert(v@ =~= stars(0));
        while i < n
            invariant
                i <= n,
                v@ == stars(i as int),
            decreases n - i,
        {
            v.push('*');
            i += 1;
            assert(v@ =~= stars(i as int));
        }
        let text = cat3("  Password: ", string_of(v.as_slice()).as_str(), "█");
        pad_right(text.as_str(), width as usize)
    }
}

// ---------------------------------------------------------------------------
// Dropped files
// ---------------------------------------------------------------------------

/// The largest width of the boxes that lie over a browser.
pub const DROP_WIDTH: u16 = 60;

/// The number of dropped files that are shown in a box in the given area.
pub open spec fn drop_rows(inner: Rect) -> int {
    geometry::at_least(geometry::at_most(5, geometry::monus(inner.height as int, 6)), 1)
}

/// The number of characters of a text that begin in its first `n` bytes.
pub open spec fn chars_within(s: Seq<char>, n: int) -> nat
    decreases s.len(),
{
    if n <= 0 || s.len() == 0 {
        0
    } else {
        1 + chars_within(
            s.drop_first(),
            n - vstd::utf8::encode_scalar(s[0] as u32).len(),
        )
    }
}

/// The characters that begin in the first `n` bytes of a text fill these, and
/// without the last of them they do not.
pub proof fn law_chars_within_fill_bytes(s: Seq<char>, n: int)
    requires
        0 <= n <= vstd::utf8::encode_utf8(s).len(),
    ensures
        chars_within(s, n) <= s.len(),
        vstd::utf8::encode_utf8(s.take(chars_within(s, n) as int)).len() >= n,
        n > 0 ==> chars_within(s, n) > 0 && vstd::utf8::encode_utf8(
            s.take(chars_within(s, n) - 1),
        ).len() < n,
    decreases s.len(),
{
    if n > 0 {
        let rest = s.drop_first();
        let w = vstd::utf8::encode_scalar(s[0] as u32).len();
        let k = chars_within(s, n) as int;
        assert(s.take(0) =~= Seq::empty());
        if n > w {
            law_chars_within_fill_bytes(rest, n - w);
            assert(s.take(k - 1).drop_first() =~= rest.take(k - 2));
        } else {
            assert(chars_within(rest, n - w) == 0);
            assert(rest.take(0) =~= Seq::empty());
        }
        assert(s.take(k).drop_first() =~= rest.take(k - 1));
    }
}

/// The line of a dropped file, scrolled to the side by as many bytes. A
/// character of which a part is scrolled away is not shown.
pub open spec fn drop_line(path: Seq<char>, scroll: int) -> Seq<char> {
    let full = "  "@ + path;
    if 0 < scroll < keys::byte_len(full) {
        "…"@ + full.skip(chars_within(full, scroll + 1) as int)
    } else {
        full
    }
}

fn bytes_of(c: char) -> (r: usize)
    ensures
        r == vstd::utf8::encode_scalar(c as u32).len(),
{
    let n: u32 = c as u32;
    if n <= 0x7f {
        1
    } else if n <= 0x7ff {
        2
    } else if n <= 0xffff {
        3
    } else {
        4
    }
}

fn count_within(s: &[char], n: usize) -> (r: usize)
    ensures
        r == chars_within(s@, n as int),
        r <= s@.len(),
{
    let mut i: usize = 0;
    let mut left: usize = n;
    assert(s@.skip(0) =~= s@);
    while i < s.len() && left > 0
        invariant
            i <= s@.len(),
            chars_within(s@, n as int) == i + chars_within(s@.skip(i as int), left as int),
        decreases s@.len() - i,
    {
        let w: usize = bytes_of(s[i]);
        proof {
            let rest = s@.skip(i as int);
            assert(rest[0] == s@[i as int]);
            assert(rest.drop_first() =~= s@.skip(i + 1));
            if w > left {
                assert(chars_within(s@.skip(i + 1), left - w) == 0);
                assert(chars_within(s@.skip(i + 1), 0) == 0);
            }
        }
        left = left.saturating_sub(w);
        i += 1;
    }
    i
}

fn line_of_drop(path: &str, scroll: usize) -> (r: String)
    ensures
        r@ == drop_line(path@, scroll as int),
{
    let full = cat("  ", path);
    let v = chars_of(full.as_str());
    if scroll > 0 && scroll < full.as_str().len() {
        let k: usize = count_within(v.as_slice(), scroll + 1);
        let rest = string_of(slice_subrange(v.as_slice(), k, v.len()));
        assert(rest@ =~= full@.skip(k as int));
        cat("…", rest.as_str())
    } else {
        full
    }
}

/// The dropped files that are shown.
pub open spec fn drops_in_sight(paths: Seq<Seq<char>>, scroll_y: int, rows: int) -> int {
    geometry::at_most(geometry::monus(paths.len() as int, scroll_y), rows)
}

impl CoreView {
    /// The lines of the box that asks about dropped files.
    pub open spec fn drop_lines(self, paths: Seq<Seq<char>>, inner: Rect) -> Seq<Seq<PieceView>> {
        let n = drops_in_sight(paths, self.drop_scroll_y as int, drop_rows(inner));
        let files = Seq::new(
            n as nat,
            |i: int|
                seq![
                    view::piece(
                        drop_line(paths[self.drop_scroll_y + i], self.drop_scroll_x as int),
                        Style::colored(Color::Cyan),
                    ),
                ],
        );
        let head = seq![
            seq![
                view::piece(
                    " Upload "@ + text::decimal(paths.len()) + " file(s)? "@,
                    Style::strong(Color::White),
                ),
            ],
            Seq::<PieceView>::empty(),
        ];
        let indicator = if paths.len() > n {
            seq![
                view::piece(
                    "  ["@ + text::decimal(
                        geometry::at_most(self.drop_scroll_y + 1, u64::MAX as int) as nat,
                    ) + "-"@ + text::decimal(
                        geometry::at_most(self.drop_scroll_y + n, u64::MAX as int) as nat,
                    ) + (" of "@ + text::decimal(paths.len()) + "] ↑↓ to scroll"@),
                    Style::colored(Color::DarkGray),
                ),
            ]
        } else {
            Seq::<PieceView>::empty()
        };
        head + files + seq![indicator, drop_hints()]
    }
}

/// The keys that answer the question about dropped files.
pub open spec fn drop_hints() -> Seq<PieceView> {
    seq![
        view::piece("[y]"@, Style::strong(Color::Yellow)),
        view::piece(" Upload  "@, Style::colored(Color::DarkGray)),
        view::piece("[n]"@, Style::strong(Color::Yellow)),
        view::piece(" Cancel  "@, Style::colored(Color::DarkGray)),
        view::piece("[←→]"@, Style::strong(Color::Yellow)),
        view::piece(" Scroll"@, Style::colored(Color::DarkGray)),
    ]
}

fn hints_of_drop() -> (r: Vec<Piece>)
    ensures
        view::line_view(r@) == drop_hints(),
{
    let r = vec![
        Piece { text: "[y]".to_owned(), style: Style::bold(Color::Yellow) },
        Piece { text: " Upload  ".to_owned(), style: Style::plain(Color::DarkGray) },
        Piece { text: "[n]".to_owned(), style: Style::bold(Color::Yellow) },
        Piece { text: " Cancel  ".to_owned(), style: Style::plain(Color::DarkGray) },
        Piece { text: "[←→]".to_owned(), style: Style::bold(Color::Yellow) },
        Piece { text: " Scroll".to_owned(), style: Style::plain(Color::DarkGray) },
    ];
    assert(view::line_view(r@) =~= drop_hints());
    r
}

/// The area of the box that asks about dropped files.
pub open spec fn drop_area(inner: Rect, lines: int) -> Rect {
    view::in_the_middle(
        inner,
        geometry::at_most(DROP_WIDTH as int, geometry::monus(inner.width as int, 4)) as u16,
        geometry::at_most(lines + 2, inner.height as int) as u16,
    )
}

impl BrowserCore {
    fn lines_of_drop(&self, paths: &Vec<String>, inner: Rect) -> (r: Vec<Vec<Piece>>)
        ensures
            view::lines_view(r@) == self@.drop_lines(text::texts(paths@), inner),
            r@.len() <= 9,
    {
        let ghost model = text::texts(paths@);
        let count: usize = paths.len();
        let room: u16 = inner.height.saturating_sub(6);
        let rows: usize = if room >= 5 {
            5
        } else if room >= 1 {
            room as usize
        } else {
            1
        };
        let first: usize = self.drop_scroll_y;
        let left: usize = count.saturating_sub(first);
        let n: usize = if left <= rows {
            left
        } else {
            rows
        };
        assert(n == drops_in_sight(model, first as int, drop_rows(inner)));
        let ghost plan = self@.drop_lines(model, inner);
        let mut r: Vec<Vec<Piece>> = Vec::new();
        r.push(
            line_of(
                cat3(" Upload ", decimal_of(count as u64).as_str(), " file(s)? "),
                Style::bold(Color::White),
            ),
        );
        r.push(Vec::new());
        assert(view::line_view(r@[0]@) == plan[0]);
        assert(view::line_view(r@[1]@) =~= plan[1]);
        let mut i: usize = 0;
        while i < n
            invariant
                i <= n,
                n <= 5,
                n == drops_in_sight(model, first as int, drop_rows(inner)),
                first == self@.drop_scroll_y,
                model == text::texts(paths@),
                count == paths@.len(),
                first + n <= count || n == 0,
                plan == self@.drop_lines(model, inner),
                r@.len() == i + 2,
                forall|k: int| 0 <= k < i + 2 ==> view::line_view(#[trigger] r@[k]@) == plan[k],
            decreases n - i,
        {
            assert(model[first + i] == paths@[first + i]@);
            let line = line_of(
                line_of_drop(paths[first + i].as_str(), self.drop_scroll_x),
                Style::plain(Color::Cyan),
            );
            r.push(line);
            i += 1;
        }
        let indicator = if count > n {
            let end = cat3(" of ", decimal_of(count as u64).as_str(), "] ↑↓ to scroll");
            let from: u64 = (first as u64).saturating_add(1);
            let to: u64 = (first as u64).saturating_add(n as u64);
            line_of(
                cat5(
                    "  [",
                    decimal_of(from).as_str(),
                    "-",
                    decimal_of(to).as_str(),
                    end.as_str(),
                ),
                Style::plain(Color::DarkGray),
            )
        } else {
            Vec::new()
        };
        let ghost seen = view::line_view(indicator@);
        r.push(indicator);
        r.push(hints_of_drop());
        proof {
            assert(plan.len() == n + 4);
            assert(seen =~= plan[n + 2]);
            assert(plan[n + 3] == drop_hints());
            assert(view::lines_view(r@) =~= plan);
        }
        r
    }

    /// The box that asks about dropped files, where there are any: its area and
    /// its lines. The area around it is kept, for scrolling.
    pub fn render_upload_confirm(&mut self, inner: Rect) -> (r: Option<(Rect, Vec<Vec<Piece>>)>)
        ensures
            match old(self)@.drop_confirm {
                Some(paths) => {
                    &&& final(self)@ == (CoreView { last_inner: inner, ..old(self)@ })
                    &&& r matches Some((area, lines)) && view::lines_view(lines@) == old(
                        self,
                    )@.drop_lines(paths, inner) && area == drop_area(inner, lines@.len() as int)
                },
                None => r is None && final(self)@ == old(self)@,
            },
    {
        if self.drop_confirm.is_none() {
            return None;
        }
        self.last_inner = inner;
        let lines = match &self.drop_confirm {
            Some(paths) => self.lines_of_drop(paths, inner),
            None => Vec::new(),
        };
        let area = centered(
            inner,
            smaller(DROP_WIDTH, inner.width.saturating_sub(4)),
            smaller(lines.len() as u16 + 2, inner.height),
        );
        Some((area, lines))
    }
}

// ---------------------------------------------------------------------------
// The transfer under way
// ---------------------------------------------------------------------------

/// The height of the box that shows the transfer under way.
pub const TRANSFER_HEIGHT: u16 = 4;

/// The box that shows the transfer under way: what it carries, how long it has
/// taken, and how far it is.
#[derive(Debug)]
pub struct TransferPlan {
    pub area: Rect,
    /// The text at the left of the first line.
    pub name: String,
    /// The text at the right of the first line.
    pub time: String,
    /// Per cent, for the bar in the second line.
    pub percent: u8,
}

/// What the box for the transfer under way shows.
#[verifier::ext_equal]
pub struct TransferPlanView {
    pub area: Rect,
    pub name: Seq<char>,
    pub time: Seq<char>,
    pub percent: u8,
}

impl View for TransferPlan {
    type V = TransferPlanView;

    open spec fn view(&self) -> TransferPlanView {
        TransferPlanView {
            area: self.area,
            name: self.name@,
            time: self.time@,
            percent: self.percent,
        }
    }
}

impl CoreView {
    /// The box that shows the transfer under way, where there is one.
    pub open spec fn transfer_box(self, inner: Rect, now: u64) -> Option<TransferPlanView> {
        match (self.transfer.start, self.transfer.last) {
            (Some(start), Some(t)) => Some(
                TransferPlanView {
                    area: view::in_the_middle(
                        inner,
                        geometry::at_most(
                            DROP_WIDTH as int,
                            geometry::monus(inner.width as int, 4),
                        ) as u16,
                        geometry::at_most(TRANSFER_HEIGHT as int, inner.height as int) as u16,
                    ),
                    name: match t.direction {
                        TransferDirection::Download => "↓"@,
                        TransferDirection::Upload => "↑"@,
                    } + "  "@ + t.filename,
                    time: navigation::duration_text(navigation::since(start, now) as nat),
                    percent: t.progress,
                },
            ),
            _ => None,
        }
    }
}

impl BrowserCore {
    /// The box that shows the transfer under way, where there is one.
    pub fn render_transfer_progress(&self, inner: Rect, now: u64) -> (r: Option<TransferPlan>)
        ensures
            (match r {
                Some(p) => Some(p@),
                None => None,
            }) == self@.transfer_box(inner, now),
    {
        let start: u64 = match self.transfer.start {
            Some(s) => s,
            None => {
                return None;
            },
        };
        match &self.transfer.last {
            Some(t) => {
                let arrow = match t.direction {
                    TransferDirection::Download => "↓",
                    TransferDirection::Upload => "↑",
                };
                Some(
                    TransferPlan {
                        area: centered(
                            inner,
                            smaller(DROP_WIDTH, inner.width.saturating_sub(4)),
                            smaller(TRANSFER_HEIGHT, inner.height),
                        ),
                        name: cat3(arrow, "  ", t.filename.as_str()),
                        time: BrowserCore::format_duration(now.saturating_sub(start)),
                        percent: t.progress,
                    },
                )
            },
            None => None,
        }
    }
}

// ---------------------------------------------------------------------------
// Dragging
// ---------------------------------------------------------------------------

/// The arrows between the panels while something is dragged.
#[derive(Clone, Copy, Debug, PartialEq, Eq, Structural)]
pub struct ArrowPlan {
    pub left_x: u16,
    pub right_x: u16,
    pub first_y: u16,
    pub rows: u16,
    pub glyph: char,
}

impl CoreView {
    /// The arrows between the panels while something is dragged. They point away
    /// from the panel where the drag began.
    pub open spec fn arrows(self, area: Rect, leaf_count: usize) -> Option<ArrowPlan> {
        let l = browser::layout_of(
            if leaf_count > 1 {
                geometry::above_tab_bar(area)
            } else {
                area
            },
        );
        let h = l.local_panel.height;
        let rows = geometry::at_most(3, h as int);
        match self.drag {
            Some(d) => Some(
                ArrowPlan {
                    left_x: geometry::at_most(geometry::monus(l.local_panel.end_x(), 1), u16::MAX as int) as u16,
                    right_x: l.remote_panel.x,
                    first_y: geometry::monus(
                        geometry::at_most(l.local_panel.y + h / 2, u16::MAX as int),
                        rows / 2,
                    ) as u16,
                    rows: rows as u16,
                    glyph: if d.origin == BrowserFocus::Local {
                        '>'
                    } else {
                        '<'
                    },
                },
            ),
            None => None,
        }
    }

    /// The label that follows the mouse while something is dragged, with the
    /// cell where it starts.
    pub open spec fn drag_ghost(self) -> Option<(Seq<char>, int, int)> {
        match self.drag {
            Some(d) => Some((" "@ + d.label + " "@, d.mouse_col + 2, d.mouse_row as int)),
            None => None,
        }
    }
}

impl BrowserCore {
    /// The arrows between the panels while something is dragged.
    pub fn render_drag_arrow(&self, area: Rect, leaf_count: usize) -> (r: Option<ArrowPlan>)
        ensures
            r == self@.arrows(area, leaf_count),
    {
        match &self.drag {
            Some(d) => {
                let inner = if leaf_count > 1 {
                    pane_inner(area)
                } else {
                    area
                };
                let l = browser_layout(inner);
                let h: u16 = l.local_panel.height;
                let rows: u16 = smaller(3, h);
                let end: u32 = l.local_panel.x as u32 + l.local_panel.width as u32;
                let last: u32 = if end > 0 {
                    end - 1
                } else {
                    0
                };
                let left_x: u16 = if last <= 0xffff {
                    last as u16
                } else {
                    u16::MAX
                };
                let mid: u16 = l.local_panel.y.saturating_add(h / 2);
                Some(
                    ArrowPlan {
                        left_x,
                        right_x: l.remote_panel.x,
                        first_y: mid.saturating_sub(rows / 2),
                        rows,
                        glyph: if d.origin == BrowserFocus::Local {
                            '>'
                        } else {
                            '<'
                        },
                    },
                )
            },
            None => None,
        }
    }

    /// The label that follows the mouse while something is dragged, with the
    /// cell where it starts.
    pub fn render_drag_ghost(&self) -> (r: Option<(String, u32, u32)>)
        ensures
            (match r {
                Some((s, x, y)) => Some((s@, x as int, y as int)),
                None => None,
            }) == self@.drag_ghost(),
    {
        match &self.drag {
            Some(d) => Some(
                (cat3(" ", d.label.as_str(), " "), d.mouse_col as u32 + 2, d.mouse_row as u32),
            ),
            None => None,
        }
    }
}

// ---------------------------------------------------------------------------
// Panes whose process has ended
// ---------------------------------------------------------------------------

/// The largest width of the box in a pane whose session has ended.
pub const EXIT_WIDTH: u16 = 34;

/// The height of that box.
pub const EXIT_HEIGHT: u16 = 3;

/// The area of the box in a pane whose session has ended.
pub open spec fn exit_area(inner: Rect) -> Rect {
    view::in_the_middle(
        inner,
        geometry::at_most(EXIT_WIDTH as int, geometry::monus(inner.width as int, 2)) as u16,
        EXIT_HEIGHT,
    )
}

/// The choices in a pane whose session has ended. The chosen one stands out.
pub open spec fn exit_line(selection: u8) -> Seq<PieceView> {
    let chosen = Style::strong(Color::Yellow);
    let dim = Style::colored(Color::DarkGray);
    seq![
        view::piece(
            "Reconnect"@,
            if selection == 0 {
                chosen
            } else {
                dim
            },
        ),
        view::piece(" / "@, dim),
        view::piece(
            "Close pane"@,
            if selection == 1 {
                chosen
            } else {
                dim
            },
        ),
    ]
}

/// The box in a pane whose session has ended: its area and its line.
pub fn render_exit_overlay(inner: Rect, selection: u8) -> (r: (Rect, Vec<Piece>))
    ensures
        r.0 == exit_area(inner),
        view::line_view(r.1@) == exit_line(selection),
{
    let area = centered(
        inner,
        smaller(EXIT_WIDTH, inner.width.saturating_sub(2)),
        EXIT_HEIGHT,
    );
    let first = if selection == 0 {
        Style::bold(Color::Yellow)
    } else {
        Style::plain(Color::DarkGray)
    };
    let second = if selection == 1 {
        Style::bold(Color::Yellow)
    } else {
        Style::plain(Color::DarkGray)
    };
    let line = vec![
        Piece { text: "Reconnect".to_owned(), style: first },
        Piece { text: " / ".to_owned(), style: Style::plain(Color::DarkGray) },
        Piece { text: "Close pane".to_owned(), style: second },
    ];
    assert(view::line_view(line@) =~= exit_line(selection));
    (area, line)
}

} // verus!
