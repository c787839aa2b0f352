//! A panel of a browser, as it is shown.
use vstd::prelude::*;
use crate::geometry;
use crate::text;
use crate::view;
use vstd::slice::slice_subrange;
use crate::browser::common::{BrowserCore, BrowserFocus, CoreView, PanelView};
use crate::browser::parse::{EntryView, FsEntry};
use crate::geometry::Rect;
use crate::style::{Color, Style};
use crate::text::{cat, cat3, cat5, chars_of, same, string_of, trim};
use crate::view::{line_of, line_of2, pad_left, pad_right, push_blanks, Piece, PieceView};

verus! {

/// The width of the columns behind the name: size, time and permissions.
pub const META_WIDTH: usize = 37;

/// The area inside a border.
pub open spec fn inside_border(area: Rect) -> Rect {
    Rect {
        x: geometry::at_most(area.x + 1, u16::MAX as int) as u16,
        y: geometry::at_most(area.y + 1, u16::MAX as int) as u16,
        width: geometry::monus(area.width as int, 2) as u16,
        height: geometry::monus(area.height as int, 2) as u16,
    }
}

/// The area inside a border.
pub fn border_inner(area: Rect) -> (r: Rect)
    ensures
        r == inside_border(area),
{
    Rect {
        x: area.x.saturating_add(1),
        y: area.y.saturating_add(1),
        width: area.width.saturating_sub(2),
        height: area.height.saturating_sub(2),
    }
}

/// The number of bytes of a character.
pub open spec fn char_bytes(c: char) -> nat {
    if (c as int) < 0x80 {
        1
    } else if (c as int) < 0x800 {
        2
    } else if (c as int) < 0x10000 {
        3
    } else {
        4
    }
}

/// The number of bytes of a text.
pub open spec fn text_bytes(s: Seq<char>) -> nat
    decreases s.len(),
{
    if s.len() == 0 {
        0
    } else {
        text_bytes(s.drop_last()) + char_bytes(s.last())
    }
}

fn bytes_of_char(c: char) -> (r: usize)
    ensures
        r == char_bytes(c),
{
    let n: u32 = c as u32;
    if n < 0x80 {
        1
    } else if n < 0x800 {
        2
    } else if n < 0x10000 {
        3
    } else {
        4
    }
}

/// The number of bytes of a text, as far as it can be numbered.
pub fn count_bytes(s: &str) -> (r: usize)
    ensures
        r == geometry::at_most(text_bytes(s@) as int, usize::MAX as int),
{
    let v = chars_of(s);
    let mut n: usize = 0;
    let mut i: usize = 0;
    while i < v.len()
        invariant
            v@ == s@,
            i <= v@.len(),
            n == geometry::at_most(text_bytes(s@.take(i as int)) as int, usize::MAX as int),
        decreases v@.len() - i,
    {
        let bytes: usize = bytes_of_char(v[i]);
        n = n.saturating_add(bytes);
        i += 1;
        assert(s@.take(i as int).drop_last() =~= s@.take(i - 1));
        assert(s@.take(i as int).last() == v@[i - 1]);
    }
    assert(s@.take(i as int) =~= s@);
    n
}

/// The room that the name of an entry asks for.
pub open spec fn name_room(e: EntryView) -> int {
    geometry::at_most(
        geometry::at_most(text_bytes(e.name) as int, usize::MAX as int) + if e.is_dir {
            1int
        } else {
            0
        },
        usize::MAX as int,
    )
}

/// The most room that one of the first `n` names asks for.
pub open spec fn widest_name(s: Seq<EntryView>, n: int) -> int
    decreases n,
{
    if n <= 0 {
        0
    } else {
        let before = widest_name(s, n - 1);
        if name_room(s[n - 1]) > before {
            name_room(s[n - 1])
        } else {
            before
        }
    }
}

fn find_widest(v: &Vec<FsEntry>) -> (r: usize)
    ensures
        r == widest_name(crate::browser::parse::entries_view(v@), v@.len() as int),
{
    let ghost model = crate::browser::parse::entries_view(v@);
    let mut r: usize = 0;
    let mut i: usize = 0;
    while i < v.len()
        invariant
            model == crate::browser::parse::entries_view(v@),
            i <= v@.len(),
            r == widest_name(model, i as int),
        decreases v@.len() - i,
    {
        assert(model[i as int] == v@[i as int]@);
        let bytes: usize = count_bytes(v[i].name.as_str());
        let room: usize = if v[i].is_dir {
            bytes.saturating_add(1)
        } else {
            bytes
        };
        if room > r {
            r = room;
        }
        i += 1;
    }
    r
}

/// The width of the lines, which may be more than is shown.
pub open spec fn full_width(s: Seq<EntryView>, shown: int) -> int {
    let wanted = geometry::at_most(widest_name(s, s.len() as int) + 1 + META_WIDTH, usize::MAX as int);
    if wanted > shown {
        wanted
    } else {
        shown
    }
}

/// The name of an entry, as it is shown.
pub open spec fn shown_name(e: EntryView) -> Seq<char> {
    if e.is_dir {
        e.name + "/"@
    } else {
        e.name
    }
}

/// The whole line of an entry.
pub open spec fn full_line(e: EntryView, width: int) -> Seq<char> {
    shown_name(e) + view::blanks(geometry::monus(width - META_WIDTH, shown_name(e).len() as int)) + (view::padded_left(
        e.size,
        9,
    ) + " "@ + view::padded_right(e.modified, 16) + " "@ + view::padded_right(e.perms, 10))
}

/// The part of a line that is shown when it is scrolled.
pub open spec fn scrolled_line(line: Seq<char>, scroll: int, shown: int) -> Seq<char> {
    view::padded_right(
        if scroll >= line.len() {
            Seq::empty()
        } else {
            line.subrange(scroll, geometry::at_most(line.len() as int, scroll + shown))
        },
        shown,
    )
}

/// The number of characters of the name that are in sight.
pub open spec fn name_in_sight(e: EntryView, scroll: int, shown: int) -> int {
    geometry::at_most(geometry::monus(shown_name(e).len() as int, scroll), shown)
}

/// The style of a chosen line.
pub open spec fn chosen_style(active: bool) -> Style {
    Style {
        fg: Color::Black,
        bg: if active {
            Color::Cyan
        } else {
            Color::DarkGray
        },
        bold: true,
    }
}

/// The style of a chosen line.
pub fn highlight(active: bool) -> (r: Style)
    ensures
        r == chosen_style(active),
{
    Style {
        fg: Color::Black,
        bg: if active {
            Color::Cyan
        } else {
            Color::DarkGray
        },
        bold: true,
    }
}

/// The line of an entry, as it is shown.
pub open spec fn entry_line(
    e: EntryView,
    width: int,
    scroll: int,
    shown: int,
    chosen: bool,
    active: bool,
) -> Seq<PieceView> {
    let line = scrolled_line(full_line(e, width), scroll, shown);
    let n = name_in_sight(e, scroll, shown);
    let rest = if chosen {
        chosen_style(active)
    } else {
        Style::colored(Color::DarkGray)
    };
    if n == 0 {
        seq![view::piece(line, rest)]
    } else {
        seq![
            view::piece(
                line.take(n),
                if chosen {
                    chosen_style(active)
                } else if e.is_dir {
                    Style::colored(Color::Cyan)
                } else {
                    Style::colored(Color::White)
                },
            ),
            view::piece(line.skip(n), rest),
        ]
    }
}

fn line_of_entry(
    e: &FsEntry,
    width: usize,
    scroll: usize,
    shown: usize,
    chosen: bool,
    active: bool,
) -> (r: Vec<Piece>)
    requires
        width >= META_WIDTH,
        shown <= 0xffff,
    ensures
        view::line_view(r@) == entry_line(
            e@,
            width as int,
            scroll as int,
            shown as int,
            chosen,
            active,
        ),
{
    let name = if e.is_dir {
        cat(e.name.as_str(), "/")
    } else {
        e.name.clone()
    };
    assert(name@ == shown_name(e@));
    let mut v = chars_of(name.as_str());
    let name_len: usize = v.len();
    push_blanks(&mut v, (width - META_WIDTH).saturating_sub(name_len));
    let meta = cat5(
        pad_left(e.size.as_str(), 9).as_str(),
        " ",
        pad_right(e.modified.as_str(), 16).as_str(),
        " ",
        pad_right(e.perms.as_str(), 10).as_str(),
    );
    let mut m = chars_of(meta.as_str());
    v.append(&mut m);
    assert(v@ =~= full_line(e@, width as int));
    let part: &[char] = if scroll >= v.len() {
        slice_subrange(v.as_slice(), 0, 0)
    } else if v.len() - scroll <= shown {
        slice_subrange(v.as_slice(), scroll, v.len())
    } else {
        slice_subrange(v.as_slice(), scroll, scroll + shown)
    };
    let padded = pad_right(string_of(part).as_str(), shown);
    assert(padded@ =~= scrolled_line(full_line(e@, width as int), scroll as int, shown as int));
    let line = chars_of(padded.as_str());
    let visible: usize = name_len.saturating_sub(scroll);
    let n: usize = if visible <= shown {
        visible
    } else {
        shown
    };
    let rest_style = if chosen {
        highlight(active)
    } else {
        Style::plain(Color::DarkGray)
    };
    if n == 0 {
        line_of(padded, rest_style)
    } else {
        let name_style = if chosen {
            highlight(active)
        } else if e.is_dir {
            Style::plain(Color::Cyan)
        } else {
            Style::plain(Color::White)
        };
        let head = string_of(slice_subrange(line.as_slice(), 0, n));
        let tail = string_of(slice_subrange(line.as_slice(), n, line.len()));
        assert(head@ =~= line@.take(n as int));
        assert(tail@ =~= line@.skip(n as int));
        line_of2(head, name_style, tail, rest_style)
    }
}

/// What is in a panel.
#[derive(Debug)]
pub enum PanelBody {
    /// The drives that can be chosen.
    Drives(Vec<String>),
    /// The output of a process that has listed nothing yet.
    Output(Vec<String>),
    /// The entries of a directory.
    Entries(Vec<Vec<Piece>>),
}

/// What is in a panel.
#[verifier::ext_equal]
pub enum BodyView {
    Drives(Seq<Seq<char>>),
    Output(Seq<Seq<char>>),
    Entries(Seq<Seq<PieceView>>),
}

impl View for PanelBody {
    type V = BodyView;

    open spec fn view(&self) -> BodyView {
        match *self {
            PanelBody::Drives(v) => BodyView::Drives(text::texts(v@)),
            PanelBody::Output(v) => BodyView::Output(text::texts(v@)),
            PanelBody::Entries(v) => BodyView::Entries(view::lines_view(v@)),
        }
    }
}

/// A panel, as it is shown.
#[derive(Debug)]
pub struct PanelPlan {
    pub inner: Rect,
    pub border: Color,
    /// The directory, at the left of the top.
    pub path: String,
    /// What the panel is, at the right of the top.
    pub title: String,
    pub body: PanelBody,
    pub highlight: Style,
}

/// A panel, as it is shown.
#[verifier::ext_equal]
pub struct PanelPlanView {
    pub inner: Rect,
    pub border: Color,
    pub path: Seq<char>,
    pub title: Seq<char>,
    pub body: BodyView,
    pub highlight: Style,
}

impl View for PanelPlan {
    type V = PanelPlanView;

    open spec fn view(&self) -> PanelPlanView {
        PanelPlanView {
            inner: self.inner,
            border: self.border,
            path: self.path@,
            title: self.title@,
            body: self.body@,
            highlight: self.highlight,
        }
    }
}

/// Whether there is nothing in a directory but the way up.
pub open spec fn only_way_up(s: Seq<EntryView>) -> bool {
    s.len() == 0 || (s.len() == 1 && s[0].name == ".."@)
}

/// The first `n` lines without those that are blank.
pub open spec fn not_blank(s: Seq<Seq<char>>, n: int) -> Seq<Seq<char>>
    decreases n,
{
    if n <= 0 {
        Seq::empty()
    } else if text::trimmed(s[n - 1]).len() == 0 {
        not_blank(s, n - 1)
    } else {
        not_blank(s, n - 1).push(s[n - 1])
    }
}

/// The first `width` characters of a line.
pub open spec fn cut(s: Seq<char>, width: int) -> Seq<char> {
    s.take(geometry::at_most(s.len() as int, width))
}

/// The last lines of output that fit into a panel, without blank ones.
pub open spec fn last_output(s: Seq<Seq<char>>, width: int, height: int) -> Seq<Seq<char>> {
    let lines = not_blank(s, s.len() as int);
    let from = geometry::monus(lines.len() as int, height);
    Seq::new((lines.len() - from) as nat, |i: int| cut(lines[from + i], width))
}

fn find_last_output(s: &Vec<String>, width: usize, height: usize) -> (r: Vec<String>)
    ensures
        text::texts(r@) == last_output(text::texts(s@), width as int, height as int),
{
    let ghost model = text::texts(s@);
    let mut lines: Vec<usize> = Vec::new();
    let mut i: usize = 0;
    let ghost mut kept: Seq<Seq<char>> = Seq::empty();
    while i < s.len()
        invariant
            model == text::texts(s@),
            i <= s@.len(),
            kept == not_blank(model, i as int),
            kept.len() == lines@.len(),
            forall|k: int|
                0 <= k < lines@.len() ==> #[trigger] lines@[k] < s@.len() && kept[k]
                    == model[lines@[k] as int],
        decreases s@.len() - i,
    {
        assert(model[i as int] == s@[i as int]@);
        let line = chars_of(s[i].as_str());
        if trim(line.as_slice()).len() > 0 {
            lines.push(i);
            proof {
                kept = kept.push(model[i as int]);
            }
        }
        i += 1;
    }
    let from: usize = lines.len().saturating_sub(height);
    let mut r: Vec<String> = Vec::new();
    let mut k: usize = from;
    while k < lines.len()
        invariant
            model == text::texts(s@),
            from == geometry::monus(kept.len() as int, height as int),
            kept.len() == lines@.len(),
            from <= k <= lines@.len(),
            forall|j: int|
                0 <= j < lines@.len() ==> #[trigger] lines@[j] < s@.len() && kept[j]
                    == model[lines@[j] as int],
            r@.len() == k - from,
            forall|j: int|
                0 <= j < r@.len() ==> #[trigger] r@[j]@ == cut(kept[from + j], width as int),
        decreases lines@.len() - k,
    {
        let line = chars_of(s[lines[k]].as_str());
        assert(line@ == model[lines@[k as int] as int]);
        let n: usize = if line.len() <= width {
            line.len()
        } else {
            width
        };
        let piece = string_of(slice_subrange(line.as_slice(), 0, n));
        assert(piece@ =~= cut(kept[k as int], width as int));
        r.push(piece);
        k += 1;
    }
    assert(text::texts(r@) =~= last_output(model, width as int, height as int));
    r
}

/// The lines of the entries of a panel, as they are shown.
pub open spec fn entry_lines(
    s: Seq<EntryView>,
    width: int,
    scroll: int,
    shown: int,
    chosen: Set<usize>,
    marked: bool,
    active: bool,
) -> Seq<Seq<PieceView>> {
    Seq::new(
        s.len(),
        |i: int|
            entry_line(
                s[i],
                width,
                scroll,
                shown,
                marked && chosen.contains(i as usize),
                active,
            ),
    )
}

impl CoreView {
    /// The panel on a side.
    pub open spec fn panel(self, side: BrowserFocus) -> PanelView {
        if side == BrowserFocus::Local {
            self.local
        } else {
            self.remote
        }
    }

    /// What a panel is called.
    pub open spec fn panel_title(self, side: BrowserFocus) -> Seq<char> {
        if side == BrowserFocus::Remote {
            " remote "@
        } else if self.drive_picker is Some {
            " select drive "@
        } else {
            " local "@
        }
    }

    /// How far a panel is scrolled to the side: no further than its lines go.
    pub open spec fn panel_scroll(self, side: BrowserFocus, shown: int) -> int {
        geometry::at_most(
            self.panel(side).scroll_x as int,
            geometry::monus(full_width(self.panel(side).entries, shown), shown),
        )
    }

    /// What is in a panel of the given inner area.
    pub open spec fn panel_body(self, inner: Rect, side: BrowserFocus, focused: bool) -> BodyView {
        let entries = self.panel(side).entries;
        let shown = inner.width as int;
        if side == BrowserFocus::Local && self.drive_picker is Some {
            match self.drive_picker {
                Some(p) => BodyView::Drives(p.0),
                None => BodyView::Drives(Seq::empty()),
            }
        } else if side == BrowserFocus::Remote && only_way_up(entries) && self.raw_snapshot.len()
            > 0 {
            BodyView::Output(last_output(self.raw_snapshot, shown, inner.height as int))
        } else {
            BodyView::Entries(
                entry_lines(
                    entries,
                    full_width(entries, shown),
                    self.panel_scroll(side, shown),
                    shown,
                    self.selected,
                    self.focus == side,
                    self.focus == side && focused,
                ),
            )
        }
    }

    /// A panel, as it is shown in an area.
    pub open spec fn panel_plan(self, area: Rect, side: BrowserFocus, focused: bool) -> PanelPlanView {
        let active = self.focus == side && focused;
        PanelPlanView {
            inner: inside_border(area),
            border: if active {
                Color::Cyan
            } else {
                Color::DarkGray
            },
            path: " "@ + self.panel(side).path + " "@,
            title: " "@ + self.panel_title(side) + " "@,
            body: self.panel_body(inside_border(area), side, focused),
            highlight: if side == BrowserFocus::Local && self.drive_picker is Some {
                chosen_style(true)
            } else {
                chosen_style(active)
            },
        }
    }
}

fn lines_of_entries(
    core: &BrowserCore,
    entries: &Vec<FsEntry>,
    scroll: usize,
    shown: usize,
    marked: bool,
    active: bool,
) -> (r: Vec<Vec<Piece>>)
    requires
        shown <= 0xffff,
    ensures
        view::lines_view(r@) == entry_lines(
            crate::browser::parse::entries_view(entries@),
            full_width(crate::browser::parse::entries_view(entries@), shown as int),
            geometry::at_most(
                scroll as int,
                geometry::monus(
                    full_width(crate::browser::parse::entries_view(entries@), shown as int),
                    shown as int,
                ),
            ),
            shown as int,
            core@.selected,
            marked,
            active,
        ),
{
    let ghost model = crate::browser::parse::entries_view(entries@);
    let wanted: usize = find_widest(entries).saturating_add(1).saturating_add(META_WIDTH);
    let width: usize = if wanted > shown {
        wanted
    } else {
        shown
    };
    assert(width == full_width(model, shown as int));
    let most: usize = width - shown;
    let sx: usize = if scroll <= most {
        scroll
    } else {
        most
    };
    let mut r: Vec<Vec<Piece>> = Vec::new();
    let mut i: usize = 0;
    while i < entries.len()
        invariant
            shown <= 0xffff,
            width >= META_WIDTH,
            model == crate::browser::parse::entries_view(entries@),
            i <= entries@.len(),
            r@.len() == i,
            forall|k: int|
                0 <= k < i ==> view::line_view(#[trigger] r@[k]@) == entry_line(
                    model[k],
                    width as int,
                    sx as int,
                    shown as int,
                    marked && core@.selected.contains(k as usize),
                    active,
                ),
        decreases entries@.len() - i,
    {
        assert(model[i as int] == entries@[i as int]@);
        let chosen = marked && core.selected.contains(&i);
        r.push(line_of_entry(&entries[i], width, sx, shown, chosen, active));
        i += 1;
    }
    assert(view::lines_view(r@) =~= entry_lines(
        model,
        width as int,
        sx as int,
        shown as int,
        core@.selected,
        marked,
        active,
    ));
    r
}

impl BrowserCore {
    fn body_of_panel(&self, inner: Rect, side: BrowserFocus, focused: bool) -> (r: PanelBody)
        ensures
            r@ == self@.panel_body(inner, side, focused),
    {
        if side == BrowserFocus::Local {
            if let Some((drives, _)) = &self.drive_picker {
                let mut v: Vec<String> = Vec::new();
                let mut i: usize = 0;
                while i < drives.len()
                    invariant
                        i <= drives@.len(),
                        v@.len() == i,
                        forall|k: int| 0 <= k < i ==> #[trigger] v@[k]@ == drives@[k]@,
                    decreases drives@.len() - i,
                {
                    v.push(drives[i].clone());
                    i += 1;
                }
                assert(text::texts(v@) =~= text::texts(drives@));
                return PanelBody::Drives(v);
            }
        }
        let panel = if side == BrowserFocus::Local {
            &self.local
        } else {
            &self.remote
        };
        let entries = &panel.entries;
        let empty = entries.len() == 0 || (entries.len() == 1 && same(
            entries[0].name.as_str(),
            "..",
        ));
        proof {
            let model = panel@.entries;
            assert(model.len() == entries@.len());
            assert(model.len() > 0 ==> model[0] == entries@[0]@);
        }
        if side == BrowserFocus::Remote && empty && self.raw_snapshot.len() > 0 {
            return PanelBody::Output(
                find_last_output(
                    &self.raw_snapshot,
                    inner.width as usize,
                    inner.height as usize,
                ),
            );
        }
        let marked = self.focus == side;
        PanelBody::Entries(
            lines_of_entries(
                self,
                entries,
                panel.scroll_x,
                inner.width as usize,
                marked,
                marked && focused,
            ),
        )
    }

    /// What is shown of a panel in an area.
    pub fn render_panel(&self, area: Rect, side: BrowserFocus, pane_focused: bool) -> (r: PanelPlan)
        ensures
            r@ == self@.panel_plan(area, side, pane_focused),
    {
        let inner = border_inner(area);
        let active = self.focus == side && pane_focused;
        let picking = side == BrowserFocus::Local && self.drive_picker.is_some();
        let title = if side == BrowserFocus::Remote {
            " remote "
        } else if self.drive_picker.is_some() {
            " select drive "
        } else {
            " local "
        };
        let path = if side == BrowserFocus::Local {
            self.local.path.as_str()
        } else {
            self.remote.path.as_str()
        };
        PanelPlan {
            inner,
            border: if active {
                Color::Cyan
            } else {
                Color::DarkGray
            },
            path: cat3(" ", path, " "),
            title: cat3(" ", title, " "),
            body: self.body_of_panel(inner, side, pane_focused),
            highlight: if picking {
                highlight(true)
            } else {
                highlight(active)
            },
        }
    }

    /// Keeps a panel from being scrolled past the end of its lines, when it is
    /// shown in an area.
    pub fn clamp_scroll(&mut self, area: Rect, side: BrowserFocus)
        ensures
            final(self)@ == old(self)@.with_scroll(
                side,
                old(self)@.panel_scroll(side, inside_border(area).width as int) as usize,
            ),
    {
        let shown: usize = border_inner(area).width as usize;
        let panel = if side == BrowserFocus::Local {
            &mut self.local
        } else {
            &mut self.remote
        };
        let wanted: usize = find_widest(&panel.entries).saturating_add(1).saturating_add(META_WIDTH);
        let width: usize = if wanted > shown {
            wanted
        } else {
            shown
        };
        let most: usize = width - shown;
        if panel.scroll_x > most {
            panel.scroll_x = most;
        }
    }
}

impl CoreView {
    /// The browser with a panel scrolled to the side.
    pub open spec fn with_scroll(self, side: BrowserFocus, n: usize) -> CoreView {
        if side == BrowserFocus::Local {
            CoreView { local: PanelView { scroll_x: n, ..self.local }, ..self }
        } else {
            CoreView { remote: PanelView { scroll_x: n, ..self.remote }, ..self }
        }
    }
}

/// Every line of a panel has exactly the width of the panel.
pub proof fn law_entry_lines_fill_the_panel(line: Seq<char>, scroll: int, shown: int)
    requires
        0 <= scroll,
        0 <= shown,
    ensures
        scrolled_line(line, scroll, shown).len() == shown,
{
}

} // verus!
