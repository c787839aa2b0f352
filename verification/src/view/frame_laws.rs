//! What the frames round the panes, their titles and the menus show.
use vstd::prelude::*;
use crate::app::{ContextMenu, CONTEXT_MENU_ITEMS};
use crate::geometry;
use crate::geometry::Rect;
use crate::keybindings::KeyBindings;
use crate::leaves;
use crate::pane;
use crate::pane::PaneView;
use crate::tab::TabView;
use crate::view::drawing_laws;
use crate::view::leaf;
use crate::view::page;
use crate::view::page::TabPlanView;
use crate::view::screen;
use crate::view::screen::Screen;
use crate::view::tree;
use crate::view::tree::{CanvasView, FrameView};

verus! {

// ---------------------------------------------------------------------------
// Lines
// ---------------------------------------------------------------------------

/// The sides to which a line goes from the middle of its cell.
pub struct Arms {
    pub up: bool,
    pub down: bool,
    pub left: bool,
    pub right: bool,
}

/// The sides to which the line of a character goes.
pub open spec fn arms(c: char) -> Arms {
    if c == '─' {
        Arms { up: false, down: false, left: true, right: true }
    } else if c == '│' {
        Arms { up: true, down: true, left: false, right: false }
    } else if c == '┬' {
        Arms { up: false, down: true, left: true, right: true }
    } else if c == '┴' {
        Arms { up: true, down: false, left: true, right: true }
    } else if c == '├' {
        Arms { up: true, down: true, left: false, right: true }
    } else if c == '┤' {
        Arms { up: true, down: true, left: true, right: false }
    } else if c == '┼' {
        Arms { up: true, down: true, left: true, right: true }
    } else {
        Arms { up: false, down: false, left: false, right: false }
    }
}

/// Lines meet where they touch: a separator begins below a title and goes on upwards
/// where a line comes down; a title takes up a line that comes down to it; and a title
/// beside a separator is joined to it on its side.
pub proof fn law_lines_meet(c: char, above: char)
    ensures
        tree::goes_down(above) == (arms(above).down),
        arms(tree::top_glyph(above)) == (Arms {
            up: arms(above).down,
            down: true,
            left: true,
            right: true,
        }),
        c == '─' ==> arms(tree::title_glyph(c, above)) == (Arms {
            up: arms(above).down,
            ..arms('─')
        }),
        c != '─' ==> tree::title_glyph(c, above) == c,
        c == '│' ==> arms(tree::left_joint(c)) == (Arms { right: true, ..arms(c) }),
        c == '│' ==> arms(tree::right_joint(c)) == (Arms { left: true, ..arms(c) }),
        c == '┬' ==> tree::left_joint(c) == '┼' && tree::right_joint(c) == '┼',
        c != '│' && c != '┬' ==> tree::left_joint(c) == c && tree::right_joint(c) == c,
{
}

// ---------------------------------------------------------------------------
// Titles
// ---------------------------------------------------------------------------

/// A title shows what is in the pane: the host of a session or of a browser, with the
/// kind of the browser.
pub proof fn law_title_names_the_host(p: PaneView)
    ensures
        p is Session ==> tree::title_of(p) == crate::app::session_name(p->ssh_args),
        p is FileBrowser ==> tree::title_of(p) == seq![' ', 's', 'f', 't', 'p', ':', ' ']
            + p->FileBrowser_browser.core.host + seq![' '],
        p is SshBrowser ==> tree::title_of(p) == seq![' ', 's', 'c', 'p', ':', ' ']
            + p->SshBrowser_browser.core.host + seq![' '],
        p is Connect ==> tree::title_of(p) == seq!['c', 'o', 'n', 'n', 'e', 'c', 't'],
{
    reveal_strlit(" sftp: ");
    reveal_strlit(" scp: ");
    reveal_strlit(" ");
    reveal_strlit("connect");
    assert(" sftp: "@ =~= seq![' ', 's', 'f', 't', 'p', ':', ' ']);
    assert(" scp: "@ =~= seq![' ', 's', 'c', 'p', ':', ' ']);
    assert(" "@ =~= seq![' ']);
    assert("connect"@ =~= seq!['c', 'o', 'n', 'n', 'e', 'c', 't']);
}

/// The title of a pane stands in its first row, behind a short line and a blank, with
/// a line from its end to the end of the row.
pub proof fn law_title_row_shows_the_title(title: Seq<char>, width: int, i: int)
    requires
        0 <= i < width,
    ensures
        ({
            let row = tree::plain_row("── "@ + title + " "@, width);
            &&& row.len() == width
            &&& i < 2 ==> row[i] == seq!['─']
            &&& i == 2 ==> row[i] == seq![' ']
            &&& 3 <= i < 3 + title.len() ==> row[i] == seq![title[i - 3]]
            &&& i == 3 + title.len() ==> row[i] == seq![' ']
            &&& i > 3 + title.len() ==> row[i] == seq!['─']
        }),
{
    reveal_strlit("── ");
    reveal_strlit(" ");
}

/// A title bar changes the first row of its pane and nothing else.
pub proof fn law_title_changes_one_row(
    c: CanvasView,
    area: Rect,
    row: Seq<Seq<char>>,
    i: int,
)
    requires
        c.area.width > 0,
        0 <= i < c.cells.len(),
    ensures
        ({
            let x = c.column(i);
            let y = c.row(i);
            let d = tree::titled(c, area, row);
            &&& d.area == c.area && d.cells.len() == c.cells.len()
            &&& !(y == area.y && area.x <= x < area.x + area.width) ==> d.cells[i] == c.cells[i]
            &&& y == area.y && area.height > 0 && area.x <= x < area.x + area.width && x - area.x
                < row.len() && tree::glyph_of(row[x - area.x]) != '─' ==> d.cells[i]
                == row[x - area.x]
            &&& y == area.y && area.height > 0 && area.x <= x < area.x + area.width && x - area.x
                < row.len() && y == 0 ==> d.cells[i] == row[x - area.x]
        }),
{
}

/// Separators are lines from top to bottom between panes that lie side by side, and
/// change nothing else.
pub proof fn law_separators_stand_between_the_panes(
    c: CanvasView,
    area: Rect,
    parts: Seq<FrameView>,
    i: int,
    k: int,
)
    requires
        c.area.width > 0,
        0 <= i < c.cells.len(),
        0 <= k < parts.len(),
        tree::area_of(parts[k]).on_screen(),
    ensures
        ({
            let x = c.column(i);
            let y = c.row(i);
            let d = tree::separated(c, area, parts);
            let a = tree::area_of(parts[k]);
            &&& k < parts.len() - 1 && x == a.x + a.width && area.y < y < area.y + area.height
                ==> d.cells[i] == seq!['│']
            &&& k < parts.len() - 1 && x == a.x + a.width && y == area.y && area.height > 0
                ==> arms(tree::glyph_of(d.cells[i])).down
            &&& !(area.y <= y < area.y + area.height) ==> d.cells[i] == c.cells[i]
            &&& !tree::is_separator_column(parts, x) ==> d.cells[i] == c.cells[i]
        }),
{
    let x = c.column(i);
    let a = tree::area_of(parts[k]);
    if k < parts.len() - 1 && x == a.x + a.width {
        assert(x == geometry::at_most(tree::area_of(parts[k]).end_x(), u16::MAX as int));
        assert(tree::is_separator_column(parts, x));
    }
}

/// Every pane of a tab has its own title, in the order of the panes.
pub proof fn law_every_pane_has_its_title(p: PaneView, area: Rect, f: FrameView)
    requires
        tree::is_frame(p, area, f),
        pane::shared_out(p),
    ensures
        tree::frame_leaves(f).len() == leaves::leaves(p).len(),
        forall|i: int|
            0 <= i < leaves::leaves(p).len() ==> (#[trigger] tree::frame_leaves(f)[i]).1
                == tree::title_of(leaves::leaves(p)[i]),
    decreases p, 1nat, 0int,
{
    match p {
        PaneView::Split { kind, children, ratios } => {
            let parts = f->parts;
            let areas = choose|areas: Seq<Rect>| #[trigger]
                geometry::is_split(area, kind, ratios, areas) && tree::are_frames(
                    children,
                    areas,
                    parts,
                );
            lemma_titles(children, areas, parts, children.len() as int);
        },
        _ => {
            assert(leaves::leaves(p) =~= seq![p]);
        },
    }
}

proof fn lemma_titles(s: Seq<PaneView>, areas: Seq<Rect>, parts: Seq<FrameView>, n: int)
    requires
        tree::are_frames(s, areas, parts),
        areas.len() == s.len(),
        forall|i: int| 0 <= i < s.len() ==> pane::shared_out(#[trigger] s[i]),
        0 <= n <= s.len(),
    ensures
        tree::frame_leaves_before(parts, n).len() == leaves::leaves_before(s, n).len(),
        forall|i: int|
            0 <= i < leaves::leaves_before(s, n).len() ==> (
            #[trigger] tree::frame_leaves_before(parts, n)[i]).1 == tree::title_of(
                leaves::leaves_before(s, n)[i],
            ),
    decreases s, 0nat, n,
{
    if n > 0 {
        lemma_titles(s, areas, parts, n - 1);
        assert(tree::is_frame(s[n - 1], areas[n - 1], parts[n - 1]));
        law_every_pane_has_its_title(s[n - 1], areas[n - 1], parts[n - 1]);
        let before = tree::frame_leaves_before(parts, n - 1);
        let last = tree::frame_leaves(parts[n - 1]);
        assert forall|i: int| 0 <= i < leaves::leaves_before(s, n).len() implies (
        #[trigger] tree::frame_leaves_before(parts, n)[i]).1 == tree::title_of(
            leaves::leaves_before(s, n)[i],
        ) by {
            if i < before.len() {
                assert(tree::frame_leaves_before(parts, n)[i] == before[i]);
            } else {
                assert(tree::frame_leaves_before(parts, n)[i] == last[i - before.len()]);
            }
        }
    }
}

/// Exactly the pane with the focus is marked, and its contents lie below its title.
pub proof fn law_one_pane_has_the_focus(
    leaf: (Rect, Seq<char>),
    i: int,
    focus: int,
    several: bool,
)
    requires
        leaf.0.on_screen(),
        leaf.0.height > 0,
    ensures
        ({
            let p = tree::leaf_plan(leaf, i, focus, several);
            &&& p.is_focus == (i == focus)
            &&& p.title == leaf.1
            &&& p.area == leaf.0
            &&& several ==> p.inner.y == leaf.0.y + 1 && p.inner.height == leaf.0.height - 1
            &&& !several ==> p.inner == leaf.0
            &&& p.inner.x == leaf.0.x && p.inner.width == leaf.0.width
        }),
{
}

// ---------------------------------------------------------------------------
// The page
// ---------------------------------------------------------------------------

/// A session shows the screen of its own process.
pub proof fn law_session_shows_its_own_screen(
    screens: Seq<(u64, Screen)>,
    p: PaneView,
    k: int,
)
    requires
        p is Session,
        0 <= k < screens.len(),
        screens[k].0 == p->terminal.id,
        forall|i: int| 0 <= i < k ==> (#[trigger] screens[i]).0 != p->terminal.id,
    ensures
        page::screen_for(screens, p) == Some(screens[k].1),
{
    lemma_screen(screens, p->terminal.id, k, 0);
}

proof fn lemma_screen(screens: Seq<(u64, Screen)>, id: u64, k: int, i: int)
    requires
        0 <= i <= k < screens.len(),
        screens[k].0 == id,
        forall|j: int| 0 <= j < k ==> (#[trigger] screens[j]).0 != id,
    ensures
        page::screen_from(screens, id, i) == Some(screens[k].1),
    decreases k - i,
{
    if i < k {
        assert(screens[i].0 != id);
        lemma_screen(screens, id, k, i + 1);
    }
}

/// The context menu shows its items, each in its row and in the middle of it, and
/// marks the one under the mouse.
pub proof fn law_menu_shows_its_items(m: ContextMenu, screen: Rect, i: int)
    requires
        screen.on_screen(),
        screen.width >= 22,
        screen.height >= 7,
        0 <= i < 5,
        CONTEXT_MENU_ITEMS[i]@.len() <= 20,
    ensures
        ({
            let p = page::menu_plan(m, screen);
            let item = CONTEXT_MENU_ITEMS[i]@;
            let pad = (20 - item.len()) / 2;
            &&& p.items.len() == 5
            &&& p.items[i].text.len() == 20
            &&& p.items[i].text.subrange(pad, pad + item.len()) == item
            &&& p.items[i].style.bold == (m.selected == Some(i as usize))
            &&& p.inner.x == p.area.x + 1 && p.inner.y == p.area.y + 1
        }),
{
    drawing_laws::law_menu_items_stand_in_the_middle(CONTEXT_MENU_ITEMS[i]@, 20);
    geometry::law_menu_stays_on_screen(m.col, m.row, screen);
}

/// A pane shows what it is, below its title where there are several. Once its process
/// has ended it offers a choice, and not before.
pub proof fn law_pane_shows_what_it_is(
    p: PaneView,
    area: Rect,
    count: usize,
    is_focus: bool,
    bindings: KeyBindings,
    screen: Option<Screen>,
    now: u64,
)
    requires
        area.on_screen(),
        area.height > 0,
    ensures
        ({
            let s = leaf::pane_plan(p, area, count, is_focus, bindings, screen, now);
            &&& p is Connect <==> s.content is Connect
            &&& p is FileBrowser || p is SshBrowser <==> s.content is Browser
            &&& p is Session || p is Split <==> s.content is Session
            &&& s.is_focus == is_focus
            &&& count > 1 ==> s.inner.y == area.y + 1 && s.inner.height == area.height - 1
            &&& count <= 1 ==> s.inner == area
            &&& p is Session ==> (s.ended is Some <==> p->terminal.exited)
            &&& p is FileBrowser ==> (s.ended is Some <==> p->FileBrowser_browser.sftp.exited)
            &&& p is SshBrowser ==> (s.ended is Some <==> p->SshBrowser_browser.ssh.exited)
            &&& p is Connect ==> s.ended is None
            &&& p is Session && screen is Some ==> s.content->Session_0 == screen::shown_rows(
                screen->0,
                p->terminal.scroll == 0,
                s.inner,
                s.inner.height as int,
            )
        }),
{
}

/// A tab that is zoomed shows the pane with the focus alone, in all of its room.
pub proof fn law_zoomed_tab_shows_one_pane(
    t: TabView,
    now: TabView,
    plan: TabPlanView,
    area: Rect,
    bindings: KeyBindings,
    screens: Seq<(u64, Screen)>,
    time: u64,
)
    requires
        t.zoom,
        t.focus < pane::count(t.root),
        t.is_shown(now, plan, area, bindings, screens, time),
    ensures
        plan.panes.len() == 1,
        plan.panes[0].inner == area,
        plan.panes[0].is_focus,
        plan.panes[0] == leaf::pane_plan(
            leaves::leaves(t.root)[t.focus as int],
            area,
            1,
            true,
            bindings,
            page::screen_for(screens, leaves::leaves(t.root)[t.focus as int]),
            time,
        ),
{
    leaves::law_leaf_is_found(t.root, t.focus as int);
}

/// Where panes lie on top of each other, the title of the lower one is joined to the
/// lines at its two sides, and no other cell is changed.
pub proof fn law_titles_are_joined_at_their_sides(c: CanvasView, a: Rect, i: int)
    requires
        c.area.width > 0,
        0 <= i < c.cells.len(),
    ensures
        ({
            let d = tree::sides_joined(c, a);
            &&& d.area == c.area && d.cells.len() == c.cells.len()
            &&& i != c.number(a.x - 1, a.y as int) && i != c.number(a.end_x(), a.y as int)
                ==> d.cells[i] == c.cells[i]
            &&& a.x > 0 && c.area.has(a.x - 1, a.y as int) && i == c.number(a.x - 1, a.y as int)
                && i != c.number(a.end_x(), a.y as int) ==> tree::glyph_of(d.cells[i])
                == tree::left_joint(tree::glyph_of(c.cells[i]))
            &&& a.end_x() < c.area.end_x() && c.area.has(a.end_x(), a.y as int) && i == c.number(
                a.end_x(),
                a.y as int,
            ) && i != c.number(a.x - 1, a.y as int) ==> tree::glyph_of(d.cells[i])
                == tree::right_joint(tree::glyph_of(c.cells[i]))
        }),
{
}

} // verus!
