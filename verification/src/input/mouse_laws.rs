//! What the mouse does, and what a program in a session is told of it.
use vstd::prelude::*;
use crate::app::{AppView, ContextMenu, ResizeView, CONTEXT_MENU_ITEMS};
use crate::event::{KeyCode, MouseButton, MouseEventKind};
use crate::geometry;
use crate::geometry::{Rect, Split};
use crate::input::mouse;
use crate::input::session;
use crate::input::Action;
use crate::pane;
use crate::pane::PaneView;
use crate::tab::TabView;
use crate::terminal::TermView;
use crate::text;

verus! {

// ---------------------------------------------------------------------------
// Reports
// ---------------------------------------------------------------------------

/// The number of what the mouse did, as terminals count: the button, 32 more where
/// it moves, and from 64 on the wheel. Nothing where programs are not told.
pub open spec fn event_number(kind: MouseEventKind, wants_motion: bool) -> Option<nat> {
    let held = match kind {
        MouseEventKind::Down(b) => Some(b),
        MouseEventKind::Up(b) => Some(b),
        MouseEventKind::Drag(b) => Some(b),
        _ => None,
    };
    let moves = if kind is Drag {
        32nat
    } else {
        0
    };
    match held {
        Some(MouseButton::Left) => Some(moves),
        Some(MouseButton::Middle) => Some(moves + 1),
        Some(MouseButton::Right) => None,
        None => match kind {
            MouseEventKind::ScrollUp => Some(64),
            MouseEventKind::ScrollDown => Some(65),
            MouseEventKind::Moved => if wants_motion {
                Some(32 + 3)
            } else {
                None
            },
            _ => None,
        },
    }
}

/// Whether a text is a report of three numbers: an escape, a bracket and a less-than
/// sign, the numbers with semicolons between them, and a letter that is small where
/// a button was released.
pub open spec fn is_report(s: Seq<char>, n: nat, x: nat, y: nat, released: bool) -> bool {
    let numbers = text::parts_of(s.subrange(3, s.len() - 1), ';');
    &&& s.len() > 4
    &&& s[0] == '\x1b' && s[1] == '[' && s[2] == '<'
    &&& s.last() == (if released {
        'm'
    } else {
        'M'
    })
    &&& numbers.len() == 3
    &&& text::number_of(numbers[0], n) == Some(n)
    &&& text::number_of(numbers[1], x) == Some(x)
    &&& text::number_of(numbers[2], y) == Some(y)
}

proof fn lemma_parts(a: Seq<char>, b: Seq<char>, c: char)
    requires
        !a.contains(c),
    ensures
        text::parts_of(a.push(c) + b, c) == seq![a] + text::parts_of(b, c),
        text::parts_of(a, c) == seq![a],
{
    let s = a.push(c) + b;
    text::lemma_find_from(s, c, 0);
    let i = text::find_from(s, c, 0);
    assert(s[a.len() as int] == c);
    if i < a.len() {
        assert(s[i] == a[i]);
        assert(a.contains(a[i]));
    }
    assert(i == a.len());
    assert(s.take(i) =~= a);
    assert(s.skip(i + 1) =~= b);
    text::lemma_find_from(a, c, 0);
    let k = text::find_from(a, c, 0);
    if k < a.len() {
        assert(a.contains(a[k]));
    }
}

proof fn lemma_no_semicolon(n: nat)
    ensures
        !text::decimal(n).contains(';'),
        text::number_of(text::decimal(n), n) == Some(n),
        text::decimal(n).len() > 0,
{
    text::lemma_decimal(n);
    text::law_decimal_reads_back(n, n);
    let d = text::decimal(n);
    assert forall|i: int| 0 <= i < d.len() implies d[i] != ';' by {
        assert(text::is_digit(d[i]));
    }
}

proof fn lemma_three_numbers(a: Seq<char>, b: Seq<char>, c: Seq<char>)
    requires
        !a.contains(';'),
        !b.contains(';'),
        !c.contains(';'),
    ensures
        text::parts_of(a.push(';') + (b.push(';') + c), ';') == seq![a, b, c],
{
    lemma_parts(a, b.push(';') + c, ';');
    lemma_parts(b, c, ';');
    lemma_parts(c, c, ';');
    assert(seq![a] + (seq![b] + seq![c]) =~= seq![a, b, c]);
}

proof fn lemma_report(s: Seq<char>, n: nat, x: nat, y: nat, released: bool)
    requires
        s == "\x1b[<"@ + text::decimal(n) + ";"@ + text::decimal(x) + (";"@ + text::decimal(y)
            + if released {
            "m"@
        } else {
            "M"@
        }),
    ensures
        is_report(s, n, x, y, released),
{
    reveal_strlit("\x1b[<");
    reveal_strlit(";");
    reveal_strlit("m");
    reveal_strlit("M");
    lemma_no_semicolon(n);
    lemma_no_semicolon(x);
    lemma_no_semicolon(y);
    let (a, b, c) = (text::decimal(n), text::decimal(x), text::decimal(y));
    let mid = a.push(';') + (b.push(';') + c);
    assert(s.len() == 3 + mid.len() + 1);
    assert(s.subrange(3, s.len() - 1) =~= mid);
    lemma_three_numbers(a, b, c);
}

/// A program is told the number of what the mouse did, and the column and row of
/// the cell, counted from one; a release has a letter of its own.
pub proof fn law_mouse_report_says_what_and_where(
    kind: MouseEventKind,
    col: nat,
    row: nat,
    wants_motion: bool,
)
    ensures
        match event_number(kind, wants_motion) {
            Some(n) => {
                let s = mouse::mouse_report(kind, col as int, row as int, wants_motion);
                s is Some && is_report(s->0, n, col + 1, row + 1, kind is Up)
            },
            None => mouse::mouse_report(kind, col as int, row as int, wants_motion) is None,
        },
{
    if let Some(n) = event_number(kind, wants_motion) {
        assert(mouse::button_code(kind, wants_motion) == Some((n as u64, kind is Up)));
        let s = mouse::mouse_report(kind, col as int, row as int, wants_motion)->0;
        lemma_report(s, n, col + 1, row + 1, kind is Up);
    }
}

/// The wheel over a program with the whole screen that wants no mouse events sends
/// what the arrow key in that direction would.
pub proof fn law_wheel_stands_for_arrow_keys(app_cursor: bool)
    ensures
        session::key_sent(KeyCode::Up, false, false, app_cursor) == Some(
            mouse::wheel_key(MouseEventKind::ScrollUp, app_cursor),
        ),
        session::key_sent(KeyCode::Down, false, false, app_cursor) == Some(
            mouse::wheel_key(MouseEventKind::ScrollDown, app_cursor),
        ),
{
}

/// The place of the mouse in a report is that in the pane: counted from the corner
/// of the pane, below its title bar where it has one.
pub proof fn law_report_counts_from_the_pane(
    a: AppView,
    kind: MouseEventKind,
    col: u16,
    row: u16,
    i: usize,
    area: Rect,
    zoom: bool,
)
    requires
        area.on_screen(),
        mouse::wishes_of(pane::leaf_at(a.tab().root, i as int)).active,
        area.x <= col,
        area.y < row,
        area.height > 0,
    ensures
        ({
            let motion = mouse::wishes_of(pane::leaf_at(a.tab().root, i as int)).motion;
            let framed = !zoom && pane::count(a.tab().root) > 1;
            let y = row - area.y - (if framed {
                1int
            } else {
                0
            });
            let n = a.session_moused(kind, col, row, i, area, true, zoom);
            match mouse::mouse_report(kind, col - area.x, y, motion) {
                Some(s) => n == a.sent(s),
                None => n == a,
            }
        }),
        a.session_moused(kind, col, row, i, area, false, zoom) == a,
{
}

/// The wheel over a session that wants no mouse events scrolls it by three lines:
/// back in time upwards, and forward downwards, but not beyond the latest output.
pub proof fn law_wheel_scrolls(t: TermView)
    requires
        t.scroll <= usize::MAX - 3,
    ensures
        t.scrolled(mouse::WHEEL_LINES, true).scroll == t.scroll + 3,
        t.scrolled(mouse::WHEEL_LINES, true).scrolled(mouse::WHEEL_LINES, false) == t,
        t.scroll >= 3 ==> t.scrolled(mouse::WHEEL_LINES, false).scroll == t.scroll - 3,
        t.scroll < 3 ==> t.scrolled(mouse::WHEEL_LINES, false).scroll == 0,
        t.scrolled(mouse::WHEEL_LINES, true).outbox == t.outbox,
{
}

/// Which way the wheel scrolls a session.
pub proof fn law_wheel_scrolls_the_pane_under_it(
    a: AppView,
    col: u16,
    row: u16,
    i: usize,
    area: Rect,
    same: bool,
    zoom: bool,
)
    requires
        pane::leaf_at(a.tab().root, i as int) matches Some(p) && p is Session && !(
        p->terminal.mouse_active && !p->terminal.exited) && !p->terminal.alternate_screen,
    ensures
        ({
            let p = pane::leaf_at(a.tab().root, i as int)->0;
            let up = a.session_moused(MouseEventKind::ScrollUp, col, row, i, area, same, zoom);
            let down = a.session_moused(MouseEventKind::ScrollDown, col, row, i, area, same, zoom);
            &&& up == a.with_pane(
                i,
                PaneView::Session {
                    terminal: p->terminal.scrolled(mouse::WHEEL_LINES, true),
                    ssh_args: p->ssh_args,
                    exit_selection: p->Session_exit_selection,
                },
            )
            &&& down == a.with_pane(
                i,
                PaneView::Session {
                    terminal: p->terminal.scrolled(mouse::WHEEL_LINES, false),
                    ssh_args: p->ssh_args,
                    exit_selection: p->Session_exit_selection,
                },
            )
        }),
{
}

// ---------------------------------------------------------------------------
// Panes
// ---------------------------------------------------------------------------

/// Pressing a button over a pane gives it the focus, and the right button opens the
/// menu there. Without a button the focus stays.
pub proof fn law_pressing_gives_the_focus(
    a: AppView,
    kind: MouseEventKind,
    col: u16,
    row: u16,
    i: usize,
    area: Rect,
    zoom: bool,
    now: u64,
)
    requires
        a.valid(),
    ensures
        ({
            let n = a.pane_moused(kind, col, row, i, area, zoom, now);
            &&& n.selected == a.selected
            &&& n.tabs.len() == a.tabs.len()
            &&& kind is Down ==> n.tab().focus == i
            &&& !(kind is Down) ==> n.tab().focus == a.tab().focus
            &&& kind == MouseEventKind::Down(MouseButton::Right) ==> n.menu == Some(
                ContextMenu { col, row, selected: None },
            )
            &&& kind != MouseEventKind::Down(MouseButton::Right) ==> n.menu == a.menu
        }),
{
}

/// A cell belongs to the first pane whose area holds it.
pub proof fn law_cell_belongs_to_its_pane(areas: Seq<Rect>, col: u16, row: u16, i: int)
    requires
        0 <= i <= areas.len(),
    ensures
        ({
            let k = pane::area_at(areas, col, row, i);
            &&& i <= k <= areas.len()
            &&& k < areas.len() ==> areas[k].x <= col < areas[k].x + areas[k].width && areas[k].y
                <= row < areas[k].y + areas[k].height
            &&& forall|j: int|
                i <= j < k ==> !((#[trigger] areas[j]).x <= col < areas[j].x + areas[j].width
                    && areas[j].y <= row < areas[j].y + areas[j].height)
        }),
    decreases areas.len() - i,
{
    if i < areas.len() && !areas[i].has(col as int, row as int) {
        law_cell_belongs_to_its_pane(areas, col, row, i + 1);
    }
}

// ---------------------------------------------------------------------------
// Separators
// ---------------------------------------------------------------------------

/// A separator that is dragged follows the mouse: the first pane then has the cells
/// that it had, and as many more or less as the mouse has moved, as far as both
/// panes keep three.
pub proof fn law_separator_follows_the_mouse(start: (u16, u16), span: u16, delta: int)
    requires
        span >= 7,
        0 < start.0 + start.1 <= u16::MAX,
    ensures
        ({
            let total = start.0 + start.1;
            let cells = start.0 * span / total + delta;
            let r = mouse::drag_ratios(start, span, delta);
            let kept = if cells < 3 {
                3
            } else if cells > span - 3 {
                span - 3
            } else {
                cells
            };
            &&& r.0 * span <= kept * total || r.0 == 1
            &&& kept * total < (r.0 + 1) * span
        }),
{
    let total = start.0 + start.1;
    let cells = start.0 * span / total + delta;
    let kept = if cells < 3 {
        3
    } else if cells > span - 3 {
        span - 3
    } else {
        cells
    };
    let w = span as int;
    let q = kept * total / w;
    assert(q * w <= kept * total < (q + 1) * w && 0 <= q <= total) by (nonlinear_arith)
        requires
            w >= 7,
            3 <= kept <= w - 3,
            total > 0,
            q == kept * total / w,
    ;
    let r = mouse::drag_ratios(start, span, delta);
    assert(r.0 == geometry::at_least(q, 1));
    if q < 1 {
        assert((q + 1) * w <= (r.0 + 1) * w) by (nonlinear_arith)
            requires
                q + 1 <= r.0 + 1,
                w > 0,
        ;
    }
}

/// Dragging further never gives the first pane less.
pub proof fn law_dragging_further_gives_more(start: (u16, u16), span: u16, d: int, e: int)
    requires
        d <= e,
        2 <= start.0 + start.1 <= u16::MAX,
    ensures
        mouse::drag_ratios(start, span, d).0 <= mouse::drag_ratios(start, span, e).0,
        mouse::drag_ratios(start, span, d).1 >= mouse::drag_ratios(start, span, e).1,
{
    if span >= 7 {
        let total = start.0 + start.1;
        let w = span as int;
        let m = start.0 * span / total;
        let a = geometry::at_most(geometry::at_least(m + d, 3), span - 3);
        let b = geometry::at_most(geometry::at_least(m + e, 3), span - 3);
        assert(a * total / w <= b * total / w && b * total / w < total && 0 <= a * total / w)
            by (nonlinear_arith)
            requires
                3 <= a <= b < w,
                total >= 2,
                w >= 7,
        ;
    }
}

/// While a separator is dragged, the mouse moves it along its direction: to the
/// side for panes side by side, and up and down for stacked ones. Any other event
/// lets it go.
pub proof fn law_drag_moves_the_separator_that_was_taken(
    a: AppView,
    b: AppView,
    d: ResizeView,
    kind: MouseEventKind,
    col: u16,
    row: u16,
    full: Rect,
)
    requires
        a.is_drag_moused(b, d, kind, col, row, full),
        kind == MouseEventKind::Drag(MouseButton::Left),
        pane::node_at(a.tab().root, d.path) matches Some(p) && p is Split && d.sep_idx + 1
            < p->ratios.len(),
    ensures
        ({
            let p = pane::node_at(a.tab().root, d.path)->0;
            let moved = if d.horizontal {
                col - d.start_pos
            } else {
                row - d.start_pos
            };
            let shares = mouse::drag_ratios(d.start_ratios, d.span, moved);
            let root = mouse::with_shares(a.tab().root, d.path, d.sep_idx, shares);
            let q = pane::node_at(root, d.path);
            &&& a.with_tab(TabView { root, ..a.tab() }).is_resized_to(b, full)
            &&& q is Some && q->0 is Split
            &&& q->0->kind == p->kind
            &&& q->0->children == p->children
            &&& q->0->ratios.len() == p->ratios.len()
            &&& q->0->ratios[d.sep_idx as int] == shares.0
            &&& q->0->ratios[d.sep_idx + 1] == shares.1
            &&& forall|i: int|
                0 <= i < p->ratios.len() && i != d.sep_idx && i != d.sep_idx + 1
                    ==> #[trigger] q->0->ratios[i] == p->ratios[i]
        }),
{
    let p = pane::node_at(a.tab().root, d.path)->0;
    let moved = if d.horizontal {
        col - d.start_pos
    } else {
        row - d.start_pos
    };
    let shares = mouse::drag_ratios(d.start_ratios, d.span, moved);
    let i = d.sep_idx as int;
    let q = PaneView::Split {
        kind: p->kind,
        children: p->children,
        ratios: p->ratios.update(i, shares.0).update(i + 1, shares.1),
    };
    lemma_node_put(a.tab().root, d.path, q);
}

proof fn lemma_node_put(p: PaneView, path: Seq<usize>, q: PaneView)
    requires
        pane::node_at(p, path) is Some,
    ensures
        pane::node_at(pane::with_node(p, path, q), path) == Some(q),
    decreases path.len(),
{
    if path.len() > 0 {
        if let PaneView::Split { children, .. } = p {
            let i = path[0] as int;
            lemma_node_put(children[i], path.skip(1), q);
        }
    }
}

// ---------------------------------------------------------------------------
// The context menu
// ---------------------------------------------------------------------------

/// The items of the menu are in its rows, one below the other, from the first row
/// inside its border on; the border and everything outside belong to none.
pub proof fn law_menu_items_are_in_their_rows(menu: ContextMenu, screen: Rect, k: nat, col: u16)
    requires
        screen.on_screen(),
        screen.width >= geometry::MENU_WIDTH,
        screen.height >= geometry::MENU_HEIGHT,
        k < 5,
    ensures
        ({
            let r = geometry::menu_area(menu.col, menu.row, screen);
            let inside = r.x < col < r.x + r.width - 1;
            &&& mouse::menu_item_at(menu, col, (r.y + 1 + k) as u16, screen) == (if inside {
                Some(k as usize)
            } else {
                None
            })
            &&& mouse::menu_item_at(menu, col, r.y, screen) is None
            &&& mouse::menu_item_at(menu, col, (r.y + r.height - 1) as u16, screen) is None
        }),
{
    assert(CONTEXT_MENU_ITEMS@.len() == 5);
}

/// Choosing an item of the menu does what it says.
pub proof fn law_menu_does_what_it_says(a: AppView, b: AppView, action: Action, i: usize, full: Rect)
    requires
        a.valid(),
        a.tabs.len() < usize::MAX,
        i < 5,
        a.is_menu_chosen(b, action, i, full),
    ensures
        (CONTEXT_MENU_ITEMS@[i as int]@ == "Exit"@) == (action == Action::Quit),
        CONTEXT_MENU_ITEMS@[i as int]@ == "New tab"@ ==> b.tabs.len() == a.tabs.len() + 1
            && b.selected == a.tabs.len(),
        CONTEXT_MENU_ITEMS@[i as int]@ == "Close tab"@ ==> a.is_closed_to(b, full),
        CONTEXT_MENU_ITEMS@[i as int]@ == "Split left/right"@ ==> a.is_split_to(
            b,
            Split::LeftRight,
            full,
        ),
        CONTEXT_MENU_ITEMS@[i as int]@ == "Split top/bottom"@ ==> a.is_split_to(
            b,
            Split::TopBottom,
            full,
        ),
{
    reveal_strlit("New tab");
    reveal_strlit("Close tab");
    reveal_strlit("Split left/right");
    reveal_strlit("Split top/bottom");
    reveal_strlit("Exit");
    assert("New tab"@.len() == 7 && "Close tab"@.len() == 9 && "Exit"@.len() == 4);
    assert("Split left/right"@.len() == 16 && "Split top/bottom"@.len() == 16);
    assert("Split left/right"@[6] == 'l' && "Split top/bottom"@[6] == 't');
}

} // verus!
