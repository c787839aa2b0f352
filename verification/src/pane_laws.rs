//! What happens to all panes of a tab, and to those that are opened, divided and
//! closed.
use vstd::prelude::*;
use crate::app;
use crate::app::AppView;
use crate::browser::sftp::SftpView;
use crate::browser::ssh::SshView;
use crate::geometry;
use crate::geometry::{Rect, Split, Track};
use crate::leaves;
use crate::pane;
use crate::pane::PaneView;
use crate::tab::TabView;

verus! {

// ---------------------------------------------------------------------------
// Room
// ---------------------------------------------------------------------------

/// The tab bar has the last row of the screen, and the panes have all the others. The
/// title of a pane has its first row.
pub proof fn law_bar_and_title_have_one_row(area: Rect)
    requires
        area.on_screen(),
        area.height > 0,
    ensures
        ({
            let above = geometry::above_tab_bar(area);
            let below = geometry::below_title(area);
            &&& above.x == area.x && above.width == area.width
            &&& above.y == area.y
            &&& above.y + above.height + 1 == area.y + area.height
            &&& below.x == area.x && below.width == area.width
            &&& below.y == area.y + 1
            &&& below.y + below.height == area.y + area.height
        }),
{
}

/// Panes side by side have a column between each two of them, and panes on top of each
/// other have nothing between them. The shares are those of the panes, in their order.
pub proof fn law_shares_are_in_order(ratios: Seq<u16>, i: int)
    requires
        0 <= i < ratios.len(),
    ensures
        ({
            let h = geometry::tracks_of(Split::LeftRight, ratios);
            let v = geometry::tracks_of(Split::TopBottom, ratios);
            &&& h.len() == 2 * ratios.len() - 1
            &&& h[2 * i] == Track::Fill(ratios[i])
            &&& i > 0 ==> h[2 * i - 1] == Track::Length(1)
            &&& v.len() == ratios.len()
            &&& v[i] == Track::Fill(ratios[i])
        }),
{
}

/// A session has the room of its pane: all of it, less the row of the title where there
/// are several panes. Its process goes on as it was.
pub proof fn law_session_fills_its_pane(p: PaneView, q: PaneView, area: Rect, several: bool)
    requires
        p is Session,
        pane::is_resized(p, q, area, several),
        area.height > 0,
    ensures
        q is Session,
        q->terminal.cols == area.width,
        several ==> q->terminal.rows == area.height - 1,
        !several ==> q->terminal.rows == area.height,
        q->terminal.id == p->terminal.id,
        q->terminal.outbox == p->terminal.outbox,
        q->ssh_args == p->ssh_args,
        pane::leaf_resized(p, area)->terminal.cols == area.width,
        pane::leaf_resized(p, area)->terminal.rows == area.height,
{
}

/// Whether a leaf is the same but for the size of its session.
pub open spec fn same_but_size(a: PaneView, b: PaneView) -> bool {
    match a {
        PaneView::Session { terminal, ssh_args, exit_selection } => {
            &&& b is Session
            &&& b->ssh_args == ssh_args
            &&& b->exit_selection == exit_selection
            &&& b->terminal == terminal.resized(b->terminal.rows, b->terminal.cols)
        },
        _ => b == a,
    }
}

/// A change of the size of the screen keeps every pane, in its order, and changes
/// nothing but the sizes of the sessions.
pub proof fn law_resizing_keeps_the_panes(p: PaneView, q: PaneView, area: Rect, several: bool)
    requires
        pane::is_resized(p, q, area, several),
    ensures
        leaves::leaves(q).len() == leaves::leaves(p).len(),
        forall|i: int|
            0 <= i < leaves::leaves(p).len() ==> same_but_size(
                #[trigger] leaves::leaves(p)[i],
                leaves::leaves(q)[i],
            ),
    decreases p, 1nat, 0int,
{
    match p {
        PaneView::Split { kind, children, ratios } => {
            let areas = choose|areas: Seq<Rect>| #[trigger]
                geometry::is_split(area, kind, ratios, areas) && pane::are_resized(
                    children,
                    q->children,
                    areas,
                );
            lemma_resized(children, q->children, areas, children.len() as int);
        },
        _ => {
            assert(leaves::leaves(p) =~= seq![p]);
            assert(leaves::leaves(q) =~= seq![q]);
        },
    }
}

proof fn lemma_resized(s: Seq<PaneView>, t: Seq<PaneView>, areas: Seq<Rect>, n: int)
    requires
        pane::are_resized(s, t, areas),
        0 <= n <= s.len(),
    ensures
        leaves::leaves_before(t, n).len() == leaves::leaves_before(s, n).len(),
        forall|i: int|
            0 <= i < leaves::leaves_before(s, n).len() ==> same_but_size(
                #[trigger] leaves::leaves_before(s, n)[i],
                leaves::leaves_before(t, n)[i],
            ),
    decreases s, 0nat, n,
{
    if n > 0 {
        lemma_resized(s, t, areas, n - 1);
        let a = s[n - 1];
        let b = t[n - 1];
        if n - 1 < areas.len() {
            assert(pane::is_resized(a, b, areas[n - 1], true));
            law_resizing_keeps_the_panes(a, b, areas[n - 1], true);
        } else {
            assert(b == a);
            assert forall|i: int| 0 <= i < leaves::leaves(a).len() implies same_but_size(
                #[trigger] leaves::leaves(a)[i],
                leaves::leaves(b)[i],
            ) by {
                lemma_same(leaves::leaves(a)[i]);
            }
        }
        let before = leaves::leaves_before(s, n - 1);
        assert forall|i: int| 0 <= i < leaves::leaves_before(s, n).len() implies same_but_size(
            #[trigger] leaves::leaves_before(s, n)[i],
            leaves::leaves_before(t, n)[i],
        ) by {
            if i < before.len() {
                assert(leaves::leaves_before(s, n)[i] == before[i]);
            } else {
                assert(leaves::leaves_before(s, n)[i] == leaves::leaves(a)[i - before.len()]);
            }
        }
    }
}

proof fn lemma_same(a: PaneView)
    ensures
        same_but_size(a, a),
{
}

// ---------------------------------------------------------------------------
// Dividing and closing
// ---------------------------------------------------------------------------

/// Dividing the pane with the focus puts a pane for choosing a host right behind it,
/// which gets the focus. All other panes stay, in their order.
pub proof fn law_new_pane_gets_the_focus(t: TabView, u: TabView, kind: Split, area: Rect)
    requires
        t.is_split_into(u, kind, area),
        t.root is Split ==> t.focus < pane::count(t.root),
        !(t.root is Split) ==> t.focus == 0,
        t.focus < usize::MAX,
    ensures
        ({
            let a = leaves::leaves(t.root);
            let b = leaves::leaves(u.root);
            &&& u.focus == t.focus + 1
            &&& b.len() == a.len() + 1
            &&& b[u.focus as int] is Connect
            &&& forall|i: int|
                0 <= i <= t.focus && i < a.len() ==> same_but_size(#[trigger] a[i], b[i])
            &&& forall|i: int|
                t.focus < i < a.len() ==> same_but_size(#[trigger] a[i], b[i + 1])
            &&& u.name == t.name
        }),
{
    let r = t.split_root(kind);
    let a = leaves::leaves(t.root);
    let c = leaves::leaves(r);
    law_resizing_keeps_the_panes(r, u.root, area, true);
    let added = PaneView::Connect(crate::connect::ConnectPaneView::opened());
    if t.root is Split {
        leaves::law_split_adds_leaf(t.root, t.focus as int, kind);
        leaves::law_leaf_is_found(t.root, t.focus as int);
    } else {
        assert(leaves::leaves(t.root) =~= seq![t.root]);
        leaves::lemma_halved(t.root, kind);
        assert(c =~= a.insert(1, added));
    }
    assert(c == a.insert(t.focus + 1, added));
    let b = leaves::leaves(u.root);
    assert(c[t.focus + 1] == added);
    assert(same_but_size(c[t.focus + 1], b[t.focus + 1]));
    assert forall|i: int| 0 <= i <= t.focus && i < a.len() implies same_but_size(
        #[trigger] a[i],
        b[i],
    ) by {
        assert(c[i] == a[i]);
    }
    assert forall|i: int| t.focus < i < a.len() implies same_but_size(#[trigger] a[i], b[i + 1]) by {
        assert(c[i + 1] == a[i]);
    }
}

/// Closing the pane with the focus takes it away and no other. The one behind it has
/// the focus then, or the last.
pub proof fn law_closing_takes_the_focused_pane(t: TabView)
    requires
        t.root is Split,
        1 < pane::count(t.root) <= usize::MAX,
        t.focus < pane::count(t.root),
    ensures
        ({
            let a = leaves::leaves(t.root);
            let u = t.without_pane();
            &&& leaves::leaves(u.root) == a.remove(t.focus as int)
            &&& t.focus + 1 < a.len() ==> leaves::leaves(u.root)[u.focus as int] == a[t.focus + 1]
            &&& t.focus + 1 == a.len() ==> leaves::leaves(u.root)[u.focus as int] == a[t.focus - 1]
            &&& !u.zoom
            &&& u.name == t.name
        }),
{
    leaves::law_remove_drops_leaf(t.root, t.focus as int);
    leaves::law_leaf_is_found(t.root, t.focus as int);
    leaves::law_leaf_is_found(t.without_pane().root, 0);
}

// ---------------------------------------------------------------------------
// Time and changes
// ---------------------------------------------------------------------------

/// Every browser in a tab gets the time, and no other pane is touched.
pub proof fn law_time_reaches_every_browser(p: PaneView, now: u64)
    ensures
        ({
            let a = leaves::leaves(p);
            let b = leaves::leaves(pane::ticked(p, now));
            &&& b.len() == a.len()
            &&& forall|i: int|
                0 <= i < a.len() ==> match #[trigger] a[i] {
                    PaneView::FileBrowser { browser } => b[i] == (PaneView::FileBrowser {
                        browser: browser.ticked(now),
                    }),
                    PaneView::SshBrowser { browser } => b[i] == (PaneView::SshBrowser {
                        browser: browser.ticked(now),
                    }),
                    _ => b[i] == a[i],
                }
        }),
{
    lemma_ticked(p, now);
    leaves::lemma_no_split_among_leaves(p);
    let a = leaves::leaves(p);
    assert forall|i: int| 0 <= i < a.len() implies match #[trigger] a[i] {
        PaneView::FileBrowser { browser } => leaves::leaves(pane::ticked(p, now))[i] == (
        PaneView::FileBrowser { browser: browser.ticked(now) }),
        PaneView::SshBrowser { browser } => leaves::leaves(pane::ticked(p, now))[i] == (
        PaneView::SshBrowser { browser: browser.ticked(now) }),
        _ => leaves::leaves(pane::ticked(p, now))[i] == a[i],
    } by {
        assert(leaves::leaves(pane::ticked(p, now))[i] == pane::leaf_ticked(a[i], now));
    }
}

proof fn lemma_ticked(p: PaneView, now: u64)
    ensures
        leaves::leaves(pane::ticked(p, now)) == leaves::leaves(p).map_values(
            |l: PaneView| pane::leaf_ticked(l, now),
        ),
    decreases p, 1nat, 0int,
{
    let f = |l: PaneView| pane::leaf_ticked(l, now);
    match p {
        PaneView::Split { children, .. } => {
            let c = pane::ticked(p, now)->children;
            assert forall|i: int| 0 <= i < children.len() implies #[trigger] c[i] == pane::ticked(
                children[i],
                now,
            ) by {}
            lemma_ticked_before(children, c, now, children.len() as int);
        },
        _ => {
            assert(leaves::leaves(p) =~= seq![p]);
            let q = pane::leaf_ticked(p, now);
            assert(leaves::leaves(q) =~= seq![q]);
            assert(seq![p].map_values(f) =~= seq![q]);
        },
    }
}

proof fn lemma_ticked_before(s: Seq<PaneView>, t: Seq<PaneView>, now: u64, n: int)
    requires
        t.len() == s.len(),
        forall|i: int| 0 <= i < s.len() ==> #[trigger] t[i] == pane::ticked(s[i], now),
        0 <= n <= s.len(),
    ensures
        leaves::leaves_before(t, n) == leaves::leaves_before(s, n).map_values(
            |l: PaneView| pane::leaf_ticked(l, now),
        ),
    decreases s, 0nat, n,
{
    let f = |l: PaneView| pane::leaf_ticked(l, now);
    if n > 0 {
        lemma_ticked_before(s, t, now, n - 1);
        lemma_ticked(s[n - 1], now);
        assert(t[n - 1] == pane::ticked(s[n - 1], now));
        assert(leaves::leaves_before(t, n) =~= leaves::leaves_before(s, n).map_values(f));
    } else {
        assert(leaves::leaves_before(s, n).map_values(f) =~= leaves::leaves_before(t, n));
    }
}

/// Whether there is something new in a leaf.
pub open spec fn has_news(l: PaneView) -> bool {
    match l {
        PaneView::Session { terminal, .. } => terminal.dirty,
        PaneView::FileBrowser { browser } => browser.sftp.dirty || browser.core.needs_redraw,
        PaneView::SshBrowser { browser } => browser.ssh.dirty || browser.core.needs_redraw || (
        browser.scp is Some && browser.scp->0.dirty),
        _ => false,
    }
}

/// A tab is drawn again exactly where there is something new in one of its panes.
pub proof fn law_news_anywhere_is_noticed(p: PaneView)
    ensures
        pane::changed(p) <==> exists|i: int|
            0 <= i < leaves::leaves(p).len() && has_news(#[trigger] leaves::leaves(p)[i]),
    decreases p, 1nat, 0int,
{
    match p {
        PaneView::Split { children, .. } => {
            lemma_news_before(children, children.len() as int);
            lemma_first_changed(children, 0);
            let all = leaves::leaves(p);
            assert(all == leaves::leaves_before(children, children.len() as int));
        },
        _ => {
            assert(leaves::leaves(p) =~= seq![p]);
            assert(leaves::leaves(p)[0] == p);
        },
    }
}

proof fn lemma_first_changed(s: Seq<PaneView>, i: int)
    requires
        0 <= i <= s.len(),
    ensures
        pane::first_changed(s, i) < s.len() <==> exists|k: int|
            i <= k < s.len() && pane::changed(#[trigger] s[k]),
    decreases s.len() - i,
{
    if i < s.len() {
        lemma_first_changed(s, i + 1);
        if pane::changed(s[i]) {
            assert(pane::first_changed(s, i) == i);
        }
    }
}

proof fn lemma_news_before(s: Seq<PaneView>, n: int)
    requires
        0 <= n <= s.len(),
    ensures
        (exists|k: int| 0 <= k < n && pane::changed(#[trigger] s[k])) <==> exists|i: int|
            0 <= i < leaves::leaves_before(s, n).len() && has_news(
                #[trigger] leaves::leaves_before(s, n)[i],
            ),
    decreases s, 0nat, n,
{
    if n > 0 {
        lemma_news_before(s, n - 1);
        law_news_anywhere_is_noticed(s[n - 1]);
        let before = leaves::leaves_before(s, n - 1);
        let last = leaves::leaves(s[n - 1]);
        let all = leaves::leaves_before(s, n);
        assert(all == before + last);
        if exists|k: int| 0 <= k < n && pane::changed(#[trigger] s[k]) {
            let k = choose|k: int| 0 <= k < n && pane::changed(#[trigger] s[k]);
            if k == n - 1 {
                let i = choose|i: int| 0 <= i < last.len() && has_news(#[trigger] last[i]);
                assert(all[before.len() + i] == last[i]);
            } else {
                let i = choose|i: int| 0 <= i < before.len() && has_news(#[trigger] before[i]);
                assert(all[i] == before[i]);
            }
        }
        if exists|i: int| 0 <= i < all.len() && has_news(#[trigger] all[i]) {
            let i = choose|i: int| 0 <= i < all.len() && has_news(#[trigger] all[i]);
            if i < before.len() {
                assert(before[i] == all[i]);
            } else {
                assert(last[i - before.len()] == all[i]);
                assert(pane::changed(s[n - 1]));
            }
        }
    }
}

// ---------------------------------------------------------------------------
// Opening
// ---------------------------------------------------------------------------

/// A browser that is opened is for its host, begins in the given local directory, is
/// being connected and has sent nothing. No password is known to it.
pub proof fn law_opened_browser_is_being_connected(host: Seq<char>, start: Seq<char>, id: u64)
    ensures
        ({
            let p = app::new_sftp(host, start, id);
            let q = app::new_scp(host, start, id);
            let s: SftpView = p->FileBrowser_browser;
            let t: SshView = q->SshBrowser_browser;
            &&& p is FileBrowser && q is SshBrowser
            &&& s.core.host == host && t.core.host == host
            &&& s.core.local.path == start && t.core.local.path == start
            &&& s.core.reload_local && t.core.reload_local
            &&& s.state is Connecting && t.state is Connecting
            &&& s.sftp.id == id && t.ssh.id == id
            &&& s.sftp.outbox.len() == 0 && t.ssh.outbox.len() == 0
            &&& t.saved is None && !t.asking && t.scp is None && t.request is None
            &&& s.core.transfer.pending.len() == 0 && s.core.delete.confirm is None
        }),
{
}

/// The application is drawn again exactly where there is something new in one of its
/// tabs, and the first such tab is the one that is looked at.
pub proof fn law_news_in_any_tab_is_noticed(tabs: Seq<TabView>, i: int)
    requires
        0 <= i <= tabs.len(),
    ensures
        app::first_changed_tab(tabs, i) < tabs.len() <==> exists|k: int|
            i <= k < tabs.len() && pane::changed((#[trigger] tabs[k]).root),
        i <= app::first_changed_tab(tabs, i) <= tabs.len(),
        app::first_changed_tab(tabs, i) < tabs.len() ==> pane::changed(
            tabs[app::first_changed_tab(tabs, i)].root,
        ),
        forall|k: int|
            i <= k < app::first_changed_tab(tabs, i) ==> !pane::changed((#[trigger] tabs[k]).root),
    decreases tabs.len() - i,
{
    if i < tabs.len() {
        law_news_in_any_tab_is_noticed(tabs, i + 1);
    }
}

/// To look at a pane takes its news away and changes nothing else.
pub proof fn law_looking_takes_the_news_away(p: PaneView)
    requires
        !(p is Split),
    ensures
        !has_news(pane::looked_at(p)),
        p is Session ==> pane::looked_at(p)->terminal.outbox == p->terminal.outbox
            && pane::looked_at(p)->ssh_args == p->ssh_args,
        p is FileBrowser ==> pane::looked_at(p)->FileBrowser_browser.sftp.raw
            == p->FileBrowser_browser.sftp.raw && pane::looked_at(p)->FileBrowser_browser.state
            == p->FileBrowser_browser.state && pane::looked_at(
            p,
        )->FileBrowser_browser.core.status_msg == p->FileBrowser_browser.core.status_msg,
        p is SshBrowser ==> pane::looked_at(p)->SshBrowser_browser.ssh.raw
            == p->SshBrowser_browser.ssh.raw && pane::looked_at(p)->SshBrowser_browser.state
            == p->SshBrowser_browser.state && pane::looked_at(p)->SshBrowser_browser.saved
            == p->SshBrowser_browser.saved,
        p is Connect ==> pane::looked_at(p) == p,
{
}

/// To close closes the pane with the focus where its tab has others, and else the tab.
/// The other tabs keep their panes.
pub proof fn law_closing_closes_pane_or_tab(a: AppView, b: AppView, full: Rect)
    requires
        a.valid(),
        a.is_closed_to(b, full),
        a.tab().focus < pane::count(a.tab().root) <= usize::MAX,
    ensures
        pane::count(a.tab().root) > 1 ==> {
            &&& b.tabs.len() == a.tabs.len()
            &&& b.selected == a.selected
            &&& leaves::leaves(b.tab().root).len() == leaves::leaves(a.tab().root).len() - 1
            &&& forall|i: int|
                0 <= i < leaves::leaves(b.tab().root).len() ==> same_but_size(
                    #[trigger] leaves::leaves(a.tab().root).remove(a.tab().focus as int)[i],
                    leaves::leaves(b.tab().root)[i],
                )
        },
        pane::count(a.tab().root) == 1 ==> b.tabs == a.without_tab().tabs && b.selected
            == a.without_tab().selected,
        b.drag is None,
{
    let t = a.tab();
    if pane::count(t.root) > 1 {
        law_closing_takes_the_focused_pane(t);
        leaves::law_leaf_is_found(t.root, 0);
        let k = a.selected as int;
        let c = AppView { drag: None, ..a.with_tab(t.without_pane()) };
        assert(c.tabs[k].is_resized_to(b.tabs[k], geometry::above_tab_bar(full)));
        let u = t.without_pane();
        law_resizing_keeps_the_panes(
            u.root,
            b.tab().root,
            geometry::above_tab_bar(full),
            pane::count(u.root) > 1,
        );
    }
}

} // verus!
