//! The panes of a tab, as a tree of splits.
use vstd::prelude::*;
use crate::geometry;
use vstd::slice::slice_subrange;
use crate::browser::common::{BrowserCore, CoreView};
use crate::browser::sftp::{FileBrowser, SftpView};
use crate::browser::ssh::{SshBrowser, SshView};
use crate::connect::{ConnectPane, ConnectPaneView};
use crate::geometry::{split_areas, Rect, Split};
use crate::terminal::{EmbeddedTerminal, TermView};

verus! {

/// A pane: a leaf, or an area that is divided among other panes.
#[derive(Debug)]
pub enum Pane {
    Connect(ConnectPane),
    Session {
        terminal: EmbeddedTerminal,
        ssh_args: String,
        /// What is chosen once the session has ended: 0 to reconnect, 1 to close
        /// the pane.
        exit_selection: u8,
    },
    FileBrowser { browser: FileBrowser },
    SshBrowser { browser: SshBrowser },
    Split { kind: Split, children: Vec<Pane>, ratios: Vec<u16> },
}

/// What a pane shows.
#[verifier::ext_equal]
pub enum PaneView {
    Connect(ConnectPaneView),
    Session { terminal: TermView, ssh_args: Seq<char>, exit_selection: u8 },
    FileBrowser { browser: SftpView },
    SshBrowser { browser: SshView },
    Split { kind: Split, children: Seq<PaneView>, ratios: Seq<u16> },
}

/// What a pane shows, with the panes inside it.
pub open spec fn pane_model(p: Pane) -> PaneView
    decreases p,
{
    match p {
        Pane::Connect(c) => PaneView::Connect(c@),
        Pane::Session { terminal, ssh_args, exit_selection } => PaneView::Session {
            terminal: terminal@,
            ssh_args: ssh_args@,
            exit_selection,
        },
        Pane::FileBrowser { browser } => PaneView::FileBrowser { browser: browser@ },
        Pane::SshBrowser { browser } => PaneView::SshBrowser { browser: browser@ },
        Pane::Split { kind, children, ratios } => PaneView::Split {
            kind,
            children: panes_model(children@),
            ratios: ratios@,
        },
    }
}

/// What the panes of a list show.
pub open spec fn panes_model(s: Seq<Pane>) -> Seq<PaneView>
    decreases s,
{
    Seq::new(
        s.len(),
        |i: int|
            if 0 <= i < s.len() {
                pane_model(s[i])
            } else {
                arbitrary()
            },
    )
}

impl View for Pane {
    type V = PaneView;

    open spec fn view(&self) -> PaneView {
        pane_model(*self)
    }
}

/// The number of leaves of a tree.
pub open spec fn count(p: PaneView) -> nat
    decreases p, 0nat,
{
    match p {
        PaneView::Split { children, .. } => count_before(children, children.len() as int),
        _ => 1,
    }
}

/// The number of leaves of the first `n` trees of a list.
pub open spec fn count_before(s: Seq<PaneView>, n: int) -> nat
    decreases s, n,
{
    if 0 < n <= s.len() {
        count_before(s, n - 1) + count(s[n - 1])
    } else {
        0
    }
}

/// The first tree of a list, from the one at `i` on, that holds the leaf
/// numbered `n` of the list; the length of the list where there is none.
pub open spec fn holder_from(s: Seq<PaneView>, n: int, i: int) -> int
    decreases s.len() - i,
{
    if i >= s.len() {
        s.len() as int
    } else if n < count_before(s, i + 1) {
        i
    } else {
        holder_from(s, n, i + 1)
    }
}

/// The tree of a list that holds the leaf numbered `n` of the list.
pub open spec fn holder(s: Seq<PaneView>, n: int) -> int {
    holder_from(s, n, 0)
}

/// The leaf numbered `n`, counted from the left.
pub open spec fn leaf_at(p: PaneView, n: int) -> Option<PaneView>
    decreases p,
{
    match p {
        PaneView::Split { children, .. } => {
            let i = holder(children, n);
            if 0 <= i < children.len() {
                leaf_at(children[i], n - count_before(children, i))
            } else {
                None
            }
        },
        _ => if n == 0 {
            Some(p)
        } else {
            None
        },
    }
}

/// The tree with `q` in the place of the leaf numbered `n`.
pub open spec fn with_leaf(p: PaneView, n: int, q: PaneView) -> PaneView
    decreases p,
{
    match p {
        PaneView::Split { kind, children, ratios } => {
            let i = holder(children, n);
            if 0 <= i < children.len() {
                PaneView::Split {
                    kind,
                    children: children.update(
                        i,
                        with_leaf(children[i], n - count_before(children, i), q),
                    ),
                    ratios,
                }
            } else {
                p
            }
        },
        _ => if n == 0 {
            q
        } else {
            p
        },
    }
}

/// A pane that is divided in two equal parts: the pane as it was, and a new one
/// for choosing a host.
pub open spec fn halved(p: PaneView, kind: Split) -> PaneView {
    PaneView::Split {
        kind,
        children: seq![p, PaneView::Connect(ConnectPaneView::opened())],
        ratios: seq![100u16, 100u16],
    }
}

/// The tree in which the leaf numbered `n` is divided. A tree that is a leaf
/// itself stays as it is.
pub open spec fn with_split(p: PaneView, n: int, kind: Split) -> PaneView
    decreases p,
{
    match p {
        PaneView::Split { kind: outer, children, ratios } => {
            let i = holder(children, n);
            if 0 <= i < children.len() {
                PaneView::Split {
                    kind: outer,
                    children: children.update(
                        i,
                        if count(children[i]) == 1 {
                            halved(children[i], kind)
                        } else {
                            with_split(children[i], n - count_before(children, i), kind)
                        },
                    ),
                    ratios,
                }
            } else {
                p
            }
        },
        _ => p,
    }
}

/// The tree without a split that holds only one pane.
pub open spec fn collapsed(p: PaneView) -> PaneView {
    match p {
        PaneView::Split { children, .. } => if children.len() == 1 {
            children[0]
        } else {
            p
        },
        _ => p,
    }
}

/// The tree without the leaf numbered `n`. A tree that is a leaf itself stays
/// as it is.
pub open spec fn without_leaf(p: PaneView, n: int) -> PaneView
    decreases p,
{
    match p {
        PaneView::Split { kind, children, ratios } => {
            let i = holder(children, n);
            collapsed(
                if 0 <= i < children.len() {
                    if count(children[i]) == 1 {
                        PaneView::Split {
                            kind,
                            children: children.remove(i),
                            ratios: if i < ratios.len() {
                                ratios.remove(i)
                            } else {
                                ratios
                            },
                        }
                    } else {
                        PaneView::Split {
                            kind,
                            children: children.update(
                                i,
                                without_leaf(children[i], n - count_before(children, i)),
                            ),
                            ratios,
                        }
                    }
                } else {
                    p
                },
            )
        },
        _ => p,
    }
}

/// Whether each split of a tree has one share for each of its panes.
pub open spec fn shared_out(p: PaneView) -> bool
    decreases p,
{
    match p {
        PaneView::Split { children, ratios, .. } => {
            &&& ratios.len() == children.len()
            &&& forall|i: int| 0 <= i < children.len() ==> shared_out(#[trigger] children[i])
        },
        _ => true,
    }
}

/// Whether something has changed in a tree since the last look.
pub open spec fn changed(p: PaneView) -> bool
    decreases p, 0nat,
{
    match p {
        PaneView::Connect(_) => false,
        PaneView::Session { terminal, .. } => terminal.dirty,
        PaneView::FileBrowser { browser } => browser.sftp.dirty || browser.core.needs_redraw,
        PaneView::SshBrowser { browser } => browser.ssh.dirty || (match browser.scp {
            Some(c) => c.dirty,
            None => false,
        }) || browser.core.needs_redraw,
        PaneView::Split { children, .. } => first_changed(children, 0) < children.len(),
    }
}

/// The first tree of a list, from the one at `i` on, in which something has
/// changed; the length of the list where there is none.
pub open spec fn first_changed(s: Seq<PaneView>, i: int) -> int
    decreases s, s.len() - i,
{
    if 0 <= i < s.len() {
        if changed(s[i]) {
            i
        } else {
            first_changed(s, i + 1)
        }
    } else {
        s.len() as int
    }
}

/// The tree after a look for changes. The look ends with the first pane in
/// which something has changed.
pub open spec fn looked_at(p: PaneView) -> PaneView
    decreases p,
{
    match p {
        PaneView::Connect(_) => p,
        PaneView::Session { terminal, ssh_args, exit_selection } => PaneView::Session {
            terminal: TermView { dirty: false, ..terminal },
            ssh_args,
            exit_selection,
        },
        PaneView::FileBrowser { browser } => PaneView::FileBrowser {
            browser: SftpView {
                core: CoreView { needs_redraw: false, ..browser.core },
                sftp: browser.sftp.looked_at(),
                ..browser
            },
        },
        PaneView::SshBrowser { browser } => PaneView::SshBrowser {
            browser: SshView {
                core: CoreView { needs_redraw: false, ..browser.core },
                ssh: browser.ssh.looked_at(),
                scp: match browser.scp {
                    Some(c) => Some(c.looked_at()),
                    None => None,
                },
                ..browser
            },
        },
        PaneView::Split { kind, children, ratios } => {
            let i = first_changed(children, 0);
            if 0 <= i < children.len() {
                PaneView::Split {
                    kind,
                    children: children.update(i, looked_at(children[i])),
                    ratios,
                }
            } else {
                p
            }
        },
    }
}

/// The leaf after a tick of the browser, where it is one.
pub open spec fn leaf_ticked(p: PaneView, now: u64) -> PaneView {
    match p {
        PaneView::FileBrowser { browser } => PaneView::FileBrowser { browser: browser.ticked(now) },
        PaneView::SshBrowser { browser } => PaneView::SshBrowser { browser: browser.ticked(now) },
        _ => p,
    }
}

/// The tree after a tick of all its browsers.
pub open spec fn ticked(p: PaneView, now: u64) -> PaneView
    decreases p,
{
    match p {
        PaneView::Split { kind, children, ratios } => PaneView::Split {
            kind,
            children: Seq::new(
                children.len(),
                |i: int|
                    if 0 <= i < children.len() {
                        ticked(children[i], now)
                    } else {
                        arbitrary()
                    },
            ),
            ratios,
        },
        _ => leaf_ticked(p, now),
    }
}

/// The leaf after text was sent to the session, where it is one.
pub open spec fn leaf_sent(p: PaneView, s: Seq<char>) -> PaneView {
    match p {
        PaneView::Session { terminal, ssh_args, exit_selection } => PaneView::Session {
            terminal: terminal.sent(s),
            ssh_args,
            exit_selection,
        },
        _ => p,
    }
}

/// The number of rows that a session has in a pane of the given area. Where
/// there are other panes one row is taken by the title.
pub open spec fn session_rows(area: Rect, multi_pane: bool) -> u16 {
    if multi_pane {
        geometry::monus(area.height as int, 1) as u16
    } else {
        area.height
    }
}

/// The leaf after the session was given the size that it has when it fills
/// `area`.
pub open spec fn leaf_resized(p: PaneView, area: Rect) -> PaneView {
    match p {
        PaneView::Session { terminal, ssh_args, exit_selection } => PaneView::Session {
            terminal: terminal.resized(area.height, area.width),
            ssh_args,
            exit_selection,
        },
        _ => p,
    }
}

/// Whether `q` is the tree `p` after its sessions were given the size that
/// they have when the tree is shown in `area`.
pub open spec fn is_resized(p: PaneView, q: PaneView, area: Rect, multi_pane: bool) -> bool
    decreases p,
{
    match (p, q) {
        (PaneView::Session { terminal, ssh_args, exit_selection }, _) => q == (PaneView::Session {
            terminal: terminal.resized(session_rows(area, multi_pane), area.width),
            ssh_args,
            exit_selection,
        }),
        (
            PaneView::Split { kind, children, ratios },
            PaneView::Split { kind: k, children: c, ratios: r },
        ) => {
            &&& k == kind
            &&& r == ratios
            &&& exists|areas: Seq<Rect>| #[trigger]
                geometry::is_split(area, kind, ratios, areas) && are_resized(children, c, areas)
        },
        _ => q == p,
    }
}

/// Whether `now` are the trees `before` after the sessions of each were given
/// the size that they have when the tree is shown in its area. Trees without an
/// area stay as they are.
pub open spec fn are_resized(
    before: Seq<PaneView>,
    now: Seq<PaneView>,
    areas: Seq<Rect>,
) -> bool
    decreases before,
{
    &&& now.len() == before.len()
    &&& forall|i: int|
        0 <= i < before.len() && i < areas.len() ==> is_resized(
            before[i],
            now[i],
            #[trigger] areas[i],
            true,
        )
    &&& forall|i: int| areas.len() <= i < before.len() ==> now[i] == before[i]
}

/// Whether `areas` are the areas of the leaves of a tree that is shown in
/// `area`, from the left.
pub open spec fn is_layout(p: PaneView, area: Rect, areas: Seq<Rect>) -> bool
    decreases p, 0int,
{
    match p {
        PaneView::Split { kind, children, ratios } => exists|parts: Seq<Rect>| #[trigger]
            geometry::is_split(area, kind, ratios, parts) && are_layouts(
                children,
                parts,
                geometry::at_most(children.len() as int, parts.len() as int),
                areas,
            ),
        _ => areas == seq![area],
    }
}

/// Whether `areas` are the areas of the leaves of the first `n` trees of a list,
/// each of which is shown in its part.
pub open spec fn are_layouts(
    s: Seq<PaneView>,
    parts: Seq<Rect>,
    n: int,
    areas: Seq<Rect>,
) -> bool
    decreases s, n,
{
    if 0 < n <= s.len() {
        exists|k: int|
            0 <= k <= areas.len() && are_layouts(s, parts, n - 1, #[trigger] areas.take(k))
                && is_layout(s[n - 1], parts[n - 1], areas.skip(k))
    } else {
        areas.len() == 0
    }
}

/// The separator between two panes of a split that has been clicked: it lies
/// after the pane with the number that is returned. Panes side by side are
/// separated by the column between them, stacked panes by the title bar of the
/// lower one.
pub open spec fn separator_at(
    kind: Split,
    area: Rect,
    areas: Seq<Rect>,
    col: u16,
    row: u16,
    i: int,
) -> Option<int>
    decreases areas.len() - i,
{
    if i + 1 >= areas.len() {
        None
    } else if match kind {
        Split::LeftRight => col == geometry::at_most(areas[i].end_x(), u16::MAX as int) && area.y <= row
            < area.end_y(),
        Split::TopBottom => row == areas[i + 1].y && areas[i + 1].x <= col < areas[i + 1].end_x(),
    } {
        Some(i)
    } else {
        separator_at(kind, area, areas, col, row, i + 1)
    }
}

/// The first of the areas, from the one at `i` on, that holds a cell; their
/// number where none does.
pub open spec fn area_at(areas: Seq<Rect>, col: u16, row: u16, i: int) -> int
    decreases areas.len() - i,
{
    if i >= areas.len() {
        areas.len() as int
    } else if areas[i].has(col as int, row as int) {
        i
    } else {
        area_at(areas, col, row, i + 1)
    }
}

/// A separator that has been clicked.
#[derive(Debug)]
pub struct SeparatorHit {
    /// The way from the root to the split, as numbers of panes.
    pub path: Vec<usize>,
    /// The separator lies between this pane of the split and the next one.
    pub sep_idx: usize,
    /// Whether the separator is moved to the left and right.
    pub horizontal: bool,
    /// The area of the split.
    pub split_area: Rect,
}

/// A separator that has been clicked.
#[verifier::ext_equal]
pub struct HitView {
    pub path: Seq<usize>,
    pub sep_idx: usize,
    pub horizontal: bool,
    pub split_area: Rect,
}

impl View for SeparatorHit {
    type V = HitView;

    open spec fn view(&self) -> HitView {
        HitView {
            path: self.path@,
            sep_idx: self.sep_idx,
            horizontal: self.horizontal,
            split_area: self.split_area,
        }
    }
}

/// Whether `hit` is the innermost separator of a tree, shown in `area`, that lies
/// at `col`, `row`.
pub open spec fn is_hit(p: PaneView, area: Rect, col: u16, row: u16, hit: Option<HitView>) -> bool
    decreases p, 1nat,
{
    match p {
        PaneView::Split { kind, children, ratios } => exists|areas: Seq<Rect>| #[trigger]
            geometry::is_split(area, kind, ratios, areas) && is_hit_in(
                kind,
                children,
                area,
                areas,
                col,
                row,
                hit,
            ),
        _ => hit is None,
    }
}

/// Whether `hit` is the innermost separator of a split, divided into `areas`,
/// that lies at `col`, `row`. The separators inside the pane that holds the cell
/// come before one of the split itself.
pub open spec fn is_hit_in(
    kind: Split,
    children: Seq<PaneView>,
    area: Rect,
    areas: Seq<Rect>,
    col: u16,
    row: u16,
    hit: Option<HitView>,
) -> bool
    decreases children, 0nat,
{
    let i = area_at(areas, col, row, 0);
    let inside = 0 <= i < children.len() && i < areas.len();
    if hit is Some && hit->0.path.len() > 0 {
        inside && hit->0.path[0] == i && is_hit(
            children[i],
            areas[i],
            col,
            row,
            Some(HitView { path: hit->0.path.skip(1), ..hit->0 }),
        )
    } else {
        &&& inside ==> is_hit(children[i], areas[i], col, row, None)
        &&& hit == (match separator_at(kind, area, areas, col, row, 0) {
            Some(k) => Some(
                HitView {
                    path: Seq::empty(),
                    sep_idx: k as usize,
                    horizontal: kind == Split::LeftRight,
                    split_area: area,
                },
            ),
            None => None,
        })
    }
}

/// The node of a tree to which a path leads.
pub open spec fn node_at(p: PaneView, path: Seq<usize>) -> Option<PaneView>
    decreases path.len(),
{
    if path.len() == 0 {
        Some(p)
    } else {
        match p {
            PaneView::Split { children, .. } => if path[0] < children.len() {
                node_at(children[path[0] as int], path.skip(1))
            } else {
                None
            },
            _ => None,
        }
    }
}

/// The tree with `q` in the place of the node to which a path leads.
pub open spec fn with_node(p: PaneView, path: Seq<usize>, q: PaneView) -> PaneView
    decreases path.len(),
{
    if path.len() == 0 {
        q
    } else {
        match p {
            PaneView::Split { kind, children, ratios } => if path[0] < children.len() {
                PaneView::Split {
                    kind,
                    children: children.update(
                        path[0] as int,
                        with_node(children[path[0] as int], path.skip(1), q),
                    ),
                    ratios,
                }
            } else {
                p
            },
            _ => p,
        }
    }
}

proof fn lemma_panes_model(v: Seq<Pane>, i: int, q: Pane)
    requires
        0 <= i < v.len(),
    ensures
        panes_model(v).len() == v.len(),
        panes_model(v)[i] == v[i]@,
        panes_model(v.update(i, q)) == panes_model(v).update(i, q@),
{
    assert(panes_model(v.update(i, q)) =~= panes_model(v).update(i, q@));
}

proof fn lemma_count_grows(s: Seq<PaneView>, i: int, k: int)
    requires
        0 <= i <= k <= s.len(),
    ensures
        count_before(s, i) <= count_before(s, k),
    decreases k - i,
{
    if i < k {
        lemma_count_grows(s, i, k - 1);
    }
}

/// Skips the first `k` trees of a list, none of which holds the leaf.
proof fn lemma_holder(s: Seq<PaneView>, n: int, i: int, k: int)
    requires
        0 <= i <= k <= s.len(),
        n >= count_before(s, k),
    ensures
        holder_from(s, n, i) == holder_from(s, n, k),
    decreases k - i,
{
    if i < k {
        lemma_count_grows(s, i + 1, k);
        lemma_holder(s, n, i + 1, k);
    }
}

/// Finds the tree of a list that holds the leaf numbered `n` of the list, and
/// the number that the leaf has in that tree.
fn find_child(children: &Vec<Pane>, n: usize) -> (r: (usize, usize))
    ensures
        r.0 == holder(panes_model(children@), n as int),
        r.0 <= children@.len(),
        r.1 == n - count_before(panes_model(children@), r.0 as int),
{
    let ghost model = panes_model(children@);
    let mut rest: usize = n;
    let mut i: usize = 0;
    while i < children.len()
        invariant
            model == panes_model(children@),
            i <= children@.len(),
            n == rest + count_before(model, i as int),
        decreases children@.len() - i,
    {
        assert(model[i as int] == children@[i as int]@);
        proof {
            lemma_holder(model, n as int, 0, i as int);
        }
        match children[i].beyond(rest) {
            None => {
                return (i, rest);
            },
            Some(m) => {
                rest = m;
            },
        }
        i += 1;
    }
    proof {
        lemma_holder(model, n as int, 0, model.len() as int);
    }
    (i, rest)
}

/// The pane at `i` of a list, to be changed or replaced.
fn child_mut(children: &mut Vec<Pane>, i: usize) -> (r: &mut Pane)
    requires
        i < old(children)@.len(),
    ensures
        *r == old(children)@[i as int],
        r@ == panes_model(old(children)@)[i as int],
        final(children)@ == old(children)@.update(i as int, *final(r)),
        panes_model(final(children)@) == panes_model(old(children)@).update(i as int, final(r)@),
{
    let ghost before = children@;
    let r = &mut children[i];
    proof {
        lemma_panes_model(before, i as int, *final(r));
    }
    r
}

/// A leaf is found exactly where it is one of the leaves of the list.
proof fn lemma_holder_found(s: Seq<PaneView>, n: int)
    requires
        0 <= n,
    ensures
        holder(s, n) < s.len() <==> n < count_before(s, s.len() as int),
        0 <= holder(s, n) <= s.len(),
{
    lemma_holder_found_from(s, n, 0);
    if n >= count_before(s, s.len() as int) {
        lemma_holder(s, n, 0, s.len() as int);
    }
}

proof fn lemma_holder_found_from(s: Seq<PaneView>, n: int, i: int)
    requires
        0 <= i <= s.len(),
    ensures
        i <= holder_from(s, n, i) <= s.len(),
        holder_from(s, n, i) < s.len() ==> n < count_before(s, holder_from(s, n, i) + 1),
        holder_from(s, n, i) < s.len() ==> n < count_before(s, s.len() as int),
        i < s.len() && n < count_before(s, s.len() as int) ==> holder_from(s, n, i) < s.len(),
    decreases s.len() - i,
{
    if i < s.len() {
        lemma_holder_found_from(s, n, i + 1);
        lemma_count_grows(s, i + 1, s.len() as int);
    }
}

/// Divides a pane in two equal parts.
pub fn halve(p: Pane, kind: Split) -> (r: Pane)
    ensures
        r@ == halved(p@, kind),
{
    let children = vec![p, Pane::new_connect()];
    let ratios: Vec<u16> = vec![100, 100];
    assert(panes_model(children@) =~= seq![
        p@,
        PaneView::Connect(ConnectPaneView::opened()),
    ]);
    assert(ratios@ =~= seq![100u16, 100u16]);
    Pane::Split { kind, children, ratios }
}

fn take_first_dirty(children: &mut Vec<Pane>) -> (r: bool)
    ensures
        0 <= first_changed(panes_model(old(children)@), 0),
        r == (first_changed(panes_model(old(children)@), 0) < old(children)@.len()),
        panes_model(final(children)@) == (if r {
            let model = panes_model(old(children)@);
            let i = first_changed(model, 0);
            model.update(i, looked_at(model[i]))
        } else {
            panes_model(old(children)@)
        }),
    decreases *old(children), 0nat,
{
    let ghost model = panes_model(children@);
    proof {
        lemma_first_changed(model, 0);
    }
    let mut i: usize = 0;
    while i < children.len()
        invariant
            0 <= first_changed(model, 0),
            old(children)@.len() == children@.len(),
            forall|k: int| i <= k < children@.len() ==> children@[k] == old(children)@[k],
            panes_model(children@) == model,
            model == panes_model(old(children)@),
            i <= children@.len(),
            first_changed(model, 0) == first_changed(model, i as int),
        decreases children@.len() - i,
    {
        let child = child_mut(children, i);
        let dirty = child.take_dirty();
        if dirty {
            return true;
        }
        proof {
            lemma_unchanged(model[i as int]);
            assert(model.update(i as int, model[i as int]) =~= model);
        }
        i += 1;
    }
    false
}

proof fn lemma_first_changed(s: Seq<PaneView>, i: int)
    requires
        0 <= i <= s.len(),
    ensures
        i <= first_changed(s, i) <= s.len(),
    decreases s.len() - i,
{
    if i < s.len() {
        lemma_first_changed(s, i + 1);
    }
}

proof fn lemma_split_layout(
    kind: Split,
    ratios: Seq<u16>,
    children: Seq<PaneView>,
    area: Rect,
    parts: Seq<Rect>,
    areas: Seq<Rect>,
)
    requires
        geometry::is_split(area, kind, ratios, parts),
        are_layouts(
            children,
            parts,
            geometry::at_most(children.len() as int, parts.len() as int),
            areas,
        ),
    ensures
        is_layout(PaneView::Split { kind, children, ratios }, area, areas),
{
    reveal_with_fuel(is_layout, 3);
    reveal_with_fuel(are_layouts, 3);
    let p = PaneView::Split { kind, children, ratios };
    assert(p->children == children && p->ratios == ratios && p->kind == kind);
    assert(geometry::is_split(area, p->kind, p->ratios, parts));
}

proof fn lemma_split_hit(
    kind: Split,
    ratios: Seq<u16>,
    children: Seq<PaneView>,
    area: Rect,
    areas: Seq<Rect>,
    col: u16,
    row: u16,
    hit: Option<HitView>,
)
    requires
        geometry::is_split(area, kind, ratios, areas),
        is_hit_in(kind, children, area, areas, col, row, hit),
    ensures
        is_hit(PaneView::Split { kind, children, ratios }, area, col, row, hit),
{
    let p = PaneView::Split { kind, children, ratios };
    assert(p->children == children && p->ratios == ratios && p->kind == kind);
    assert(geometry::is_split(area, p->kind, p->ratios, areas));
    if !is_hit(p, area, col, row, hit) {
        assert(!exists|a: Seq<Rect>| #[trigger]
            geometry::is_split(area, p->kind, p->ratios, a) && is_hit_in(
                p->kind,
                p->children,
                area,
                a,
                col,
                row,
                hit,
            ));
    }
}

/// A look at a tree in which nothing has changed leaves it as it is.
pub proof fn lemma_unchanged(p: PaneView)
    ensures
        !changed(p) ==> looked_at(p) == p,
{
}

fn tick_panes(children: &mut Vec<Pane>, now: u64)
    ensures
        final(children)@.len() == old(children)@.len(),
        forall|k: int|
            0 <= k < final(children)@.len() ==> #[trigger] panes_model(final(children)@)[k]
                == ticked(panes_model(old(children)@)[k], now),
    decreases *old(children), 0nat,
{
    let ghost model = panes_model(children@);
    let mut i: usize = 0;
    while i < children.len()
        invariant
            old(children)@.len() == children@.len(),
            forall|k: int| i <= k < children@.len() ==> children@[k] == old(children)@[k],
            model == panes_model(old(children)@),
            i <= children@.len(),
            forall|k: int|
                0 <= k < i ==> #[trigger] panes_model(children@)[k] == ticked(model[k], now),
        decreases children@.len() - i,
    {
        let child = child_mut(children, i);
        child.tick_browsers(now);
        i += 1;
    }
}

fn resize_panes(children: &mut Vec<Pane>, areas: &Vec<Rect>)
    ensures
        final(children)@.len() == old(children)@.len(),
        are_resized(panes_model(old(children)@), panes_model(final(children)@), areas@),
    decreases *old(children), 0nat,
{
    let ghost model = panes_model(children@);
    let mut i: usize = 0;
    while i < children.len() && i < areas.len()
        invariant
            old(children)@.len() == children@.len(),
            forall|k: int| i <= k < children@.len() ==> children@[k] == old(children)@[k],
            model == panes_model(old(children)@),
            i <= children@.len(),
            i <= areas@.len(),
            forall|k: int|
                0 <= k < i ==> is_resized(
                    model[k],
                    panes_model(children@)[k],
                    #[trigger] areas@[k],
                    true,
                ),
        decreases children@.len() - i,
    {
        let child = child_mut(children, i);
        child.resize_all(areas[i], true);
        i += 1;
    }
}

impl Pane {
    /// A pane for choosing a host.
    pub fn new_connect() -> (r: Pane)
        ensures
            r@ == PaneView::Connect(ConnectPaneView::opened()),
    {
        Pane::Connect(ConnectPane::new())
    }

    /// Whether the leaf numbered `n` is in this tree: if it is not, the number
    /// that it has after the leaves of the tree is returned.
    pub fn beyond(&self, n: usize) -> (r: Option<usize>)
        ensures
            r == (if n < count(self@) {
                None
            } else {
                Some((n - count(self@)) as usize)
            }),
        decreases self,
    {
        match self {
            Pane::Split { children, .. } => {
                let ghost model = panes_model(children@);
                let mut rest: usize = n;
                let mut i: usize = 0;
                while i < children.len()
                    invariant
                        self matches Pane::Split { children: c, .. } && c == children,
                        model == panes_model(children@),
                        count(self@) == count_before(model, model.len() as int),
                        i <= children@.len(),
                        n == rest + count_before(model, i as int),
                    decreases children@.len() - i,
                {
                    assert(model[i as int] == children@[i as int]@);
                    match children[i].beyond(rest) {
                        None => {
                            proof {
                                lemma_count_grows(model, i + 1, model.len() as int);
                            }
                            return None;
                        },
                        Some(m) => {
                            rest = m;
                        },
                    }
                    i += 1;
                }
                Some(rest)
            },
            _ => if n == 0 {
                None
            } else {
                Some(n - 1)
            },
        }
    }

    /// The number of leaves, as far as it can be numbered.
    pub fn leaf_count(&self) -> (r: usize)
        ensures
            r == geometry::at_most(count(self@) as int, usize::MAX as int),
        decreases self,
    {
        match self {
            Pane::Split { children, .. } => {
                let ghost model = panes_model(children@);
                let mut total: usize = 0;
                let mut i: usize = 0;
                while i < children.len()
                    invariant
                        self matches Pane::Split { children: c, .. } && c == children,
                        model == panes_model(children@),
                        i <= children@.len(),
                        total == geometry::at_most(count_before(model, i as int) as int, usize::MAX as int),
                    decreases children@.len() - i,
                {
                    assert(model[i as int] == children@[i as int]@);
                    total = total.saturating_add(children[i].leaf_count());
                    i += 1;
                }
                total
            },
            _ => 1,
        }
    }

    /// The leaf numbered `n`, counted from the left.
    pub fn leaf(&self, n: usize) -> (r: Option<&Pane>)
        ensures
            (match r {
                Some(p) => Some(p@),
                None => None,
            }) == leaf_at(self@, n as int),
        decreases self,
    {
        match self {
            Pane::Split { children, .. } => {
                let (i, rest) = find_child(children, n);
                if i < children.len() {
                    proof {
                        lemma_panes_model(children@, i as int, children@[i as int]);
                    }
                    children[i].leaf(rest)
                } else {
                    None
                }
            },
            _ => if n == 0 {
                Some(self)
            } else {
                None
            },
        }
    }

    /// The leaf numbered `n`, to be changed or replaced.
    pub fn leaf_mut(&mut self, n: usize) -> (r: Option<&mut Pane>)
        ensures
            r is None ==> leaf_at(old(self)@, n as int) is None && final(self)@ == old(self)@,
            r is Some ==> leaf_at(old(self)@, n as int) == Some(r.unwrap()@) && final(self)@
                == with_leaf(old(self)@, n as int, final(r.unwrap())@),
        decreases *old(self),
    {
        if !matches!(self, Pane::Split { .. }) {
            if n == 0 {
                return Some(self);
            }
            return None;
        }
        match self {
            Pane::Split { children, .. } => {
                let (i, rest) = find_child(children, n);
                if i < children.len() {
                    let ghost model = panes_model(children@);
                    assert(model.update(i as int, model[i as int]) =~= model);
                    child_mut(children, i).leaf_mut(rest)
                } else {
                    None
                }
            },
            _ => None,
        }
    }

    /// Sends text to the session, where this is one.
    pub fn send_str(&mut self, s: &str)
        ensures
            final(self)@ == leaf_sent(old(self)@, s@),
    {
        if let Pane::Session { terminal, .. } = self {
            terminal.send_str(s);
        }
    }

    /// Whether this is a file browser.
    pub fn is_browser(&self) -> (r: bool)
        ensures
            r == (self@ is FileBrowser || self@ is SshBrowser),
    {
        matches!(self, Pane::FileBrowser { .. } | Pane::SshBrowser { .. })
    }

    /// What the two kinds of browsers have in common, where this is a browser.
    pub fn as_browser(&self) -> (r: Option<&BrowserCore>)
        ensures
            match self@ {
                PaneView::FileBrowser { browser } => r is Some && r->0@ == browser.core,
                PaneView::SshBrowser { browser } => r is Some && r->0@ == browser.core,
                _ => r is None,
            },
    {
        match self {
            Pane::FileBrowser { browser } => Some(&browser.core),
            Pane::SshBrowser { browser } => Some(&browser.core),
            _ => None,
        }
    }

    /// Divides the leaf numbered `n`. Returns whether it was found inside a
    /// split.
    pub fn split_leaf(&mut self, n: usize, kind: Split) -> (r: bool)
        ensures
            final(self)@ == with_split(old(self)@, n as int, kind),
            r == (old(self)@ is Split && n < count(old(self)@)),
        decreases *old(self),
    {
        match self {
            Pane::Split { children, .. } => {
                let ghost model = panes_model(children@);
                let (i, rest) = find_child(children, n);
                proof {
                    lemma_holder_found(model, n as int);
                }
                if i < children.len() {
                    let single = children[i].leaf_count() == 1;
                    let child = child_mut(children, i);
                    if single {
                        let mut before = Pane::new_connect();
                        std::mem::swap(child, &mut before);
                        *child = halve(before, kind);
                    } else {
                        child.split_leaf(rest, kind);
                    }
                    true
                } else {
                    false
                }
            },
            _ => false,
        }
    }

    /// Whether something has changed since the last look. The look ends with
    /// the first pane in which something has changed.
    pub fn take_dirty(&mut self) -> (r: bool)
        ensures
            r == changed(old(self)@),
            final(self)@ == looked_at(old(self)@),
        decreases *old(self), 1nat,
    {
        let r = match self {
            Pane::Session { terminal, .. } => terminal.take_dirty(),
            Pane::FileBrowser { browser } => {
                let output = browser.sftp.take_dirty();
                let state = browser.core.needs_redraw;
                browser.core.needs_redraw = false;
                output || state
            },
            Pane::SshBrowser { browser } => {
                let output = browser.ssh.take_dirty();
                let copying = match &mut browser.scp_pty {
                    Some(c) => c.take_dirty(),
                    None => false,
                };
                let state = browser.core.needs_redraw;
                browser.core.needs_redraw = false;
                output || copying || state
            },
            Pane::Split { children, .. } => {
                let ghost model = panes_model(children@);
                assert(old(self)@->children == model);
                take_first_dirty(children)
            },
            Pane::Connect(_) => false,
        };
        assert(!(self@ is Split) ==> self@ =~= looked_at(old(self)@));
        r
    }

    /// Lets all browsers do their work.
    pub fn tick_browsers(&mut self, now: u64)
        ensures
            final(self)@ == ticked(old(self)@, now),
        decreases *old(self), 1nat,
    {
        if let Pane::Split { children, .. } = self {
            let ghost model = panes_model(children@);
            tick_panes(children, now);
            proof {
                let now_model = panes_model(children@);
                assert(old(self)@->children == model);
                assert forall|k: int| 0 <= k < now_model.len() implies now_model[k]
                    == ticked(old(self)@, now)->children[k] by {
                    assert(now_model[k] == ticked(model[k], now));
                }
                assert(now_model =~= ticked(old(self)@, now)->children);
            }
        } else {
            self.tick_leaf(now);
        }
    }

    fn tick_leaf(&mut self, now: u64)
        requires
            !(old(self)@ is Split),
        ensures
            final(self)@ == leaf_ticked(old(self)@, now),
    {
        match self {
            Pane::FileBrowser { browser } => browser.tick(now),
            Pane::SshBrowser { browser } => browser.tick(now),
            _ => {},
        }
    }

    /// Gives all sessions the size that they have in `area`.
    pub fn resize_all(&mut self, area: Rect, multi_pane: bool)
        ensures
            is_resized(old(self)@, final(self)@, area, multi_pane),
        decreases *old(self), 1nat,
    {
        match self {
            Pane::Session { terminal, .. } => {
                let rows: u16 = if multi_pane {
                    area.height.saturating_sub(1)
                } else {
                    area.height
                };
                terminal.resize(rows, area.width);
            },
            Pane::Split { kind, children, ratios } => {
                let areas = split_areas(area, *kind, ratios);
                resize_panes(children, &areas);
            },
            _ => {},
        }
        assert(old(self)@ is Session ==> self@ =~= (PaneView::Session {
            terminal: old(self)@->terminal.resized(session_rows(area, multi_pane), area.width),
            ssh_args: old(self)@->ssh_args,
            exit_selection: old(self)@->exit_selection,
        }));
    }

    /// Gives the session, where this is one, the size that it has when it fills
    /// `area`.
    pub fn resize_leaf(&mut self, area: Rect)
        ensures
            final(self)@ == leaf_resized(old(self)@, area),
    {
        if let Pane::Session { terminal, .. } = self {
            terminal.resize(area.height, area.width);
        }
    }

    /// The areas of the leaves, from the left, when the tree is shown in `area`.
    pub fn leaf_areas(&self, area: Rect) -> (r: Vec<Rect>)
        ensures
            is_layout(self@, area, r@),
        decreases self,
    {
        match self {
            Pane::Split { kind, children, ratios } => {
                let parts = split_areas(area, *kind, ratios);
                let ghost model = panes_model(children@);
                let mut r: Vec<Rect> = Vec::new();
                let mut i: usize = 0;
                while i < children.len() && i < parts.len()
                    invariant
                        self matches Pane::Split { kind: k, children: c, ratios: s } && k == kind
                            && c == children && s == ratios,
                        geometry::is_split(area, *kind, ratios@, parts@),
                        model == panes_model(children@),
                        i <= children@.len(),
                        i <= parts@.len(),
                        are_layouts(model, parts@, i as int, r@),
                    decreases children@.len() - i,
                {
                    assert(model[i as int] == children@[i as int]@);
                    let ghost before = r@;
                    let mut inner = children[i].leaf_areas(parts[i]);
                    let ghost group = inner@;
                    r.append(&mut inner);
                    i += 1;
                    assert(r@.take(before.len() as int) =~= before);
                    assert(r@.skip(before.len() as int) =~= group);
                }
                assert(self@ == (PaneView::Split { kind: *kind, children: model, ratios: ratios@ }));
                proof {
                    lemma_split_layout(*kind, ratios@, model, area, parts@, r@);
                }
                assert(is_layout(self@, area, r@));
                r
            },
            _ => {
                let r = vec![area];
                assert(r@ =~= seq![area]);
                r
            },
        }
    }
}

/// Finds the separator of a split that has been clicked, not of the panes inside
/// it.
pub fn own_separator(kind: Split, area: Rect, areas: &Vec<Rect>, col: u16, row: u16) -> (r: Option<
    usize,
>)
    ensures
        (match r {
            Some(i) => Some(i as int),
            None => None,
        }) == separator_at(kind, area, areas@, col, row, 0),
{
    let mut i: usize = 0;
    while i < areas.len() && i + 1 < areas.len()
        invariant
            i <= areas@.len(),
            separator_at(kind, area, areas@, col, row, 0) == separator_at(
                kind,
                area,
                areas@,
                col,
                row,
                i as int,
            ),
        decreases areas@.len() - i,
    {
        let found = match kind {
            Split::LeftRight => col == areas[i].right() && row >= area.y && (row as u32) < area.y
                as u32 + area.height as u32,
            Split::TopBottom => {
                let lower = areas[i + 1];
                row == lower.y && col >= lower.x && (col as u32) < lower.x as u32
                    + lower.width as u32
            },
        };
        if found {
            return Some(i);
        }
        i += 1;
    }
    None
}

/// Finds the first area that holds a cell.
pub fn find_area(areas: &Vec<Rect>, col: u16, row: u16) -> (r: usize)
    ensures
        r == area_at(areas@, col, row, 0),
        r <= areas@.len(),
{
    let mut i: usize = 0;
    while i < areas.len()
        invariant
            i <= areas@.len(),
            area_at(areas@, col, row, 0) == area_at(areas@, col, row, i as int),
        decreases areas@.len() - i,
    {
        if areas[i].contains(col, row) {
            return i;
        }
        i += 1;
    }
    i
}

/// Finds the innermost separator at `col`, `row` when the tree is shown in `area`.
pub fn hit_test_separator(pane: &Pane, area: Rect, col: u16, row: u16) -> (r: Option<SeparatorHit>)
    ensures
        is_hit(
            pane@,
            area,
            col,
            row,
            match r {
                Some(h) => Some(h@),
                None => None,
            },
        ),
    decreases pane,
{
    match pane {
        Pane::Split { kind, children, ratios } => {
            let areas = split_areas(area, *kind, ratios);
            let ghost model = panes_model(children@);
            assert(pane@ == (PaneView::Split {
                kind: *kind,
                children: model,
                ratios: ratios@,
            }));
            let i: usize = find_area(&areas, col, row);
            if i < children.len() && i < areas.len() {
                assert(model[i as int] == children@[i as int]@);
                if let Some(mut hit) = hit_test_separator(&children[i], areas[i], col, row) {
                    let ghost inner = hit@;
                    hit.path.insert(0, i);
                    proof {
                        assert(hit@.path.skip(1) =~= inner.path);
                        assert((HitView { path: hit@.path.skip(1), ..hit@ }) == inner);
                        lemma_split_hit(
                            *kind,
                            ratios@,
                            model,
                            area,
                            areas@,
                            col,
                            row,
                            Some(hit@),
                        );
                    }
                    return Some(hit);
                }
            }
            if let Some(sep_idx) = own_separator(*kind, area, &areas, col, row) {
                let path: Vec<usize> = Vec::new();
                assert(path@ =~= Seq::empty());
                let hit = SeparatorHit {
                    path,
                    sep_idx,
                    horizontal: matches!(*kind, Split::LeftRight),
                    split_area: area,
                };
                proof {
                    lemma_split_hit(
                        *kind,
                        ratios@,
                        model,
                        area,
                        areas@,
                        col,
                        row,
                        Some(hit@),
                    );
                }
                return Some(hit);
            }
            proof {
                lemma_split_hit(*kind, ratios@, model, area, areas@, col, row, None);
            }
            None
        },
        _ => None,
    }
}

/// A separator of a split itself is hit only where the pane that holds the cell
/// has none there.
pub proof fn law_innermost_separator_is_hit(
    kind: Split,
    children: Seq<PaneView>,
    area: Rect,
    areas: Seq<Rect>,
    col: u16,
    row: u16,
    hit: HitView,
)
    requires
        is_hit_in(kind, children, area, areas, col, row, Some(hit)),
        hit.path.len() == 0,
        0 <= area_at(areas, col, row, 0) < children.len(),
        area_at(areas, col, row, 0) < areas.len(),
    ensures
        is_hit(
            children[area_at(areas, col, row, 0)],
            areas[area_at(areas, col, row, 0)],
            col,
            row,
            None,
        ),
        separator_at(kind, area, areas, col, row, 0) is Some,
{
}

/// The node to which a path leads.
pub fn split_at_path<'a>(pane: &'a Pane, path: &[usize]) -> (r: Option<&'a Pane>)
    ensures
        (match r {
            Some(p) => Some(p@),
            None => None,
        }) == node_at(pane@, path@),
    decreases path@.len(),
{
    if path.len() == 0 {
        return Some(pane);
    }
    match pane {
        Pane::Split { children, .. } => {
            let i: usize = path[0];
            if i < children.len() {
                let rest = slice_subrange(path, 1, path.len());
                assert(rest@ =~= path@.skip(1));
                assert(panes_model(children@)[i as int] == children@[i as int]@);
                split_at_path(&children[i], rest)
            } else {
                None
            }
        },
        _ => None,
    }
}

/// Putting a node in its own place changes nothing.
pub proof fn lemma_same_node(p: PaneView, path: Seq<usize>)
    ensures
        node_at(p, path) matches Some(q) ==> with_node(p, path, q) == p,
    decreases path.len(),
{
    if path.len() > 0 {
        if let PaneView::Split { children, .. } = p {
            if path[0] < children.len() {
                let i = path[0] as int;
                lemma_same_node(children[i], path.skip(1));
                assert(children.update(i, children[i]) =~= children);
            }
        }
    }
}

/// The node to which a path leads, to be changed or replaced.
pub fn split_at_path_mut<'a>(pane: &'a mut Pane, path: &[usize]) -> (r: Option<&'a mut Pane>)
    ensures
        r is None ==> node_at(old(pane)@, path@) is None && final(pane)@ == old(pane)@,
        r is Some ==> node_at(old(pane)@, path@) == Some(r.unwrap()@) && final(pane)@ == with_node(
            old(pane)@,
            path@,
            final(r.unwrap())@,
        ),
    decreases path@.len(),
{
    if path.len() == 0 {
        return Some(pane);
    }
    match pane {
        Pane::Split { children, .. } => {
            let i: usize = path[0];
            if i < children.len() {
                let rest = slice_subrange(path, 1, path.len());
                assert(rest@ =~= path@.skip(1));
                let ghost model = panes_model(children@);
                assert(model.update(i as int, model[i as int]) =~= model);
                split_at_path_mut(child_mut(children, i), rest)
            } else {
                None
            }
        },
        _ => None,
    }
}

/// Removes the leaf numbered `n`, and each split that is left with one pane.
pub fn remove_leaf(pane: &mut Pane, n: usize)
    ensures
        final(pane)@ == without_leaf(old(pane)@, n as int),
    decreases *old(pane),
{
    if let Pane::Split { children, ratios, .. } = pane {
        let ghost model = panes_model(children@);
        let (i, rest) = find_child(children, n);
        if i < children.len() {
            if children[i].leaf_count() == 1 {
                children.remove(i);
                if i < ratios.len() {
                    ratios.remove(i);
                }
                assert(panes_model(children@) =~= model.remove(i as int));
            } else {
                remove_leaf(child_mut(children, i), rest);
            }
        }
    }
    let only = match pane {
        Pane::Split { children, .. } => if children.len() == 1 {
            Some(children.remove(0))
        } else {
            None
        },
        _ => None,
    };
    if let Some(p) = only {
        *pane = p;
    }
}

} // verus!
