//! A tab: a tree of panes, one of which has the focus.
use vstd::prelude::*;
use crate::geometry;
use crate::pane;
use crate::geometry::{Rect, Split};
use crate::pane::{remove_leaf, Pane, PaneView};
use crate::connect::ConnectPaneView;

verus! {

/// A direction in which the focus is moved.
#[derive(Clone, Copy, Debug, PartialEq, Eq, Structural)]
pub enum FocusDir {
    Left,
    Right,
    Up,
    Down,
}

/// Whether two stretches of a row or a column have a cell in common.
pub open spec fn overlap(a: int, a_end: int, b: int, b_end: int) -> bool {
    a < b_end && b < a_end
}

/// Whether `b` lies wholly on one side of `a`, and beside it.
pub open spec fn lies_beside(a: Rect, b: Rect, dir: FocusDir) -> bool {
    match dir {
        FocusDir::Left => b.end_x() <= a.x && overlap(a.y as int, a.end_y(), b.y as int, b.end_y()),
        FocusDir::Right => a.end_x() <= b.x && overlap(
            a.y as int,
            a.end_y(),
            b.y as int,
            b.end_y(),
        ),
        FocusDir::Up => b.end_y() <= a.y && overlap(a.x as int, a.end_x(), b.x as int, b.end_x()),
        FocusDir::Down => a.end_y() <= b.y && overlap(a.x as int, a.end_x(), b.x as int, b.end_x()),
    }
}

/// How many rows or columns lie between `a` and an area beside it.
pub open spec fn gap(a: Rect, b: Rect, dir: FocusDir) -> int {
    match dir {
        FocusDir::Left => a.x - b.end_x(),
        FocusDir::Right => b.x - a.end_x(),
        FocusDir::Up => a.y - b.end_y(),
        FocusDir::Down => b.y - a.end_y(),
    }
}

/// Whether the area at `i` is, among the first `n`, the nearest one beside `a`;
/// of two that are as near it is the first.
pub open spec fn is_nearest(areas: Seq<Rect>, n: int, a: Rect, dir: FocusDir, i: int) -> bool {
    &&& 0 <= i < n
    &&& lies_beside(a, areas[i], dir)
    &&& forall|k: int|
        0 <= k < n && lies_beside(a, #[trigger] areas[k], dir) ==> gap(a, areas[i], dir) <= gap(
            a,
            areas[k],
            dir,
        )
    &&& forall|k: int|
        0 <= k < i && lies_beside(a, #[trigger] areas[k], dir) ==> gap(a, areas[i], dir) < gap(
            a,
            areas[k],
            dir,
        )
}

/// Whether `r` is the pane next to the one with the focus, in a direction.
pub open spec fn is_neighbor(
    areas: Seq<Rect>,
    focus: int,
    dir: FocusDir,
    r: Option<usize>,
) -> bool {
    match r {
        Some(i) => focus < areas.len() && is_nearest(
            areas,
            areas.len() as int,
            areas[focus],
            dir,
            i as int,
        ),
        None => focus < areas.len() ==> forall|k: int|
            0 <= k < areas.len() ==> !lies_beside(areas[focus], #[trigger] areas[k], dir),
    }
}

fn beside(a: Rect, b: Rect, dir: FocusDir) -> (r: Option<u32>)
    ensures
        (match r {
            Some(g) => lies_beside(a, b, dir) && g == gap(a, b, dir),
            None => !lies_beside(a, b, dir),
        }),
{
    let a_right: u32 = a.x as u32 + a.width as u32;
    let a_bottom: u32 = a.y as u32 + a.height as u32;
    let b_right: u32 = b.x as u32 + b.width as u32;
    let b_bottom: u32 = b.y as u32 + b.height as u32;
    let rows = (a.y as u32) < b_bottom && (b.y as u32) < a_bottom;
    let cols = (a.x as u32) < b_right && (b.x as u32) < a_right;
    match dir {
        FocusDir::Left => if rows && b_right <= a.x as u32 {
            Some(a.x as u32 - b_right)
        } else {
            None
        },
        FocusDir::Right => if rows && a_right <= b.x as u32 {
            Some(b.x as u32 - a_right)
        } else {
            None
        },
        FocusDir::Up => if cols && b_bottom <= a.y as u32 {
            Some(a.y as u32 - b_bottom)
        } else {
            None
        },
        FocusDir::Down => if cols && a_bottom <= b.y as u32 {
            Some(b.y as u32 - a_bottom)
        } else {
            None
        },
    }
}

/// Finds the pane next to the one with the focus, in a direction.
pub fn find_directional_neighbor(areas: &Vec<Rect>, focus: usize, dir: FocusDir) -> (r: Option<
    usize,
>)
    ensures
        is_neighbor(areas@, focus as int, dir, r),
{
    if focus >= areas.len() {
        return None;
    }
    let a = areas[focus];
    let mut best: Option<(usize, u32)> = None;
    let mut i: usize = 0;
    while i < areas.len()
        invariant
            i <= areas@.len(),
            match best {
                Some((k, g)) => is_nearest(areas@, i as int, a, dir, k as int) && g == gap(
                    a,
                    areas@[k as int],
                    dir,
                ),
                None => forall|k: int|
                    0 <= k < i ==> !lies_beside(a, #[trigger] areas@[k], dir),
            },
        decreases areas@.len() - i,
    {
        if let Some(g) = beside(a, areas[i], dir) {
            let nearer = match best {
                Some((_, h)) => g < h,
                None => true,
            };
            if nearer {
                best = Some((i, g));
            }
        }
        i += 1;
    }
    match best {
        Some((k, _)) => Some(k),
        None => None,
    }
}

/// A tab.
#[derive(Debug)]
pub struct Tab {
    pub name: String,
    pub root: Pane,
    /// The number of the leaf that has the focus.
    pub focus_idx: usize,
    /// Whether the pane with the focus is shown alone.
    pub zoom: bool,
}

/// What a tab shows.
#[verifier::ext_equal]
pub struct TabView {
    pub name: Seq<char>,
    pub root: PaneView,
    pub focus: usize,
    pub zoom: bool,
}

impl View for Tab {
    type V = TabView;

    open spec fn view(&self) -> TabView {
        TabView { name: self.name@, root: self.root@, focus: self.focus_idx, zoom: self.zoom }
    }
}

impl TabView {
    /// A new tab, with a pane for choosing a host.
    pub open spec fn opened(name: Seq<char>) -> TabView {
        TabView {
            name,
            root: PaneView::Connect(ConnectPaneView::opened()),
            focus: 0,
            zoom: false,
        }
    }

    /// The pane with the focus.
    pub open spec fn focused(self) -> Option<PaneView> {
        pane::leaf_at(self.root, self.focus as int)
    }

    /// The tab with another pane in the place of the one with the focus.
    pub open spec fn with_focused(self, p: PaneView) -> TabView {
        TabView { root: pane::with_leaf(self.root, self.focus as int, p), ..self }
    }

    /// The tree when the pane with the focus has been divided.
    pub open spec fn split_root(self, kind: Split) -> PaneView {
        if self.root is Split {
            pane::with_split(self.root, self.focus as int, kind)
        } else {
            pane::halved(self.root, kind)
        }
    }

    /// Whether the pane with the focus can be divided.
    pub open spec fn can_split(self) -> bool {
        self.root is Split ==> self.focus < pane::count(self.root)
    }

    /// Whether `now` is the tab, shown in `area`, after the pane with the focus
    /// was divided: the focus is on the new pane.
    pub open spec fn is_split_into(self, now: TabView, kind: Split, area: Rect) -> bool {
        if self.can_split() {
            &&& now.name == self.name
            &&& now.zoom == self.zoom
            &&& now.focus == (if self.root is Split {
                geometry::at_most(self.focus + 1, usize::MAX as int)
            } else {
                1
            })
            &&& pane::is_resized(self.split_root(kind), now.root, area, true)
        } else {
            now == self
        }
    }

    /// The tab without the pane that has the focus.
    pub open spec fn without_pane(self) -> TabView {
        let root = pane::without_leaf(self.root, self.focus as int);
        let n = geometry::at_most(pane::count(root) as int, usize::MAX as int);
        TabView {
            root,
            focus: if self.focus < n {
                self.focus
            } else {
                geometry::monus(n, 1) as usize
            },
            zoom: false,
            ..self
        }
    }

    /// The tab after a tick of its browsers.
    pub open spec fn after_tick(self, now: u64) -> TabView {
        TabView { root: pane::ticked(self.root, now), ..self }
    }

    /// The tab after a look for changes.
    pub open spec fn after_look(self) -> TabView {
        TabView { root: pane::looked_at(self.root), ..self }
    }

    /// Whether `now` is the tab after its sessions were given the size that they
    /// have when it is shown in `area`.
    pub open spec fn is_resized_to(self, now: TabView, area: Rect) -> bool {
        &&& now == (TabView { root: now.root, ..self })
        &&& pane::is_resized(self.root, now.root, area, pane::count(self.root) > 1)
    }

    /// The tab after the focus was moved in a direction, where its panes have
    /// the given areas.
    pub open spec fn is_focus_moved(self, now: TabView, areas: Seq<Rect>, dir: FocusDir) -> bool {
        exists|r: Option<usize>| #[trigger]
            is_neighbor(areas, self.focus as int, dir, r) && now == (match r {
                Some(i) => TabView { focus: i, ..self },
                None => self,
            })
    }
}

impl Tab {
    /// A new tab, with a pane for choosing a host.
    pub fn new(name: &str) -> (r: Tab)
        ensures
            r@ == TabView::opened(name@),
    {
        Tab { name: name.to_owned(), root: Pane::new_connect(), focus_idx: 0, zoom: false }
    }

    /// The number of panes, as far as it can be numbered.
    pub fn leaf_count(&self) -> (r: usize)
        ensures
            r == geometry::at_most(pane::count(self@.root) as int, usize::MAX as int),
    {
        self.root.leaf_count()
    }

    /// What the tab is called in the tab bar.
    pub fn display_name(&self) -> (r: String)
        ensures
            r@ == self@.name,
    {
        self.name.clone()
    }

    /// The pane with the focus.
    pub fn focused_pane(&self) -> (r: Option<&Pane>)
        ensures
            (match r {
                Some(p) => Some(p@),
                None => None,
            }) == self@.focused(),
    {
        self.root.leaf(self.focus_idx)
    }

    /// The pane with the focus, to be changed or replaced.
    pub fn focused_pane_mut(&mut self) -> (r: Option<&mut Pane>)
        ensures
            r is None ==> old(self)@.focused() is None && final(self)@ == old(self)@,
            r is Some ==> old(self)@.focused() == Some(r.unwrap()@) && final(self)@ == old(
                self,
            )@.with_focused(final(r.unwrap())@),
    {
        self.root.leaf_mut(self.focus_idx)
    }

    /// Divides the pane with the focus, when the tab is shown in `area`. The new
    /// pane gets the focus.
    pub fn split(&mut self, kind: Split, area: Rect)
        ensures
            old(self)@.is_split_into(final(self)@, kind, area),
    {
        if let Pane::Split { .. } = &self.root {
            if !self.root.split_leaf(self.focus_idx, kind) {
                proof {
                    crate::leaves::lemma_split_missing(old(self)@.root, self.focus_idx as int, kind);
                }
                return ;
            }
            self.focus_idx = self.focus_idx.saturating_add(1);
        } else {
            let mut before = Pane::new_connect();
            std::mem::swap(&mut self.root, &mut before);
            self.root = crate::pane::halve(before, kind);
            self.focus_idx = 1;
        }
        self.root.resize_all(area, true);
    }

    /// Closes the pane that has the focus.
    pub fn close_pane(&mut self)
        ensures
            final(self)@ == old(self)@.without_pane(),
    {
        remove_leaf(&mut self.root, self.focus_idx);
        let n: usize = self.root.leaf_count();
        if self.focus_idx >= n {
            self.focus_idx = n.saturating_sub(1);
        }
        self.zoom = false;
    }

    /// Lets the browsers do their work.
    pub fn tick(&mut self, now: u64)
        ensures
            final(self)@ == old(self)@.after_tick(now),
    {
        self.root.tick_browsers(now);
    }

    /// Whether something has changed since the last look.
    pub fn take_dirty(&mut self) -> (r: bool)
        ensures
            r == pane::changed(old(self)@.root),
            final(self)@ == old(self)@.after_look(),
    {
        self.root.take_dirty()
    }

    /// Gives all sessions the size that they have in `area`.
    pub fn resize_all(&mut self, area: Rect)
        ensures
            old(self)@.is_resized_to(final(self)@, area),
    {
        let multi = self.leaf_count() > 1;
        self.root.resize_all(area, multi);
    }

    /// Moves the focus to the next pane in a direction, when the tab is shown in
    /// `area`.
    pub fn focus_dir(&mut self, dir: FocusDir, area: Rect)
        ensures
            exists|areas: Seq<Rect>| #[trigger]
                pane::is_layout(old(self)@.root, area, areas) && old(self)@.is_focus_moved(
                    final(self)@,
                    areas,
                    dir,
                ),
    {
        let areas = self.root.leaf_areas(area);
        self.focus_among(&areas, dir);
        assert(pane::is_layout(old(self)@.root, area, areas@));
    }

    /// Moves the focus to the next pane in a direction, where the panes have the
    /// given areas.
    pub fn focus_among(&mut self, areas: &Vec<Rect>, dir: FocusDir)
        ensures
            old(self)@.is_focus_moved(final(self)@, areas@, dir),
    {
        let next = find_directional_neighbor(areas, self.focus_idx, dir);
        assert(is_neighbor(areas@, self@.focus as int, dir, next));
        if let Some(i) = next {
            self.focus_idx = i;
        }
    }
}

/// The next pane in a direction is the same pane every time: at most one pane
/// is the nearest one.
pub proof fn law_neighbor_is_unique(
    areas: Seq<Rect>,
    focus: int,
    dir: FocusDir,
    r: Option<usize>,
    s: Option<usize>,
)
    requires
        0 <= focus,
        is_neighbor(areas, focus, dir, r),
        is_neighbor(areas, focus, dir, s),
    ensures
        r == s,
{
    if let (Some(i), Some(k)) = (r, s) {
        let a = areas[focus];
        assert(lies_beside(a, areas[i as int], dir));
        assert(lies_beside(a, areas[k as int], dir));
    } else if let Some(i) = r {
        assert(lies_beside(areas[focus], areas[i as int], dir));
    } else if let Some(k) = s {
        assert(lies_beside(areas[focus], areas[k as int], dir));
    }
}

/// The pane next to one that has at least one cell is another pane.
pub proof fn law_neighbor_is_another_pane(
    areas: Seq<Rect>,
    focus: int,
    dir: FocusDir,
    i: usize,
)
    requires
        0 <= focus,
        focus < areas.len() ==> areas[focus].width > 0 && areas[focus].height > 0,
        is_neighbor(areas, focus, dir, Some(i)),
    ensures
        i != focus,
        i < areas.len(),
{
    assert(lies_beside(areas[focus], areas[i as int], dir));
}

} // verus!
