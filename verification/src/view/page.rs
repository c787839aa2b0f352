//! The whole application, as it is shown.
use vstd::prelude::*;
use crate::app;
use crate::geometry;
use crate::leaves;
use crate::pane;
use crate::view;
use crate::view::leaf;
use crate::view::panel;
use crate::view::tabs;
use crate::view::tree;
use crate::app::{App, AppView, ContextMenu, CONTEXT_MENU_ITEMS};
use crate::connect::SshHost;
use crate::geometry::{context_menu_rect, pane_inner, Rect};
use crate::keybindings::KeyBindings;
use crate::pane::{Pane, PaneView};
use crate::tab::{Tab, TabView};
use crate::view::{Piece, PieceView};
use crate::view::leaf::{PanePlan, PanePlanView, RenderCtx};
use crate::view::panel::border_inner;
use crate::view::screen::Screen;
use crate::view::tabs::{menu_item_style, render_menu_item, render_tab_bar};
use crate::view::tree::{
    frame_of, Canvas, CanvasView, FrameView, LeafPlan, LeafPlanView, PaneTreeView,
};

verus! {

// ---------------------------------------------------------------------------
// The context menu
// ---------------------------------------------------------------------------

/// The context menu: its area, the part inside its border, and the lines in it.
#[derive(Debug)]
pub struct MenuPlan {
    pub area: Rect,
    pub inner: Rect,
    pub items: Vec<Piece>,
}

/// What the context menu shows.
#[verifier::ext_equal]
pub struct MenuPlanView {
    pub area: Rect,
    pub inner: Rect,
    pub items: Seq<PieceView>,
}

impl View for MenuPlan {
    type V = MenuPlanView;

    open spec fn view(&self) -> MenuPlanView {
        MenuPlanView { area: self.area, inner: self.inner, items: view::line_view(self.items@) }
    }
}

/// The first `n` lines of the context menu.
pub open spec fn menu_lines(selected: Option<usize>, width: int, n: int) -> Seq<PieceView> {
    Seq::new(
        n as nat,
        |i: int|
            view::piece(
                tabs::menu_label(CONTEXT_MENU_ITEMS[i]@, width),
                tabs::menu_style(i as usize, selected),
            ),
    )
}

/// What the context menu shows on a screen: as many of its lines as have room.
pub open spec fn menu_plan(m: ContextMenu, screen: Rect) -> MenuPlanView {
    let area = geometry::menu_area(m.col, m.row, screen);
    let inner = panel::inside_border(area);
    MenuPlanView {
        area,
        inner,
        items: menu_lines(
            m.selected,
            inner.width as int,
            geometry::at_most(CONTEXT_MENU_ITEMS.len() as int, inner.height as int),
        ),
    }
}

/// What the context menu shows on a screen.
pub fn render_context_menu(m: &ContextMenu, screen: Rect) -> (r: MenuPlan)
    requires
        screen.on_screen(),
    ensures
        r@ == menu_plan(*m, screen),
{
    let area = context_menu_rect(m.col, m.row, screen);
    let inner = border_inner(area);
    let mut items: Vec<Piece> = Vec::new();
    let mut i: usize = 0;
    assert(view::line_view(items@) =~= menu_lines(m.selected, inner.width as int, 0));
    while i < CONTEXT_MENU_ITEMS.len() && i < inner.height as usize
        invariant
            i <= geometry::at_most(CONTEXT_MENU_ITEMS.len() as int, inner.height as int),
            view::line_view(items@) == menu_lines(m.selected, inner.width as int, i as int),
        decreases CONTEXT_MENU_ITEMS.len() - i,
    {
        let ghost before = view::line_view(items@);
        let line = Piece {
            text: render_menu_item(CONTEXT_MENU_ITEMS[i], inner.width as usize),
            style: menu_item_style(i, m.selected),
        };
        let ghost shown = line@;
        items.push(line);
        i += 1;
        assert(view::line_view(items@) =~= before.push(shown));
        assert(view::line_view(items@) =~= menu_lines(m.selected, inner.width as int, i as int));
    }
    MenuPlan { area, inner, items }
}

// ---------------------------------------------------------------------------
// The panes of a tab
// ---------------------------------------------------------------------------

/// The screen of a session among those at hand, searched from `i` on.
pub open spec fn screen_from(screens: Seq<(u64, Screen)>, id: u64, i: int) -> Option<Screen>
    decreases screens.len() - i,
{
    if i >= screens.len() {
        None
    } else if screens[i].0 == id {
        Some(screens[i].1)
    } else {
        screen_from(screens, id, i + 1)
    }
}

/// The screen of a leaf that is a session.
pub open spec fn screen_for(screens: Seq<(u64, Screen)>, p: PaneView) -> Option<Screen> {
    match p {
        PaneView::Session { terminal, .. } => screen_from(screens, terminal.id, 0),
        _ => None,
    }
}

fn find_screen<'a>(screens: &'a Vec<(u64, Screen)>, p: &Pane) -> (r: Option<&'a Screen>)
    ensures
        (match r {
            Some(s) => Some(*s),
            None => None,
        }) == screen_for(screens@, p@),
{
    let id: u64 = match p {
        Pane::Session { terminal, .. } => terminal.id,
        _ => {
            return None;
        },
    };
    let mut i: usize = 0;
    while i < screens.len()
        invariant
            p@ matches PaneView::Session { terminal, .. } && terminal.id == id,
            i <= screens@.len(),
            screen_from(screens@, id, 0) == screen_from(screens@, id, i as int),
        decreases screens@.len() - i,
    {
        if screens[i].0 == id {
            return Some(&screens[i].1);
        }
        i += 1;
    }
    None
}

/// A tree after its first `n` leaves were drawn, each in its area.
pub open spec fn leaves_drawn(
    root: PaneView,
    areas: Seq<LeafPlanView>,
    n: int,
    leaf_count: usize,
) -> PaneView
    decreases n,
{
    if n <= 0 {
        root
    } else {
        let before = leaves_drawn(root, areas, n - 1, leaf_count);
        match pane::leaf_at(before, n - 1) {
            Some(p) => pane::with_leaf(
                before,
                n - 1,
                leaf::leaf_drawn(p, areas[n - 1].area, leaf_count),
            ),
            None => before,
        }
    }
}

/// What the first `n` leaves of a tree show.
pub open spec fn leaves_shown(
    root: PaneView,
    areas: Seq<LeafPlanView>,
    n: int,
    leaf_count: usize,
    focus: usize,
    bindings: KeyBindings,
    screens: Seq<(u64, Screen)>,
    now: u64,
) -> Seq<PanePlanView>
    decreases n,
{
    if n <= 0 {
        Seq::empty()
    } else {
        let shown = leaves_shown(
            root,
            areas,
            n - 1,
            leaf_count,
            focus,
            bindings,
            screens,
            now,
        );
        match pane::leaf_at(leaves_drawn(root, areas, n - 1, leaf_count), n - 1) {
            Some(p) => shown.push(
                leaf::pane_plan(
                    p,
                    areas[n - 1].area,
                    leaf_count,
                    n - 1 == focus,
                    bindings,
                    screen_for(screens, p),
                    now,
                ),
            ),
            None => shown,
        }
    }
}

/// What the panes of a list show.
pub open spec fn panes_view(v: Seq<PanePlan>) -> Seq<PanePlanView> {
    v.map_values(|p: PanePlan| p@)
}

/// Draws one leaf of a tree, behind those that are drawn already.
fn render_leaf(
    root: &mut Pane,
    n: usize,
    area: Rect,
    ctx: &mut RenderCtx<'_>,
    screens: &Vec<(u64, Screen)>,
    now: u64,
    shown: &mut Vec<PanePlan>,
)
    requires
        old(ctx).my_idx == n,
    ensures
        final(ctx).hosts == old(ctx).hosts,
        final(ctx).focus_idx == old(ctx).focus_idx,
        final(ctx).leaf_count == old(ctx).leaf_count,
        final(ctx).keybindings == old(ctx).keybindings,
        match pane::leaf_at(old(root)@, n as int) {
            Some(p) => {
                &&& final(root)@ == pane::with_leaf(
                    old(root)@,
                    n as int,
                    leaf::leaf_drawn(p, area, old(ctx).leaf_count),
                )
                &&& panes_view(final(shown)@) == panes_view(old(shown)@).push(
                    leaf::pane_plan(
                        p,
                        area,
                        old(ctx).leaf_count,
                        n == old(ctx).focus_idx,
                        *old(ctx).keybindings,
                        screen_for(screens@, p),
                        now,
                    ),
                )
            },
            None => final(root)@ == old(root)@ && panes_view(final(shown)@) == panes_view(
                old(shown)@,
            ),
        },
{
    proof {
        leaves::lemma_leaf_is_no_split(root@, n as int);
    }
    if let Some(p) = root.leaf_mut(n) {
        let screen = find_screen(screens, p);
        if let Some(plan) = p.render(area, ctx, screen, now) {
            let ghost before = panes_view(shown@);
            let ghost seen = plan@;
            shown.push(plan);
            assert(panes_view(shown@) =~= before.push(seen));
        }
    }
}

/// Draws the leaves of a tree, each in its area.
fn render_leaves(
    root: &mut Pane,
    leaves: &Vec<LeafPlan>,
    leaf_count: usize,
    focus: usize,
    hosts: &[SshHost],
    bindings: &KeyBindings,
    screens: &Vec<(u64, Screen)>,
    now: u64,
) -> (r: Vec<PanePlan>)
    ensures
        final(root)@ == leaves_drawn(
            old(root)@,
            tree::plans_view(leaves@),
            leaves@.len() as int,
            leaf_count,
        ),
        panes_view(r@) == leaves_shown(
            old(root)@,
            tree::plans_view(leaves@),
            leaves@.len() as int,
            leaf_count,
            focus,
            *bindings,
            screens@,
            now,
        ),
{
    let ghost areas = tree::plans_view(leaves@);
    let ghost start = root@;
    let mut r: Vec<PanePlan> = Vec::new();
    let mut i: usize = 0;
    assert(panes_view(r@) =~= Seq::empty());
    while i < leaves.len()
        invariant
            areas == tree::plans_view(leaves@),
            i <= leaves@.len(),
            root@ == leaves_drawn(start, areas, i as int, leaf_count),
            panes_view(r@) == leaves_shown(
                start,
                areas,
                i as int,
                leaf_count,
                focus,
                *bindings,
                screens@,
                now,
            ),
        decreases leaves@.len() - i,
    {
        assert(areas[i as int] == leaves@[i as int]@);
        let mut ctx = RenderCtx {
            hosts,
            focus_idx: focus,
            leaf_count,
            my_idx: i,
            keybindings: bindings,
        };
        render_leaf(root, i, leaves[i].area, &mut ctx, screens, now, &mut r);
        i += 1;
    }
    r
}

/// What a tab shows: the frame around its panes, and its panes.
#[derive(Debug)]
pub struct TabPlan {
    pub canvas: Canvas,
    pub leaves: Vec<LeafPlan>,
    pub panes: Vec<PanePlan>,
}

/// What a tab shows.
#[verifier::ext_equal]
pub struct TabPlanView {
    pub canvas: CanvasView,
    pub leaves: Seq<LeafPlanView>,
    pub panes: Seq<PanePlanView>,
}

impl View for TabPlan {
    type V = TabPlanView;

    open spec fn view(&self) -> TabPlanView {
        TabPlanView {
            canvas: self.canvas@,
            leaves: tree::plans_view(self.leaves@),
            panes: panes_view(self.panes@),
        }
    }
}

impl TabView {
    /// The pane with the focus where it fills the whole area: it has no title.
    pub open spec fn zoomed_leaf(self, area: Rect) -> LeafPlanView {
        LeafPlanView { area, inner: area, title: Seq::empty(), is_focus: true }
    }

    /// The number of the leaves, as far as it can be told.
    pub open spec fn shown_count(self) -> usize {
        geometry::at_most(pane::count(self.root) as int, usize::MAX as int) as usize
    }

    /// Whether `now` is the tab after it was drawn in `area`, and `plan` is what
    /// it shows. Where the tab is zoomed, the pane with the focus fills the area;
    /// otherwise all panes are shown in a frame.
    pub open spec fn is_shown(
        self,
        now: TabView,
        plan: TabPlanView,
        area: Rect,
        bindings: KeyBindings,
        screens: Seq<(u64, Screen)>,
        time: u64,
    ) -> bool {
        if self.zoom {
            match pane::leaf_at(self.root, self.focus as int) {
                Some(p) => {
                    &&& now == (TabView {
                        root: pane::with_leaf(
                            self.root,
                            self.focus as int,
                            leaf::leaf_drawn(p, area, 1),
                        ),
                        ..self
                    })
                    &&& plan.canvas == CanvasView::blank(area)
                    &&& plan.leaves == seq![self.zoomed_leaf(area)]
                    &&& plan.panes == seq![
                        leaf::pane_plan(
                            p,
                            area,
                            1,
                            true,
                            bindings,
                            screen_for(screens, p),
                            time,
                        ),
                    ]
                },
                None => {
                    &&& now == self
                    &&& plan.canvas == CanvasView::blank(area)
                    &&& plan.leaves == seq![self.zoomed_leaf(area)]
                    &&& plan.panes.len() == 0
                },
            }
        } else {
            exists|f: FrameView| #[trigger]
                tree::is_frame(self.root, area, f) && self.is_framed(
                    now,
                    plan,
                    f,
                    area,
                    bindings,
                    screens,
                    time,
                )
        }
    }

    /// Whether `now` is the tab after it was drawn in the frame `f`, and `plan`
    /// is what it shows.
    pub open spec fn is_framed(
        self,
        now: TabView,
        plan: TabPlanView,
        f: FrameView,
        area: Rect,
        bindings: KeyBindings,
        screens: Seq<(u64, Screen)>,
        time: u64,
    ) -> bool {
        let multi = pane::count(self.root) > 1;
        let n = tree::frame_leaves(f).len();
        &&& plan.canvas == tree::drawn(f, CanvasView::blank(area), multi)
        &&& plan.leaves == Seq::new(
            n,
            |i: int| tree::leaf_plan(tree::frame_leaves(f)[i], i, self.focus as int, multi),
        )
        &&& plan.panes == leaves_shown(
            self.root,
            plan.leaves,
            n as int,
            self.shown_count(),
            self.focus,
            bindings,
            screens,
            time,
        )
        &&& now == (TabView {
            root: leaves_drawn(self.root, plan.leaves, n as int, self.shown_count()),
            ..self
        })
    }
}

impl Tab {
    fn render_zoomed(
        &mut self,
        area: Rect,
        hosts: &[SshHost],
        bindings: &KeyBindings,
        screens: &Vec<(u64, Screen)>,
        now: u64,
    ) -> (r: TabPlan)
        requires
            old(self)@.zoom,
        ensures
            old(self)@.is_shown(final(self)@, r@, area, *bindings, screens@, now),
    {
        let leaves = vec![LeafPlan { area, inner: area, title: String::new(), is_focus: true }];
        assert(tree::plans_view(leaves@) =~= seq![self@.zoomed_leaf(area)]);
        let focus: usize = self.focus_idx;
        let mut ctx = RenderCtx {
            hosts,
            focus_idx: focus,
            leaf_count: 1,
            my_idx: focus,
            keybindings: bindings,
        };
        let mut panes: Vec<PanePlan> = Vec::new();
        assert(panes_view(panes@) =~= Seq::empty());
        render_leaf(&mut self.root, focus, area, &mut ctx, screens, now, &mut panes);
        let r = TabPlan { canvas: Canvas::new(area), leaves, panes };
        proof {
            if pane::leaf_at(old(self)@.root, focus as int) is Some {
                assert(r@.panes =~= seq![r@.panes[0]]);
            }
        }
        r
    }

    fn render_framed(
        &mut self,
        area: Rect,
        hosts: &[SshHost],
        bindings: &KeyBindings,
        screens: &Vec<(u64, Screen)>,
        now: u64,
    ) -> (r: TabPlan)
        requires
            !old(self)@.zoom,
        ensures
            old(self)@.is_shown(final(self)@, r@, area, *bindings, screens@, now),
    {
        let mut canvas = Canvas::new(area);
        let focus: usize = self.focus_idx;
        let multi = self.root.leaf_count() > 1;
        let leaf_count: usize = self.root.leaf_count();
        let frame = frame_of(&self.root, area);
        let leaves = PaneTreeView { focus_idx: focus }.render_frame(&frame, multi, &mut canvas);
        let panes = render_leaves(
            &mut self.root,
            &leaves,
            leaf_count,
            focus,
            hosts,
            bindings,
            screens,
            now,
        );
        let r = TabPlan { canvas, leaves, panes };
        proof {
            let f = frame@;
            assert(r@.leaves =~= Seq::new(
                tree::frame_leaves(f).len(),
                |i: int|
                    tree::leaf_plan(
                        tree::frame_leaves(f)[i],
                        i,
                        old(self)@.focus as int,
                        pane::count(old(self)@.root) > 1,
                    ),
            ));
            assert(tree::is_frame(old(self)@.root, area, f));
            assert(old(self)@.is_framed(self@, r@, f, area, *bindings, screens@, now));
        }
        r
    }

    /// What the tab shows in its area.
    pub fn render(
        &mut self,
        area: Rect,
        hosts: &[SshHost],
        bindings: &KeyBindings,
        screens: &Vec<(u64, Screen)>,
        now: u64,
    ) -> (r: TabPlan)
        ensures
            old(self)@.is_shown(final(self)@, r@, area, *bindings, screens@, now),
    {
        if self.zoom {
            self.render_zoomed(area, hosts, bindings, screens, now)
        } else {
            self.render_framed(area, hosts, bindings, screens, now)
        }
    }
}

// ---------------------------------------------------------------------------
// The application
// ---------------------------------------------------------------------------

/// What the application shows.
#[derive(Debug)]
pub struct AppPlan {
    /// The area of the panes.
    pub content: Rect,
    /// The tab bar, in the last row.
    pub bar: Vec<Piece>,
    pub tab: TabPlan,
    pub menu: Option<MenuPlan>,
}

impl AppView {
    /// Whether `now` is the application after it was drawn on a screen, and the
    /// rest is what it shows.
    pub open spec fn is_shown(
        self,
        now: AppView,
        plan: AppPlan,
        full: Rect,
        screens: Seq<(u64, Screen)>,
        time: u64,
    ) -> bool {
        &&& plan.content == geometry::above_tab_bar(full)
        &&& view::line_view(plan.bar@) == tabs::tab_bar(
            self.tabs,
            self.selected as int,
            self.tabs.len() as int,
        )
        &&& now == self.with_tab(now.tab())
        &&& self.tab().is_shown(
            now.tab(),
            plan.tab@,
            plan.content,
            self.keybindings,
            screens,
            time,
        )
        &&& match self.menu {
            Some(m) => plan.menu matches Some(p) && p@ == menu_plan(m, full),
            None => plan.menu is None,
        }
    }
}

impl App {
    /// What the application shows on a screen, with the given screens for its
    /// sessions.
    pub fn render(&mut self, full: Rect, screens: &Vec<(u64, Screen)>, now: u64) -> (r: AppPlan)
        requires
            old(self)@.valid(),
            full.on_screen(),
        ensures
            old(self)@.is_shown(final(self)@, r, full, screens@, now),
            final(self)@.valid(),
    {
        let content = pane_inner(full);
        let bar = render_tab_bar(&self.tabs, self.selected_tab);
        let menu = match &self.context_menu {
            Some(m) => Some(render_context_menu(m, full)),
            None => None,
        };
        let ghost before = self.tabs@;
        let ghost i = self.selected_tab as int;
        let tab = self.tabs[self.selected_tab].render(
            content,
            self.hosts.as_slice(),
            &self.keybindings,
            screens,
            now,
        );
        assert(app::tabs_view(self.tabs@) =~= app::tabs_view(before).update(i, self.tabs@[i]@));
        AppPlan { content, bar, tab, menu }
    }
}

} // verus!
