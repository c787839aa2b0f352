//! What a leaf of the tree of panes shows.
use vstd::prelude::*;
use crate::browser;
use crate::color_backend::Cell;
use crate::geometry;
use crate::input;
use crate::keybindings;
use crate::view;
use crate::view::connect;
use crate::view::panel;
use crate::view::screen;
use crate::view::status;
use crate::browser::{browser_layout, BrowserLayout};
use crate::browser::common::{BrowserCore, BrowserFocus, CoreView};
use crate::browser::sftp::{FileBrowser, SftpView};
use crate::browser::ssh::{SshBrowser, SshView};
use crate::connect::SshHost;
use crate::geometry::{pane_border_inner, Rect};
use crate::keybindings::{BrowserBindings, KeyBindings};
use crate::pane::{Pane, PaneView};
use crate::view::{Piece, PieceView};
use crate::view::connect::{ConnectPlan, ConnectPlanView, ConnectView};
use crate::view::panel::{PanelPlan, PanelPlanView};
use crate::view::screen::{Screen, TerminalView};
use crate::view::status::{
    help_start, render_exit_overlay, render_help, ArrowPlan, TransferPlan, TransferPlanView,
};

verus! {

// ---------------------------------------------------------------------------
// Browsers
// ---------------------------------------------------------------------------

/// The last row of a browser: a question, the prompt for a password, or the
/// status with a reminder of keys at its right.
#[derive(Debug)]
pub enum StatusPlan {
    Question(String),
    Password(String),
    Normal { left: Vec<Piece>, help: String, help_x: u16 },
}

/// What the last row of a browser shows.
#[verifier::ext_equal]
pub enum StatusPlanView {
    Question(Seq<char>),
    Password(Seq<char>),
    Normal { left: Seq<PieceView>, help: Seq<char>, help_x: u16 },
}

impl View for StatusPlan {
    type V = StatusPlanView;

    open spec fn view(&self) -> StatusPlanView {
        match self {
            StatusPlan::Question(s) => StatusPlanView::Question(s@),
            StatusPlan::Password(s) => StatusPlanView::Password(s@),
            StatusPlan::Normal { left, help, help_x } => StatusPlanView::Normal {
                left: view::line_view(left@),
                help: help@,
                help_x: *help_x,
            },
        }
    }
}

/// What a browser shows: its two panels, its last row, and what lies over them.
#[derive(Debug)]
pub struct BrowserPlan {
    pub layout: BrowserLayout,
    pub local: PanelPlan,
    pub remote: PanelPlan,
    pub status: StatusPlan,
    /// The box that asks about dropped files, with its lines.
    pub drop: Option<(Rect, Vec<Vec<Piece>>)>,
    /// The box that shows the transfer under way.
    pub transfer: Option<TransferPlan>,
    pub arrows: Option<ArrowPlan>,
    /// The name of what is dragged, with the cell where it starts.
    pub dragged: Option<(String, u32, u32)>,
}

/// What a browser shows.
#[verifier::ext_equal]
pub struct BrowserPlanView {
    pub layout: BrowserLayout,
    pub local: PanelPlanView,
    pub remote: PanelPlanView,
    pub status: StatusPlanView,
    pub drop: Option<(Rect, Seq<Seq<PieceView>>)>,
    pub transfer: Option<TransferPlanView>,
    pub arrows: Option<ArrowPlan>,
    pub dragged: Option<(Seq<char>, int, int)>,
}

impl View for BrowserPlan {
    type V = BrowserPlanView;

    open spec fn view(&self) -> BrowserPlanView {
        BrowserPlanView {
            layout: self.layout,
            local: self.local@,
            remote: self.remote@,
            status: self.status@,
            drop: match self.drop {
                Some((area, lines)) => Some((area, view::lines_view(lines@))),
                None => None,
            },
            transfer: match self.transfer {
                Some(t) => Some(t@),
                None => None,
            },
            arrows: self.arrows,
            dragged: match self.dragged {
                Some((s, x, y)) => Some((s@, x as int, y as int)),
                None => None,
            },
        }
    }
}

/// The part of the area of a leaf that is left for its content: all of it where
/// there is no other leaf, and what is below the title otherwise.
pub open spec fn content_area(area: Rect, leaf_count: usize) -> Rect {
    if leaf_count > 1 {
        geometry::below_title(area)
    } else {
        area
    }
}

impl CoreView {
    /// The state with a panel scrolled no further to the side than it is wide.
    pub open spec fn clamped(self, area: Rect, side: BrowserFocus) -> CoreView {
        self.with_scroll(
            side,
            self.panel_scroll(side, panel::inside_border(area).width as int) as usize,
        )
    }

    /// The state after it was drawn in the area of a leaf.
    pub open spec fn drawn(self, area: Rect, leaf_count: usize) -> CoreView {
        let l = browser::layout_of(content_area(area, leaf_count));
        let c = self.clamped(l.local_panel, BrowserFocus::Local).clamped(
            l.remote_panel,
            BrowserFocus::Remote,
        );
        if c.drop_confirm is Some {
            CoreView { last_inner: area, ..c }
        } else {
            c
        }
    }

    /// What is shown in the area of a leaf.
    pub open spec fn browser_plan(
        self,
        area: Rect,
        leaf_count: usize,
        focused: bool,
        bottom: StatusPlanView,
        now: u64,
    ) -> BrowserPlanView {
        let l = browser::layout_of(content_area(area, leaf_count));
        BrowserPlanView {
            layout: l,
            local: self.panel_plan(l.local_panel, BrowserFocus::Local, focused),
            remote: self.panel_plan(l.remote_panel, BrowserFocus::Remote, focused),
            status: bottom,
            drop: match self.drop_confirm {
                Some(paths) => Some(
                    (
                        status::drop_area(area, self.drop_lines(paths, area).len() as int),
                        self.drop_lines(paths, area),
                    ),
                ),
                None => None,
            },
            transfer: self.transfer_box(area, now),
            arrows: self.arrows(area, leaf_count),
            dragged: self.drag_ghost(),
        }
    }

    /// The status of a browser, with the reminder of keys at its right.
    pub open spec fn normal_status(
        self,
        label: (Seq<char>, crate::style::Color),
        progress: Seq<char>,
        at: Rect,
        b: BrowserBindings,
    ) -> StatusPlanView {
        StatusPlanView::Normal {
            left: self.status_line(label.0, label.1, progress),
            help: status::help_text(b),
            help_x: status::help_column(at, status::help_text(b).len() as int) as u16,
        }
    }
}

impl SftpView {
    /// The last row of the browser: the question whether something is to be
    /// deleted, or else the status.
    pub open spec fn bottom(self, at: Rect, b: BrowserBindings) -> StatusPlanView {
        match self.core.delete_question() {
            Some(q) => StatusPlanView::Question(q),
            None => self.core.normal_status(self.label(), self.progress_text(), at, b),
        }
    }
}

impl SshView {
    /// The last row of the browser: the question whether something is to be
    /// deleted, or else the prompt for a password, or else the status.
    pub open spec fn bottom(self, at: Rect, b: BrowserBindings) -> StatusPlanView {
        match self.core.delete_question() {
            Some(q) => StatusPlanView::Question(q),
            None => if self.asking {
                StatusPlanView::Password(
                    status::password_line(
                        geometry::at_most(
                            panel::text_bytes(self.typed) as int,
                            usize::MAX as int,
                        ),
                        at.width as int,
                    ),
                )
            } else {
                self.core.normal_status(self.label(), self.progress_text(), at, b)
            },
        }
    }
}

fn inner_of(area: Rect, leaf_count: usize) -> (r: Rect)
    ensures
        r == content_area(area, leaf_count),
{
    if leaf_count > 1 {
        pane_border_inner(area)
    } else {
        area
    }
}

impl BrowserCore {
    fn plan_status(
        &self,
        label: (&'static str, crate::style::Color),
        progress: &str,
        at: Rect,
        bindings: &BrowserBindings,
    ) -> (r: StatusPlan)
        ensures
            r@ == self@.normal_status((label.0@, label.1), progress@, at, *bindings),
    {
        let help = render_help(bindings);
        let help_x: u16 = help_start(at, help.as_str());
        let left = self.render_normal_status(label.0, label.1, progress);
        StatusPlan::Normal { left, help, help_x }
    }

    /// What is shown in the area of a leaf.
    fn render_parts(
        &mut self,
        area: Rect,
        leaf_count: usize,
        focused: bool,
        bottom: StatusPlan,
        now: u64,
    ) -> (r: BrowserPlan)
        ensures
            final(self)@ == old(self)@.drawn(area, leaf_count),
            r@ == old(self)@.drawn(area, leaf_count).browser_plan(
                area,
                leaf_count,
                focused,
                bottom@,
                now,
            ),
    {
        let layout = browser_layout(inner_of(area, leaf_count));
        self.clamp_scroll(layout.local_panel, BrowserFocus::Local);
        self.clamp_scroll(layout.remote_panel, BrowserFocus::Remote);
        let drop = self.render_upload_confirm(area);
        let r = BrowserPlan {
            layout,
            local: self.render_panel(layout.local_panel, BrowserFocus::Local, focused),
            remote: self.render_panel(layout.remote_panel, BrowserFocus::Remote, focused),
            status: bottom,
            drop,
            transfer: self.render_transfer_progress(area, now),
            arrows: self.render_drag_arrow(area, leaf_count),
            dragged: self.render_drag_ghost(),
        };
        assert(self@ == old(self)@.drawn(area, leaf_count));
        assert(r@ =~= self@.browser_plan(area, leaf_count, focused, bottom@, now));
        r
    }
}

impl FileBrowser {
    /// What the browser shows in the area of a leaf.
    pub fn render(
        &mut self,
        area: Rect,
        is_focus: bool,
        leaf_count: usize,
        bindings: &BrowserBindings,
        now: u64,
    ) -> (r: BrowserPlan)
        ensures
            final(self)@ == (SftpView { core: old(self)@.core.drawn(area, leaf_count), ..old(
                self,
            )@ }),
            r@ == final(self)@.core.browser_plan(
                area,
                leaf_count,
                is_focus,
                old(self)@.bottom(
                    browser::layout_of(content_area(area, leaf_count)).status,
                    *bindings,
                ),
                now,
            ),
    {
        let at = browser_layout(inner_of(area, leaf_count)).status;
        let bottom = match self.core.render_confirm_delete() {
            Some(q) => StatusPlan::Question(q),
            None => {
                let progress = self.progress_suffix();
                self.core.plan_status(self.state_label(), progress.as_str(), at, bindings)
            },
        };
        self.core.render_parts(area, leaf_count, is_focus, bottom, now)
    }
}

impl SshBrowser {
    /// What the browser shows in the area of a leaf.
    pub fn render(
        &mut self,
        area: Rect,
        is_focus: bool,
        leaf_count: usize,
        bindings: &BrowserBindings,
        now: u64,
    ) -> (r: BrowserPlan)
        ensures
            final(self)@ == (SshView { core: old(self)@.core.drawn(area, leaf_count), ..old(
                self,
            )@ }),
            r@ == final(self)@.core.browser_plan(
                area,
                leaf_count,
                is_focus,
                old(self)@.bottom(
                    browser::layout_of(content_area(area, leaf_count)).status,
                    *bindings,
                ),
                now,
            ),
    {
        let at = browser_layout(inner_of(area, leaf_count)).status;
        let bottom = match self.core.render_confirm_delete() {
            Some(q) => StatusPlan::Question(q),
            None => {
                if self.waiting_password {
                    StatusPlan::Password(self.render_password_status(at.width))
                } else {
                    let progress = self.progress_suffix();
                    self.core.plan_status(self.state_label(), progress.as_str(), at, bindings)
                }
            },
        };
        self.core.render_parts(area, leaf_count, is_focus, bottom, now)
    }
}

// ---------------------------------------------------------------------------
// Leaves
// ---------------------------------------------------------------------------

/// What the leaves of a tab have in common when they are drawn.
#[derive(Debug)]
pub struct RenderCtx<'a> {
    pub hosts: &'a [SshHost],
    pub focus_idx: usize,
    pub leaf_count: usize,
    /// The number of the leaf that is drawn next.
    pub my_idx: usize,
    pub keybindings: &'a KeyBindings,
}

/// What is inside a leaf.
#[derive(Debug)]
pub enum LeafContent {
    Connect(ConnectPlan),
    Session(Vec<Cell>),
    Browser(BrowserPlan),
}

/// What is inside a leaf.
#[verifier::ext_equal]
pub enum ContentView {
    Connect(ConnectPlanView),
    Session(Seq<crate::color_backend::CellView>),
    Browser(BrowserPlanView),
}

impl View for LeafContent {
    type V = ContentView;

    open spec fn view(&self) -> ContentView {
        match self {
            LeafContent::Connect(p) => ContentView::Connect(p@),
            LeafContent::Session(c) => ContentView::Session(screen::cells_view(c@)),
            LeafContent::Browser(p) => ContentView::Browser(p@),
        }
    }
}

/// What a leaf shows.
#[derive(Debug)]
pub struct PanePlan {
    /// The area below the title.
    pub inner: Rect,
    pub is_focus: bool,
    pub content: LeafContent,
    /// The choice that is offered once the process of the leaf has ended.
    pub ended: Option<(Rect, Vec<Piece>)>,
}

/// What a leaf shows.
#[verifier::ext_equal]
pub struct PanePlanView {
    pub inner: Rect,
    pub is_focus: bool,
    pub content: ContentView,
    pub ended: Option<(Rect, Seq<PieceView>)>,
}

impl View for PanePlan {
    type V = PanePlanView;

    open spec fn view(&self) -> PanePlanView {
        PanePlanView {
            inner: self.inner,
            is_focus: self.is_focus,
            content: self.content@,
            ended: match self.ended {
                Some((area, line)) => Some((area, view::line_view(line@))),
                None => None,
            },
        }
    }
}

/// A leaf after it was drawn.
pub open spec fn leaf_drawn(p: PaneView, area: Rect, leaf_count: usize) -> PaneView {
    match p {
        PaneView::FileBrowser { browser } => PaneView::FileBrowser {
            browser: SftpView { core: browser.core.drawn(area, leaf_count), ..browser },
        },
        PaneView::SshBrowser { browser } => PaneView::SshBrowser {
            browser: SshView { core: browser.core.drawn(area, leaf_count), ..browser },
        },
        _ => p,
    }
}

/// What is inside a leaf. A session shows its screen, where it has one yet.
pub open spec fn leaf_content(
    p: PaneView,
    area: Rect,
    leaf_count: usize,
    is_focus: bool,
    bindings: KeyBindings,
    screen: Option<Screen>,
    now: u64,
) -> ContentView {
    let inner = content_area(area, leaf_count);
    let at = browser::layout_of(inner).status;
    match p {
        PaneView::Connect(c) => ContentView::Connect(connect::connect_plan(c, bindings, inner)),
        PaneView::FileBrowser { browser } => ContentView::Browser(
            browser.core.drawn(area, leaf_count).browser_plan(
                area,
                leaf_count,
                is_focus,
                browser.bottom(at, bindings.browser),
                now,
            ),
        ),
        PaneView::SshBrowser { browser } => ContentView::Browser(
            browser.core.drawn(area, leaf_count).browser_plan(
                area,
                leaf_count,
                is_focus,
                browser.bottom(at, bindings.browser),
                now,
            ),
        ),
        PaneView::Session { terminal, .. } => ContentView::Session(
            match screen {
                Some(s) => screen::shown_rows(s, terminal.scroll == 0, inner, inner.height as int),
                None => Seq::empty(),
            },
        ),
        PaneView::Split { .. } => ContentView::Session(Seq::empty()),
    }
}

/// What a leaf shows.
pub open spec fn pane_plan(
    p: PaneView,
    area: Rect,
    leaf_count: usize,
    is_focus: bool,
    bindings: KeyBindings,
    screen: Option<Screen>,
    now: u64,
) -> PanePlanView {
    PanePlanView {
        inner: content_area(area, leaf_count),
        is_focus,
        content: leaf_content(p, area, leaf_count, is_focus, bindings, screen, now),
        ended: if input::has_ended(p) {
            Some(
                (
                    status::exit_area(content_area(area, leaf_count)),
                    status::exit_line(input::exit_choice(p)),
                ),
            )
        } else {
            None
        },
    }
}

impl Pane {
    /// What a leaf shows in its area. The leaves of a tree are drawn one after
    /// the other; a split is not a leaf, and shows only its leaves.
    pub fn render(
        &mut self,
        area: Rect,
        ctx: &mut RenderCtx<'_>,
        screen: Option<&Screen>,
        now: u64,
    ) -> (r: Option<PanePlan>)
        ensures
            old(self)@ is Split ==> r is None && final(self)@ == old(self)@ && *final(ctx) == *old(
                ctx,
            ),
            !(old(self)@ is Split) ==> {
                &&& final(self)@ == leaf_drawn(old(self)@, area, old(ctx).leaf_count)
                &&& final(ctx).my_idx == geometry::at_most(
                    old(ctx).my_idx + 1,
                    usize::MAX as int,
                )
                &&& final(ctx).hosts == old(ctx).hosts
                &&& final(ctx).focus_idx == old(ctx).focus_idx
                &&& final(ctx).leaf_count == old(ctx).leaf_count
                &&& final(ctx).keybindings == old(ctx).keybindings
                &&& r matches Some(p) && p@ == pane_plan(
                    old(self)@,
                    area,
                    old(ctx).leaf_count,
                    old(ctx).my_idx == old(ctx).focus_idx,
                    *old(ctx).keybindings,
                    (match screen {
                        Some(s) => Some(*s),
                        None => None,
                    }),
                    now,
                )
            },
    {
        let is_focus = ctx.my_idx == ctx.focus_idx;
        let leaf_count: usize = ctx.leaf_count;
        let inner = inner_of(area, leaf_count);
        let bindings = ctx.keybindings;
        let ended = if self.process_exited() {
            Some(render_exit_overlay(inner, self.exit_selection()))
        } else {
            None
        };
        let content = match self {
            Pane::Connect(c) => {
                let v = ConnectView { hosts: ctx.hosts, keybindings: bindings };
                LeafContent::Connect(v.render(inner, c))
            },
            Pane::Session { terminal, .. } => {
                let cells = match screen {
                    Some(s) => TerminalView.render(inner, s, terminal.scroll),
                    None => Vec::new(),
                };
                assert(screen is None ==> screen::cells_view(cells@) =~= Seq::empty());
                LeafContent::Session(cells)
            },
            Pane::FileBrowser { browser } => LeafContent::Browser(
                browser.render(area, is_focus, leaf_count, &bindings.browser, now),
            ),
            Pane::SshBrowser { browser } => LeafContent::Browser(
                browser.render(area, is_focus, leaf_count, &bindings.browser, now),
            ),
            Pane::Split { .. } => {
                return None;
            },
        };
        ctx.my_idx = ctx.my_idx.saturating_add(1);
        Some(PanePlan { inner, is_focus, content, ended })
    }
}

} // verus!
