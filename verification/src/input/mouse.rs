//! The mouse: the context menu, moving separators, browsers, and sessions.
use vstd::prelude::*;
use crate::geometry;
use crate::pane;
use crate::text;
use crate::app::{App, AppView, ContextMenu, PaneResizeDrag, ResizeView, CONTEXT_MENU_ITEMS};
use crate::browser::common::{DragAction, TransferDirection};
use crate::browser::sftp::{FileBrowser, SftpView};
use crate::browser::ssh::{SshBrowser, SshView};
use crate::event::{MouseButton, MouseEventKind};
use crate::geometry::{context_menu_rect, pane_border_inner, pane_inner, split_areas, Rect, Split};
use crate::pane::{
    find_area, hit_test_separator, split_at_path, split_at_path_mut, HitView, Pane, PaneView,
    SeparatorHit,
};
use crate::tab::TabView;
use crate::text::{cat5, decimal_of};
use super::Action;

verus! {

// ---------------------------------------------------------------------------
// The context menu
// ---------------------------------------------------------------------------

/// The item of the context menu at `col`, `row`.
pub open spec fn menu_item_at(menu: ContextMenu, col: u16, row: u16, screen: Rect) -> Option<
    usize,
> {
    let rect = geometry::menu_area(menu.col, menu.row, screen);
    if rect.x + 1 <= col < rect.x + 1 + geometry::monus(rect.width as int, 2) && rect.y + 1 <= row < rect.y
        + 1 + CONTEXT_MENU_ITEMS@.len() {
        Some((row - rect.y - 1) as usize)
    } else {
        None
    }
}

fn context_menu_hit(col: u16, row: u16, last_area: Rect, menu: &ContextMenu) -> (r: Option<usize>)
    requires
        last_area.on_screen(),
    ensures
        r == menu_item_at(*menu, col, row, last_area),
{
    let rect = context_menu_rect(menu.col, menu.row, last_area);
    let left: u32 = rect.x as u32 + 1;
    let top: u32 = rect.y as u32 + 1;
    let width: u32 = rect.width.saturating_sub(2) as u32;
    let height: u32 = CONTEXT_MENU_ITEMS.len() as u32;
    if col as u32 >= left && (col as u32) < left + width && row as u32 >= top && (row as u32) < top
        + height {
        Some((row as u32 - top) as usize)
    } else {
        None
    }
}

impl AppView {
    /// Whether `now` is the application after an item of the context menu was
    /// chosen.
    pub open spec fn is_menu_chosen(self, now: AppView, action: Action, i: usize, full: Rect) -> bool {
        &&& action == (if i == 4 {
            Action::Quit
        } else {
            Action::Continue
        })
        &&& if i == 0 {
            now == self.with_new_tab()
        } else if i == 1 {
            self.is_closed_to(now, full)
        } else if i == 2 {
            self.is_split_to(now, Split::LeftRight, full)
        } else if i == 3 {
            self.is_split_to(now, Split::TopBottom, full)
        } else {
            now == self
        }
    }

    /// Whether `now` is the application after a mouse event while the context
    /// menu is open. The item under the mouse is marked; releasing the right
    /// button over an item chooses it; anything else closes the menu.
    pub open spec fn is_menu_moused(
        self,
        now: AppView,
        action: Action,
        menu: ContextMenu,
        kind: MouseEventKind,
        col: u16,
        row: u16,
        full: Rect,
    ) -> bool {
        let item = menu_item_at(menu, col, row, full);
        let closed = AppView { menu: None, ..self };
        if kind == MouseEventKind::Drag(MouseButton::Right) || kind == MouseEventKind::Moved {
            action == Action::Continue && now == (AppView {
                menu: Some(ContextMenu { selected: item, ..menu }),
                ..self
            })
        } else if kind == MouseEventKind::Up(MouseButton::Right) && item is Some {
            closed.is_menu_chosen(now, action, item->0, full)
        } else {
            action == Action::Continue && now == closed
        }
    }
}

fn execute_context_menu_action(app: &mut App, idx: usize, last_area: Rect) -> (r: Action)
    requires
        old(app)@.valid(),
    ensures
        old(app)@.is_menu_chosen(final(app)@, r, idx, last_area),
        final(app)@.valid(),
{
    match idx {
        0 => app.new_tab(),
        1 => app.close_focused_or_tab(last_area),
        2 => app.split_focused(Split::LeftRight, last_area),
        3 => app.split_focused(Split::TopBottom, last_area),
        4 => {
            return Action::Quit;
        },
        _ => {},
    }
    Action::Continue
}

fn handle_context_menu_mouse(
    app: &mut App,
    menu: ContextMenu,
    kind: MouseEventKind,
    col: u16,
    row: u16,
    last_area: Rect,
) -> (r: Action)
    requires
        old(app)@.valid(),
        old(app)@.menu == Some(menu),
        last_area.on_screen(),
    ensures
        old(app)@.is_menu_moused(final(app)@, r, menu, kind, col, row, last_area),
        final(app)@.valid(),
{
    let item = context_menu_hit(col, row, last_area, &menu);
    match kind {
        MouseEventKind::Drag(MouseButton::Right) | MouseEventKind::Moved => {
            app.context_menu = Some(
                ContextMenu { col: menu.col, row: menu.row, selected: item },
            );
            Action::Continue
        },
        MouseEventKind::Up(MouseButton::Right) => {
            app.context_menu = None;
            match item {
                Some(idx) => execute_context_menu_action(app, idx, last_area),
                None => Action::Continue,
            }
        },
        _ => {
            app.context_menu = None;
            Action::Continue
        },
    }
}

// ---------------------------------------------------------------------------
// Moving separators
// ---------------------------------------------------------------------------

/// The shares of two panes after the separator between them was moved by
/// `delta` cells. Each pane keeps at least three cells; where there is no room
/// for that the shares stay as they are.
pub open spec fn drag_ratios(start: (u16, u16), span: u16, delta: int) -> (u16, u16) {
    let total = start.0 + start.1;
    if span < 7 || total == 0 {
        start
    } else {
        let moved = start.0 * span / total + delta;
        let left = geometry::at_most(geometry::at_least(moved, 3), span - 3);
        let first = geometry::at_least(left * total / (span as int), 1) as u16;
        (first, geometry::at_least(geometry::monus((total as u16) as int, first as int), 1) as u16)
    }
}

/// Computes the shares of two panes after the separator between them was moved.
pub fn compute_drag_ratios(start_ratios: (u16, u16), span: u16, delta: i32) -> (r: (u16, u16))
    ensures
        r == drag_ratios(start_ratios, span, delta as int),
{
    let total: u32 = start_ratios.0 as u32 + start_ratios.1 as u32;
    if span < 7 || total == 0 {
        return start_ratios;
    }
    assert(start_ratios.0 * span <= 0xffff * 0xffff) by (nonlinear_arith)
        requires
            start_ratios.0 <= 0xffff,
            span <= 0xffff,
    ;
    let cells: u32 = start_ratios.0 as u32 * span as u32;
    let original: u32 = cells / total;
    let moved: i64 = original as i64 + delta as i64;
    let left: u64 = if moved < 3 {
        3
    } else if moved > span as i64 - 3 {
        span as u64 - 3
    } else {
        moved as u64
    };
    assert(left == geometry::at_most(geometry::at_least(moved as int, 3), span - 3));
    assert(left * total <= 0xffff * 0x1fffe) by (nonlinear_arith)
        requires
            left <= 0xffff,
            total <= 0x1fffe,
    ;
    let share: u64 = left * total as u64 / span as u64;
    let first: u16 = (if share >= 1 {
        share
    } else {
        1
    }) as u16;
    let rest: u16 = (total as u16).saturating_sub(first);
    (
        first,
        if rest >= 1 {
            rest
        } else {
            1
        },
    )
}

/// Moving a separator keeps the sum of the two shares, and leaves each pane a
/// share.
pub proof fn law_drag_keeps_total(start: (u16, u16), span: u16, delta: int)
    requires
        span >= 7,
        2 <= start.0 + start.1 <= u16::MAX,
    ensures
        drag_ratios(start, span, delta).0 + drag_ratios(start, span, delta).1 == start.0 + start.1,
        drag_ratios(start, span, delta).0 >= 1,
        drag_ratios(start, span, delta).1 >= 1,
{
    let total = start.0 + start.1;
    let moved = start.0 * span / total + delta;
    let left = geometry::at_most(geometry::at_least(moved, 3), span - 3);
    assert(0 <= left * total / (span as int) < total) by (nonlinear_arith)
        requires
            3 <= left < span,
            span >= 7,
            total >= 2,
    ;
}

/// Shares that are too narrow to move stay as they are.
pub proof fn law_narrow_panes_stay(start: (u16, u16), span: u16, delta: int)
    requires
        span < 7,
    ensures
        drag_ratios(start, span, delta) == start,
{
}

/// The tree with other shares for two panes of the split to which a path leads.
pub open spec fn with_shares(p: PaneView, path: Seq<usize>, i: usize, shares: (u16, u16)) -> PaneView {
    match pane::node_at(p, path) {
        Some(PaneView::Split { kind, children, ratios }) => if i + 1 < ratios.len() {
            pane::with_node(
                p,
                path,
                PaneView::Split {
                    kind,
                    children,
                    ratios: ratios.update(i as int, shares.0).update(i + 1, shares.1),
                },
            )
        } else {
            p
        },
        _ => p,
    }
}

fn set_shares(root: &mut Pane, path: &[usize], i: usize, shares: (u16, u16))
    ensures
        final(root)@ == with_shares(old(root)@, path@, i, shares),
{
    proof {
        pane::lemma_same_node(root@, path@);
    }
    if let Some(node) = split_at_path_mut(root, path) {
        if let Pane::Split { ratios, .. } = node {
            let n: usize = ratios.len();
            if i < n && i + 1 < n {
                ratios[i] = shares.0;
                ratios[i + 1] = shares.1;
            }
        }
    }
}

/// The room that two panes have together that are separated.
pub open spec fn shared_span(horizontal: bool, a: Rect, b: Rect) -> u16 {
    geometry::at_most(
        if horizontal {
            a.width + 1 + b.width
        } else {
            a.height + b.height
        },
        u16::MAX as int,
    ) as u16
}

impl AppView {
    /// The application after a separator was taken, where its split has the
    /// given shares and areas.
    pub open spec fn drag_started(
        self,
        h: HitView,
        ratios: Seq<u16>,
        areas: Seq<Rect>,
        col: u16,
        row: u16,
    ) -> AppView {
        let i = h.sep_idx as int;
        if i + 1 < ratios.len() && shared_span(h.horizontal, areas[i], areas[i + 1]) > 0 {
            AppView {
                drag: Some(
                    ResizeView {
                        path: h.path,
                        sep_idx: h.sep_idx,
                        horizontal: h.horizontal,
                        start_pos: if h.horizontal {
                            col
                        } else {
                            row
                        },
                        start_ratios: (ratios[i], ratios[i + 1]),
                        span: shared_span(h.horizontal, areas[i], areas[i + 1]),
                        split_area: h.split_area,
                    },
                ),
                ..self
            }
        } else {
            self
        }
    }

    /// Whether `now` is the application after a separator was taken.
    pub open spec fn is_drag_started(self, now: AppView, h: HitView, col: u16, row: u16) -> bool {
        match pane::node_at(self.tab().root, h.path) {
            Some(PaneView::Split { kind, ratios, .. }) => exists|areas: Seq<Rect>| #[trigger]
                geometry::is_split(h.split_area, kind, ratios, areas) && now == self.drag_started(
                    h,
                    ratios,
                    areas,
                    col,
                    row,
                ),
            _ => now == self,
        }
    }

    /// Whether `now` is the application after a mouse event while a separator is
    /// being moved. Anything but a movement lets it go.
    pub open spec fn is_drag_moused(
        self,
        now: AppView,
        d: ResizeView,
        kind: MouseEventKind,
        col: u16,
        row: u16,
        full: Rect,
    ) -> bool {
        if kind == MouseEventKind::Drag(MouseButton::Left) || kind == MouseEventKind::Moved {
            let pos = if d.horizontal {
                col
            } else {
                row
            };
            let shares = drag_ratios(d.start_ratios, d.span, pos - d.start_pos);
            self.with_tab(
                TabView {
                    root: with_shares(self.tab().root, d.path, d.sep_idx, shares),
                    ..self.tab()
                },
            ).is_resized_to(now, full)
        } else {
            now == (AppView { drag: None, ..self })
        }
    }

    /// Whether a mouse event may take a separator. While a pane is shown alone
    /// there are no separators.
    pub open spec fn may_take(self, kind: MouseEventKind) -> bool {
        !self.tab().zoom && kind == MouseEventKind::Down(MouseButton::Left)
    }
}

fn continue_drag(app: &mut App, kind: MouseEventKind, column: u16, row: u16, last_area: Rect)
    requires
        old(app)@.valid(),
        old(app)@.drag is Some,
    ensures
        old(app)@.is_drag_moused(final(app)@, old(app)@.drag->0, kind, column, row, last_area),
        final(app)@.valid(),
{
    match kind {
        MouseEventKind::Drag(MouseButton::Left) | MouseEventKind::Moved => {
            let mut drag: Option<PaneResizeDrag> = None;
            std::mem::swap(&mut drag, &mut app.pane_resize_drag);
            if let Some(d) = drag {
                let pos: u16 = if d.horizontal {
                    column
                } else {
                    row
                };
                let delta: i32 = pos as i32 - d.start_pos as i32;
                let shares = compute_drag_ratios(d.start_ratios, d.span, delta);
                set_shares(&mut app.tab_mut().root, d.path.as_slice(), d.sep_idx, shares);
                app.pane_resize_drag = Some(d);
                let ghost mid = app@;
                assert(mid =~= old(app)@.with_tab(
                    TabView {
                        root: with_shares(old(app)@.tab().root, d.path@, d.sep_idx, shares),
                        ..old(app)@.tab()
                    },
                ));
                app.resize_all(last_area);
            }
        },
        _ => {
            app.pane_resize_drag = None;
        },
    }
}

fn take_separator(app: &mut App, hit: SeparatorHit, column: u16, row: u16)
    requires
        old(app)@.valid(),
    ensures
        old(app)@.is_drag_started(final(app)@, hit@, column, row),
        final(app)@.valid(),
{
    let ghost root = app@.tab().root;
    let found = match split_at_path(&app.tab().root, hit.path.as_slice()) {
        Some(Pane::Split { kind, ratios, .. }) => {
            let areas = split_areas(hit.split_area, *kind, ratios);
            assert(geometry::is_split(hit.split_area, *kind, ratios@, areas@));
            let i: usize = hit.sep_idx;
            if i < ratios.len() && i + 1 < ratios.len() {
                let span: u16 = if hit.horizontal {
                    areas[i].width.saturating_add(1).saturating_add(areas[i + 1].width)
                } else {
                    areas[i].height.saturating_add(areas[i + 1].height)
                };
                assert(span == shared_span(hit.horizontal, areas@[i as int], areas@[i + 1]));
                Some((span, ratios[i], ratios[i + 1]))
            } else {
                None
            }
        },
        _ => None,
    };
    if let Some((span, first, second)) = found {
        if span > 0 {
            let start_pos: u16 = if hit.horizontal {
                column
            } else {
                row
            };
            app.pane_resize_drag = Some(
                PaneResizeDrag {
                    path: hit.path,
                    sep_idx: hit.sep_idx,
                    horizontal: hit.horizontal,
                    start_pos,
                    start_ratios: (first, second),
                    span,
                    split_area: hit.split_area,
                },
            );
        }
    }
}

// ---------------------------------------------------------------------------
// Browsers
// ---------------------------------------------------------------------------

impl SftpView {
    /// The browser after a mouse event. Letting a file go over the other panel
    /// starts a transfer.
    #[verifier::opaque]
    pub open spec fn moused(
        self,
        kind: MouseEventKind,
        col: u16,
        row: u16,
        area: Rect,
        leaf_count: usize,
        now: u64,
    ) -> SftpView {
        let s = SftpView { core: self.core.moused(kind, col, row, area, leaf_count), ..self };
        match self.core.mouse_action(kind, col, area, leaf_count) {
            Some(DragAction::LocalToRemote) => s.transfer_asked(TransferDirection::Upload, now),
            Some(DragAction::RemoteToLocal) => s.transfer_asked(TransferDirection::Download, now),
            None => s,
        }
    }
}

impl SshView {
    /// The browser after a mouse event. Letting a file go over the other panel
    /// starts a transfer.
    #[verifier::opaque]
    pub open spec fn moused(
        self,
        kind: MouseEventKind,
        col: u16,
        row: u16,
        area: Rect,
        leaf_count: usize,
    ) -> SshView {
        let s = SshView { core: self.core.moused(kind, col, row, area, leaf_count), ..self };
        match self.core.mouse_action(kind, col, area, leaf_count) {
            Some(DragAction::LocalToRemote) => s.transfer_asked(TransferDirection::Upload),
            Some(DragAction::RemoteToLocal) => s.transfer_asked(TransferDirection::Download),
            None => s,
        }
    }
}

impl FileBrowser {
    /// Handles a mouse event.
    pub fn mouse(
        &mut self,
        kind: MouseEventKind,
        col: u16,
        row: u16,
        area: Rect,
        leaf_count: usize,
        now: u64,
    )
        ensures
            final(self)@ == old(self)@.moused(kind, col, row, area, leaf_count, now),
    {
        reveal(SftpView::moused);
        match self.core.handle_mouse(kind, col, row, area, leaf_count) {
            Some(DragAction::LocalToRemote) => self.upload(now),
            Some(DragAction::RemoteToLocal) => self.download(now),
            None => {},
        }
    }
}

impl SshBrowser {
    /// Handles a mouse event.
    pub fn mouse(
        &mut self,
        kind: MouseEventKind,
        col: u16,
        row: u16,
        area: Rect,
        leaf_count: usize,
    )
        ensures
            final(self)@ == old(self)@.moused(kind, col, row, area, leaf_count),
    {
        reveal(SshView::moused);
        match self.core.handle_mouse(kind, col, row, area, leaf_count) {
            Some(DragAction::LocalToRemote) => self.upload(),
            Some(DragAction::RemoteToLocal) => self.download(),
            None => {},
        }
    }
}

/// The leaf after a mouse event, where it is a browser.
pub open spec fn leaf_moused(
    p: PaneView,
    kind: MouseEventKind,
    col: u16,
    row: u16,
    area: Rect,
    leaf_count: usize,
    now: u64,
) -> PaneView {
    match p {
        PaneView::FileBrowser { browser } => PaneView::FileBrowser {
            browser: browser.moused(kind, col, row, area, leaf_count, now),
        },
        PaneView::SshBrowser { browser } => PaneView::SshBrowser {
            browser: browser.moused(kind, col, row, area, leaf_count),
        },
        _ => p,
    }
}

fn mouse_on_leaf(
    pane: &mut Pane,
    kind: MouseEventKind,
    col: u16,
    row: u16,
    area: Rect,
    leaf_count: usize,
    now: u64,
)
    ensures
        final(pane)@ == leaf_moused(old(pane)@, kind, col, row, area, leaf_count, now),
{
    match pane {
        Pane::FileBrowser { browser } => browser.mouse(kind, col, row, area, leaf_count, now),
        Pane::SshBrowser { browser } => browser.mouse(kind, col, row, area, leaf_count),
        _ => {},
    }
}

// ---------------------------------------------------------------------------
// Sessions
// ---------------------------------------------------------------------------

/// The number of lines by which the wheel scrolls.
pub const WHEEL_LINES: usize = 3;

/// How a mouse event is encoded for a process: the code of the button, and
/// whether it is let go. Movements are only told where the process wants to know
/// of them.
pub open spec fn button_code(kind: MouseEventKind, wants_motion: bool) -> Option<(u64, bool)> {
    match kind {
        MouseEventKind::Down(MouseButton::Left) => Some((0, false)),
        MouseEventKind::Up(MouseButton::Left) => Some((0, true)),
        MouseEventKind::Down(MouseButton::Middle) => Some((1, false)),
        MouseEventKind::Up(MouseButton::Middle) => Some((1, true)),
        MouseEventKind::ScrollUp => Some((64, false)),
        MouseEventKind::ScrollDown => Some((65, false)),
        MouseEventKind::Drag(MouseButton::Left) => Some((32, false)),
        MouseEventKind::Drag(MouseButton::Middle) => Some((33, false)),
        MouseEventKind::Moved => if wants_motion {
            Some((35, false))
        } else {
            None
        },
        _ => None,
    }
}

/// What is sent for a mouse event at a cell of a session, counted from zero.
pub open spec fn mouse_report(kind: MouseEventKind, col: int, row: int, wants_motion: bool) -> Option<
    Seq<char>,
> {
    match button_code(kind, wants_motion) {
        Some((code, up)) => Some(
            "\x1b[<"@ + text::decimal(code as nat) + ";"@ + text::decimal((col + 1) as nat) + (";"@ + text::decimal(
                (row + 1) as nat,
            ) + if up {
                "m"@
            } else {
                "M"@
            }),
        ),
        None => None,
    }
}

/// What is sent for a mouse event at a cell of a session, counted from zero.
pub fn mouse_sequence(kind: MouseEventKind, col: u16, row: u16, wants_motion: bool) -> (r: Option<
    String,
>)
    ensures
        (match r {
            Some(s) => Some(s@),
            None => None,
        }) == mouse_report(kind, col as int, row as int, wants_motion),
{
    let code: u64 = match kind {
        MouseEventKind::Down(MouseButton::Left) => 0,
        MouseEventKind::Up(MouseButton::Left) => 0,
        MouseEventKind::Down(MouseButton::Middle) => 1,
        MouseEventKind::Up(MouseButton::Middle) => 1,
        MouseEventKind::ScrollUp => 64,
        MouseEventKind::ScrollDown => 65,
        MouseEventKind::Drag(MouseButton::Left) => 32,
        MouseEventKind::Drag(MouseButton::Middle) => 33,
        MouseEventKind::Moved => {
            if !wants_motion {
                return None;
            }
            35
        },
        _ => {
            return None;
        },
    };
    let letter = if matches!(kind, MouseEventKind::Up(_)) {
        "m"
    } else {
        "M"
    };
    let at = crate::text::cat3(";", decimal_of(row as u64 + 1).as_str(), letter);
    Some(
        cat5(
            "\x1b[<",
            decimal_of(code).as_str(),
            ";",
            decimal_of(col as u64 + 1).as_str(),
            at.as_str(),
        ),
    )
}

/// What is sent for the wheel in a program that has the whole screen.
pub open spec fn wheel_key(kind: MouseEventKind, app_cursor: bool) -> Seq<char> {
    if kind == MouseEventKind::ScrollUp {
        if app_cursor {
            "\x1bOA"@
        } else {
            "\x1b[A"@
        }
    } else {
        if app_cursor {
            "\x1bOB"@
        } else {
            "\x1b[B"@
        }
    }
}

fn wheel_sequence(kind: MouseEventKind, app_cursor: bool) -> (r: &'static str)
    ensures
        r@ == wheel_key(kind, app_cursor),
{
    if let MouseEventKind::ScrollUp = kind {
        if app_cursor {
            "\x1bOA"
        } else {
            "\x1b[A"
        }
    } else {
        if app_cursor {
            "\x1bOB"
        } else {
            "\x1b[B"
        }
    }
}

/// Whether an event is a turn of the wheel.
pub open spec fn is_wheel(kind: MouseEventKind) -> bool {
    kind == MouseEventKind::ScrollUp || kind == MouseEventKind::ScrollDown
}

/// The leaf after a turn of the wheel, where it is a session.
pub open spec fn leaf_scrolled(p: PaneView, back: bool) -> PaneView {
    match p {
        PaneView::Session { terminal, ssh_args, exit_selection } => PaneView::Session {
            terminal: terminal.scrolled(WHEEL_LINES, back),
            ssh_args,
            exit_selection,
        },
        _ => p,
    }
}

fn scroll_leaf(pane: &mut Pane, back: bool)
    ensures
        final(pane)@ == leaf_scrolled(old(pane)@, back),
{
    if let Pane::Session { terminal, .. } = pane {
        if back {
            terminal.scroll_up(WHEEL_LINES);
        } else {
            terminal.scroll_down(WHEEL_LINES);
        }
    }
}

/// What a mouse event needs to know of a leaf.
#[derive(Clone, Copy, Debug, PartialEq, Eq, Structural)]
pub struct MouseWishes {
    /// Whether the process wants mouse events.
    pub active: bool,
    /// Whether the process has the whole screen.
    pub whole_screen: bool,
    /// Whether the process wants to know of movements.
    pub motion: bool,
}

/// What a mouse event needs to know of a leaf, where there is one.
pub open spec fn wishes_of(p: Option<PaneView>) -> MouseWishes {
    match p {
        Some(PaneView::Session { terminal, .. }) => MouseWishes {
            active: terminal.wants_mouse(),
            whole_screen: terminal.alternate_screen,
            motion: terminal.mouse_wants_motion,
        },
        _ => MouseWishes { active: false, whole_screen: false, motion: false },
    }
}

fn mouse_wishes(p: Option<&Pane>) -> (r: MouseWishes)
    ensures
        r == wishes_of(
            match p {
                Some(q) => Some(q@),
                None => None,
            },
        ),
{
    match p {
        Some(Pane::Session { terminal, .. }) => MouseWishes {
            active: terminal.mouse_active && !terminal.exited,
            whole_screen: terminal.alternate_screen,
            motion: terminal.mouse_wants_motion,
        },
        _ => MouseWishes { active: false, whole_screen: false, motion: false },
    }
}

impl AppView {
    /// The application with the leaf numbered `i` of the selected tab replaced.
    pub open spec fn with_pane(self, i: usize, p: PaneView) -> AppView {
        self.with_tab(TabView { root: pane::with_leaf(self.tab().root, i as int, p), ..self.tab() })
    }

    /// The application after a mouse event over a session. The wheel scrolls the
    /// output of a process that does not want mouse events, or is told as cursor
    /// keys where it has the whole screen. Other events are told to a process
    /// that wants them, but not the one that gives its pane the focus.
    pub open spec fn session_moused(
        self,
        kind: MouseEventKind,
        col: u16,
        row: u16,
        pane_idx: usize,
        pane_area: Rect,
        same_pane: bool,
        zoom_active: bool,
    ) -> AppView {
        let leaf = pane::leaf_at(self.tab().root, pane_idx as int);
        let wishes = wishes_of(leaf);
        if !wishes.active && is_wheel(kind) {
            if wishes.whole_screen {
                self.sent(wheel_key(kind, self.app_cursor()))
            } else {
                match leaf {
                    Some(p) => self.with_pane(
                        pane_idx,
                        leaf_scrolled(p, kind == MouseEventKind::ScrollUp),
                    ),
                    None => self,
                }
            }
        } else if !(same_pane && wishes.active) {
            self
        } else {
            let inner = if !zoom_active && pane::count(self.tab().root) > 1 {
                geometry::below_title(pane_area)
            } else {
                pane_area
            };
            match mouse_report(
                kind,
                geometry::monus(col as int, inner.x as int),
                geometry::monus(row as int, inner.y as int),
                wishes.motion,
            ) {
                Some(s) => self.sent(s),
                None => self,
            }
        }
    }
}

/// Handles a mouse event over a session.
pub fn handle_session_mouse(
    app: &mut App,
    kind: MouseEventKind,
    column: u16,
    row: u16,
    pane_idx: usize,
    pane_area: Rect,
    same_pane: bool,
    zoom_active: bool,
)
    requires
        old(app)@.valid(),
    ensures
        final(app)@ == old(app)@.session_moused(
            kind,
            column,
            row,
            pane_idx,
            pane_area,
            same_pane,
            zoom_active,
        ),
        final(app)@.valid(),
{
    let wishes = mouse_wishes(app.tab().root.leaf(pane_idx));
    let wheel = matches!(kind, MouseEventKind::ScrollUp | MouseEventKind::ScrollDown);
    if !wishes.active && wheel {
        if wishes.whole_screen {
            let app_cursor = app.focused_pane_app_cursor();
            app.send_str(wheel_sequence(kind, app_cursor));
        } else {
            let back = matches!(kind, MouseEventKind::ScrollUp);
            let ghost before = app@;
            let tab = app.tab_mut();
            if let Some(pane) = tab.root.leaf_mut(pane_idx) {
                scroll_leaf(pane, back);
            }
            proof {
                crate::app::lemma_same_tab(before);
            }
        }
        return ;
    }
    if !(same_pane && wishes.active) {
        return ;
    }
    let inner = if !zoom_active && app.tab().leaf_count() > 1 {
        pane_border_inner(pane_area)
    } else {
        pane_area
    };
    let col: u16 = column.saturating_sub(inner.x);
    let line: u16 = row.saturating_sub(inner.y);
    if let Some(s) = mouse_sequence(kind, col, line, wishes.motion) {
        app.send_str(s.as_str());
    }
}

// ---------------------------------------------------------------------------
// All mouse events
// ---------------------------------------------------------------------------

impl AppView {
    /// The application after a mouse event over a pane. Pressing a button gives
    /// the pane the focus; the right button opens the context menu.
    pub open spec fn pane_moused(
        self,
        kind: MouseEventKind,
        col: u16,
        row: u16,
        pane_idx: usize,
        pane_area: Rect,
        zoom_active: bool,
        now: u64,
    ) -> AppView {
        let s = if kind is Down {
            self.with_tab(TabView { focus: pane_idx, ..self.tab() })
        } else {
            self
        };
        let leaf_count = if zoom_active {
            1
        } else {
            geometry::at_most(pane::count(self.tab().root) as int, usize::MAX as int) as usize
        };
        if kind == MouseEventKind::Down(MouseButton::Right) {
            AppView { menu: Some(ContextMenu { col, row, selected: None }), ..s }
        } else {
            match pane::leaf_at(self.tab().root, pane_idx as int) {
                Some(PaneView::FileBrowser { .. }) | Some(PaneView::SshBrowser { .. }) => match s.focused() {
                    Some(p) => s.with_focused(
                        leaf_moused(p, kind, col, row, pane_area, leaf_count, now),
                    ),
                    None => s,
                },
                _ => s.session_moused(
                    kind,
                    col,
                    row,
                    pane_idx,
                    pane_area,
                    pane_idx == self.tab().focus,
                    zoom_active,
                ),
            }
        }
    }

    /// Whether `now` is the application after a mouse event that neither the
    /// menu nor a separator has taken. A pane that is shown alone fills the
    /// screen.
    pub open spec fn is_panes_moused(
        self,
        now: AppView,
        kind: MouseEventKind,
        col: u16,
        row: u16,
        full: Rect,
        time: u64,
    ) -> bool {
        let content = geometry::above_tab_bar(full);
        if self.tab().zoom && pane::count(self.tab().root) > 1 {
            now == self.pane_moused(kind, col, row, self.tab().focus, content, true, time)
        } else {
            exists|areas: Seq<Rect>| #[trigger]
                pane::is_layout(self.tab().root, content, areas) && now == self.areas_moused(
                    kind,
                    col,
                    row,
                    areas,
                    time,
                )
        }
    }

    /// The application after a mouse event, where the panes have the given areas.
    pub open spec fn areas_moused(
        self,
        kind: MouseEventKind,
        col: u16,
        row: u16,
        areas: Seq<Rect>,
        time: u64,
    ) -> AppView {
        let i = pane::area_at(areas, col, row, 0);
        if i < areas.len() {
            self.pane_moused(kind, col, row, i as usize, areas[i], false, time)
        } else {
            self
        }
    }

    /// Whether `now` is the application after a mouse event. The context menu
    /// comes first, then a separator that is being moved or taken, then the
    /// panes.
    pub open spec fn is_moused(
        self,
        now: AppView,
        action: Action,
        kind: MouseEventKind,
        col: u16,
        row: u16,
        full: Rect,
        time: u64,
    ) -> bool {
        match (self.menu, self.drag) {
            (Some(menu), _) => self.is_menu_moused(now, action, menu, kind, col, row, full),
            (None, Some(d)) => action == Action::Continue && self.is_drag_moused(
                now,
                d,
                kind,
                col,
                row,
                full,
            ),
            (None, None) => {
                &&& action == Action::Continue
                &&& if self.may_take(kind) {
                    exists|hit: Option<HitView>| #[trigger]
                        pane::is_hit(self.tab().root, geometry::above_tab_bar(full), col, row, hit) && (match hit {
                            Some(h) => self.is_drag_started(now, h, col, row),
                            None => self.is_panes_moused(now, kind, col, row, full, time),
                        })
                } else {
                    self.is_panes_moused(now, kind, col, row, full, time)
                }
            },
        }
    }
}

/// Handles a mouse event over a pane.
pub fn handle_pane_mouse(
    app: &mut App,
    kind: MouseEventKind,
    column: u16,
    row: u16,
    pane_idx: usize,
    pane_area: Rect,
    zoom_active: bool,
    now: u64,
)
    requires
        old(app)@.valid(),
    ensures
        final(app)@ == old(app)@.pane_moused(
            kind,
            column,
            row,
            pane_idx,
            pane_area,
            zoom_active,
            now,
        ),
        final(app)@.valid(),
{
    let same_pane = pane_idx == app.tab().focus_idx;
    if let MouseEventKind::Down(_) = kind {
        app.tab_mut().focus_idx = pane_idx;
    }
    if let MouseEventKind::Down(MouseButton::Right) = kind {
        app.context_menu = Some(ContextMenu { col: column, row, selected: None });
        return ;
    }
    let is_browser = match app.tab().root.leaf(pane_idx) {
        Some(p) => p.is_browser(),
        None => false,
    };
    if is_browser {
        let leaf_count: usize = if zoom_active {
            1
        } else {
            app.tab().leaf_count()
        };
        if let Some(pane) = app.focused_pane_mut() {
            mouse_on_leaf(pane, kind, column, row, pane_area, leaf_count, now);
        }
        return ;
    }
    handle_session_mouse(app, kind, column, row, pane_idx, pane_area, same_pane, zoom_active);
}

fn handle_panes_mouse(
    app: &mut App,
    kind: MouseEventKind,
    column: u16,
    row: u16,
    last_area: Rect,
    now: u64,
)
    requires
        old(app)@.valid(),
    ensures
        old(app)@.is_panes_moused(final(app)@, kind, column, row, last_area, now),
        final(app)@.valid(),
{
    let content = pane_inner(last_area);
    if app.tab().zoom && app.tab().leaf_count() > 1 {
        let focus: usize = app.tab().focus_idx;
        handle_pane_mouse(app, kind, column, row, focus, content, true, now);
    } else {
        let areas = app.tab().root.leaf_areas(content);
        assert(pane::is_layout(old(app)@.tab().root, geometry::above_tab_bar(last_area), areas@));
        handle_areas_mouse(app, kind, column, row, &areas, now);
    }
}

/// Handles a mouse event, where the panes have the given areas.
pub fn handle_areas_mouse(
    app: &mut App,
    kind: MouseEventKind,
    column: u16,
    row: u16,
    areas: &Vec<Rect>,
    now: u64,
)
    requires
        old(app)@.valid(),
    ensures
        final(app)@ == old(app)@.areas_moused(kind, column, row, areas@, now),
        final(app)@.valid(),
{
    let i: usize = find_area(areas, column, row);
    if i < areas.len() {
        handle_pane_mouse(app, kind, column, row, i, areas[i], false, now);
    }
}

/// Handles a mouse event.
pub fn handle_mouse(
    app: &mut App,
    kind: MouseEventKind,
    column: u16,
    row: u16,
    last_area: Rect,
    now: u64,
) -> (r: Action)
    requires
        old(app)@.valid(),
        last_area.on_screen(),
    ensures
        old(app)@.is_moused(final(app)@, r, kind, column, row, last_area, now),
        final(app)@.valid(),
{
    if let Some(menu) = app.context_menu {
        return handle_context_menu_mouse(app, menu, kind, column, row, last_area);
    }
    if app.pane_resize_drag.is_some() {
        continue_drag(app, kind, column, row, last_area);
        return Action::Continue;
    }
    if !app.tab().zoom && matches!(kind, MouseEventKind::Down(MouseButton::Left)) {
        let content = pane_inner(last_area);
        let hit = hit_test_separator(&app.tab().root, content, column, row);
        assert(pane::is_hit(
            old(app)@.tab().root,
            geometry::above_tab_bar(last_area),
            column,
            row,
            match hit {
                Some(h) => Some(h@),
                None => None,
            },
        ));
        if let Some(h) = hit {
            take_separator(app, h, column, row);
            return Action::Continue;
        }
    }
    handle_panes_mouse(app, kind, column, row, last_area, now);
    Action::Continue
}

} // verus!
