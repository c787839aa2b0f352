//! Keys that work in every pane: leaving, tabs, focus, dividing, closing, zoom.
use vstd::prelude::*;
use crate::geometry;
use crate::pane;
use crate::app::{App, AppView};
use crate::event::KeyCode;
use crate::geometry::{pane_inner, Rect, Split};
use crate::keybindings::GlobalBindings;

use crate::tab::{FocusDir, TabView};
use super::Action;

verus! {

/// The direction in which a key moves the focus.
pub open spec fn direction_of(
    g: GlobalBindings,
    code: KeyCode,
    ctrl: bool,
    alt: bool,
    shift: bool,
) -> Option<FocusDir> {
    if g.focus_left.fits(code, ctrl, alt, shift) {
        Some(FocusDir::Left)
    } else if g.focus_right.fits(code, ctrl, alt, shift) {
        Some(FocusDir::Right)
    } else if g.focus_up.fits(code, ctrl, alt, shift) {
        Some(FocusDir::Up)
    } else if g.focus_down.fits(code, ctrl, alt, shift) {
        Some(FocusDir::Down)
    } else {
        None
    }
}

fn direction(g: &GlobalBindings, code: KeyCode, ctrl: bool, alt: bool, shift: bool) -> (r: Option<
    FocusDir,
>)
    ensures
        r == direction_of(*g, code, ctrl, alt, shift),
{
    if g.focus_left.matches(code, ctrl, alt, shift) {
        Some(FocusDir::Left)
    } else if g.focus_right.matches(code, ctrl, alt, shift) {
        Some(FocusDir::Right)
    } else if g.focus_up.matches(code, ctrl, alt, shift) {
        Some(FocusDir::Up)
    } else if g.focus_down.matches(code, ctrl, alt, shift) {
        Some(FocusDir::Down)
    } else {
        None
    }
}

/// Whether a key works in every pane.
pub open spec fn is_global(
    g: GlobalBindings,
    code: KeyCode,
    ctrl: bool,
    alt: bool,
    shift: bool,
) -> bool {
    g.quit.fits(code, ctrl, alt, shift) || g.prev_tab.fits(code, ctrl, alt, shift)
        || g.next_tab.fits(code, ctrl, alt, shift) || direction_of(g, code, ctrl, alt, shift) is Some
        || g.close.fits(code, ctrl, alt, shift) || g.new_tab.fits(code, ctrl, alt, shift)
        || g.split_horizontal.fits(code, ctrl, alt, shift) || g.split_vertical.fits(
        code,
        ctrl,
        alt,
        shift,
    ) || g.zoom.fits(code, ctrl, alt, shift)
}

impl AppView {
    /// The application with another tab selected. A separator that is being
    /// moved is let go.
    pub open spec fn with_selected_tab(self, i: int) -> AppView {
        AppView { selected: i as usize, drag: None, ..self }
    }

    /// The tab before the selected one, and the last one before the first.
    pub open spec fn previous_tab(self) -> int {
        if self.selected > 0 {
            self.selected - 1
        } else {
            self.tabs.len() - 1
        }
    }

    /// The tab after the selected one, and the first one after the last.
    pub open spec fn next_tab(self) -> int {
        if self.selected + 1 < self.tabs.len() {
            self.selected + 1
        } else {
            0
        }
    }

    /// Whether `now` is the application after the focus was moved. A pane that is
    /// shown alone gets its size.
    pub open spec fn is_focus_moved_to(self, now: AppView, dir: FocusDir, full: Rect) -> bool {
        let moved = TabView { focus: now.tab().focus, ..self.tab() };
        &&& exists|areas: Seq<Rect>| #[trigger]
            pane::is_layout(self.tab().root, geometry::above_tab_bar(full), areas) && self.tab().is_focus_moved(
                moved,
                areas,
                dir,
            )
        &&& if self.tab().zoom {
            self.with_tab(moved).is_resized_to(now, full)
        } else {
            now == self.with_tab(moved)
        }
    }

    /// Whether `now` is the application after the pane with the focus was shown
    /// alone, or again with the others.
    pub open spec fn is_zoomed_to(self, now: AppView, full: Rect) -> bool {
        let toggled = AppView {
            drag: None,
            ..self.with_tab(TabView { zoom: !self.tab().zoom, ..self.tab() })
        };
        if pane::count(self.tab().root) <= 1 {
            now == self
        } else if self.tab().zoom {
            toggled.is_resized_to(now, full)
        } else {
            match toggled.focused() {
                Some(p) => now == toggled.with_focused(pane::leaf_resized(p, geometry::above_tab_bar(full))),
                None => now == toggled,
            }
        }
    }

    /// Whether `now` is the application after a key that works in every pane.
    pub open spec fn is_global_keyed(
        self,
        now: AppView,
        action: Action,
        code: KeyCode,
        ctrl: bool,
        alt: bool,
        shift: bool,
        full: Rect,
    ) -> bool {
        let g = self.keybindings.global;
        let dir = direction_of(g, code, ctrl, alt, shift);
        if g.quit.fits(code, ctrl, alt, shift) {
            action == Action::Quit && now == self
        } else {
            &&& action == Action::Continue
            &&& if g.prev_tab.fits(code, ctrl, alt, shift) {
                now == self.with_selected_tab(self.previous_tab())
            } else if g.next_tab.fits(code, ctrl, alt, shift) {
                now == self.with_selected_tab(self.next_tab())
            } else if dir is Some {
                self.is_focus_moved_to(now, dir->0, full)
            } else if g.close.fits(code, ctrl, alt, shift) {
                self.is_closed_to(now, full)
            } else if g.new_tab.fits(code, ctrl, alt, shift) {
                now == self.with_new_tab()
            } else if g.split_horizontal.fits(code, ctrl, alt, shift) {
                self.is_split_to(now, Split::TopBottom, full)
            } else if g.split_vertical.fits(code, ctrl, alt, shift) {
                self.is_split_to(now, Split::LeftRight, full)
            } else {
                self.is_zoomed_to(now, full)
            }
        }
    }
}

fn move_focus(app: &mut App, dir: FocusDir, full: Rect)
    requires
        old(app)@.valid(),
    ensures
        old(app)@.is_focus_moved_to(final(app)@, dir, full),
        final(app)@.valid(),
{
    let content = pane_inner(full);
    let areas = app.tab().root.leaf_areas(content);
    assert(pane::is_layout(old(app)@.tab().root, geometry::above_tab_bar(full), areas@));
    app.tab_mut().focus_among(&areas, dir);
    let ghost moved = app@.tab();
    assert(old(app)@.tab().is_focus_moved(moved, areas@, dir));
    assert(moved == (TabView { focus: moved.focus, ..old(app)@.tab() }));
    assert(app@ == old(app)@.with_tab(moved));
    if app.tab().zoom {
        let ghost mid = app@;
        app.resize_all(full);
        assert(mid.tabs[mid.selected as int].is_resized_to(
            app@.tabs[mid.selected as int],
            geometry::above_tab_bar(full),
        ));
    }
}

fn toggle_zoom(app: &mut App, full: Rect)
    requires
        old(app)@.valid(),
    ensures
        old(app)@.is_zoomed_to(final(app)@, full),
        final(app)@.valid(),
{
    if app.tab().leaf_count() <= 1 {
        return ;
    }
    let zoom = app.tab().zoom;
    app.tab_mut().zoom = !zoom;
    app.pane_resize_drag = None;
    let ghost toggled = app@;
    assert(toggled == (AppView {
        drag: None,
        ..old(app)@.with_tab(TabView { zoom: !zoom, ..old(app)@.tab() })
    }));
    if zoom {
        app.resize_all(full);
    } else if let Some(pane) = app.focused_pane_mut() {
        pane.resize_leaf(pane_inner(full));
    }
}

/// Handles a key that works in every pane. Returns nothing for other keys.
pub fn handle_global_key(
    app: &mut App,
    code: KeyCode,
    ctrl: bool,
    alt: bool,
    shift: bool,
    last_area: Rect,
) -> (r: Option<Action>)
    requires
        old(app)@.valid(),
    ensures
        r is Some <==> is_global(old(app)@.keybindings.global, code, ctrl, alt, shift),
        r is Some ==> old(app)@.is_global_keyed(
            final(app)@,
            r->0,
            code,
            ctrl,
            alt,
            shift,
            last_area,
        ),
        r is None ==> final(app)@ == old(app)@,
        final(app)@.valid(),
{
    let g = app.keybindings.global;
    if g.quit.matches(code, ctrl, alt, shift) {
        return Some(Action::Quit);
    }
    if g.prev_tab.matches(code, ctrl, alt, shift) {
        if app.selected_tab > 0 {
            app.selected_tab = app.selected_tab - 1;
        } else {
            app.selected_tab = app.tabs.len() - 1;
        }
        app.pane_resize_drag = None;
        return Some(Action::Continue);
    }
    if g.next_tab.matches(code, ctrl, alt, shift) {
        if app.selected_tab < app.tabs.len() - 1 {
            app.selected_tab = app.selected_tab + 1;
        } else {
            app.selected_tab = 0;
        }
        app.pane_resize_drag = None;
        return Some(Action::Continue);
    }
    if let Some(dir) = direction(&g, code, ctrl, alt, shift) {
        move_focus(app, dir, last_area);
        return Some(Action::Continue);
    }
    if g.close.matches(code, ctrl, alt, shift) {
        app.close_focused_or_tab(last_area);
        return Some(Action::Continue);
    }
    if g.new_tab.matches(code, ctrl, alt, shift) {
        app.new_tab();
        return Some(Action::Continue);
    }
    if g.split_horizontal.matches(code, ctrl, alt, shift) {
        app.split_focused(Split::TopBottom, last_area);
        return Some(Action::Continue);
    }
    if g.split_vertical.matches(code, ctrl, alt, shift) {
        app.split_focused(Split::LeftRight, last_area);
        return Some(Action::Continue);
    }
    if g.zoom.matches(code, ctrl, alt, shift) {
        toggle_zoom(app, last_area);
        return Some(Action::Continue);
    }
    None
}

/// Going to the next tab and back ends at the tab where it began.
pub proof fn law_next_and_previous_tab(a: AppView)
    requires
        a.valid(),
        a.tabs.len() <= usize::MAX,
    ensures
        a.with_selected_tab(a.next_tab()).previous_tab() == a.selected,
        a.with_selected_tab(a.previous_tab()).next_tab() == a.selected,
{
}

} // verus!
