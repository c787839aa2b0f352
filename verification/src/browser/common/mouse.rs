//! Clicking, dragging and releasing across the two panels.
use vstd::prelude::*;
use crate::browser;
use crate::geometry;
use crate::text;
use super::{BrowserCore, BrowserFocus, CoreView, DragAction, DragState, DragView};
use crate::browser::browser_layout;
use crate::event::{MouseButton, MouseEventKind};
use crate::geometry::{pane_border_inner, Rect};
use crate::text::{cat, decimal_of};

verus! {

/// The area of a browser inside its pane, which has a title bar where there
/// are several panes.
pub open spec fn browser_area(pane: Rect, leaf_count: usize) -> Rect {
    if leaf_count > 1 {
        geometry::below_title(pane)
    } else {
        pane
    }
}

/// Whether a column belongs to the remote panel.
pub open spec fn over_remote(col: u16, pane: Rect, leaf_count: usize) -> bool {
    col >= browser::layout_of(browser_area(pane, leaf_count)).remote_panel.x
}

/// The row of a list that is shown in row `row` of the screen, where the list
/// fills the inside of the border of `panel`.
pub open spec fn row_shown_at(panel: Rect, offset: usize, row: u16) -> Option<int> {
    if panel.y + 1 <= row < panel.y + 1 + geometry::monus(panel.height as int, 2) {
        Some(offset + (row - (panel.y + 1)))
    } else {
        None
    }
}

impl CoreView {
    /// The state after a click on a cell of the screen: the entry that is
    /// shown there is under the cursor; where none is, there is no cursor.
    pub open spec fn clicked_at(
        self,
        col: u16,
        row: u16,
        pane: Rect,
        leaf_count: usize,
    ) -> CoreView {
        let layout = browser::layout_of(browser_area(pane, leaf_count));
        if over_remote(col, pane, leaf_count) {
            match row_shown_at(layout.remote_panel, self.remote.sel.offset, row) {
                None => self.deselected(true),
                Some(i) => if i < self.remote.entries.len() {
                    CoreView {
                        remote: self.remote.with_sel(
                            self.remote.sel.with_selected(Some(i as usize)),
                        ),
                        ..self
                    }.redrawn()
                } else {
                    self.deselected(true)
                },
            }
        } else {
            match self.drive_picker {
                Some((drives, sel)) => match row_shown_at(layout.local_panel, sel.offset, row) {
                    None => self.deselected(false),
                    Some(i) => if i < drives.len() {
                        CoreView {
                            drive_picker: Some((drives, sel.with_selected(Some(i as usize)))),
                            ..self
                        }.redrawn()
                    } else {
                        self
                    },
                },
                None => match row_shown_at(layout.local_panel, self.local.sel.offset, row) {
                    None => self.deselected(false),
                    Some(i) => if i < self.local.entries.len() {
                        CoreView {
                            local: self.local.with_sel(
                                self.local.sel.with_selected(Some(i as usize)),
                            ),
                            ..self
                        }.redrawn()
                    } else {
                        self.deselected(false)
                    },
                },
            }
        }
    }

    /// The state with the keyboard in the panel over which the mouse is.
    pub open spec fn focused_under(self, in_remote: bool) -> CoreView {
        CoreView {
            focus: if in_remote {
                BrowserFocus::Remote
            } else {
                BrowserFocus::Local
            },
            ..self
        }
    }

    /// The label of what is dragged: how many files, or the name of the one.
    pub open spec fn label_to_drag(self) -> Option<Seq<char>> {
        let rows = self.chosen();
        let entries = self.focused_panel().entries;
        if rows.len() == 0 {
            None
        } else if rows.len() > 1 {
            Some(text::decimal(rows.len()) + " files"@)
        } else if rows[0] < entries.len() {
            Some(entries[rows[0] as int].name)
        } else {
            None
        }
    }

    /// What it means to release the mouse over a panel.
    pub open spec fn drag_action(self, in_remote: bool) -> Option<DragAction> {
        match (self.focus, in_remote) {
            (BrowserFocus::Local, true) => Some(DragAction::LocalToRemote),
            (BrowserFocus::Remote, false) => Some(DragAction::RemoteToLocal),
            _ => None,
        }
    }

    /// The state after the mouse was released over a panel. Over the other
    /// panel a multi-selection is queued for transfer.
    pub open spec fn released_over(self, in_remote: bool) -> CoreView {
        if self.drag_action(in_remote) is Some && self.chosen().len() > 1 {
            self.queued(self.chosen()).unselected().focused_under(in_remote)
        } else {
            self.focused_under(in_remote)
        }
    }

    /// The state after a mouse event.
    pub open spec fn moused(
        self,
        kind: MouseEventKind,
        col: u16,
        row: u16,
        pane: Rect,
        leaf_count: usize,
    ) -> CoreView {
        let in_remote = over_remote(col, pane, leaf_count);
        if self.drop_confirm is Some {
            self
        } else {
            match kind {
                MouseEventKind::Down(MouseButton::Left) => {
                    let s = self.focused_under(in_remote).clicked_at(col, row, pane, leaf_count);
                    match s.label_to_drag() {
                        Some(label) => CoreView {
                            drag: Some(
                                DragView {
                                    origin: s.focus,
                                    label,
                                    mouse_col: col,
                                    mouse_row: row,
                                },
                            ),
                            ..s
                        },
                        None => s,
                    }
                },
                MouseEventKind::Drag(MouseButton::Left) => match self.drag {
                    Some(d) => CoreView {
                        drag: Some(DragView { mouse_col: col, mouse_row: row, ..d }),
                        ..self
                    }.redrawn(),
                    None => self,
                },
                MouseEventKind::Up(MouseButton::Left) => CoreView {
                    drag: None,
                    ..self
                }.released_over(in_remote),
                _ => self,
            }
        }
    }

    /// What a mouse event asks of the browser.
    pub open spec fn mouse_action(
        self,
        kind: MouseEventKind,
        col: u16,
        pane: Rect,
        leaf_count: usize,
    ) -> Option<DragAction> {
        if self.drop_confirm is None && kind == MouseEventKind::Up(MouseButton::Left) {
            self.drag_action(over_remote(col, pane, leaf_count))
        } else {
            None
        }
    }
}

fn inside(pane: Rect, leaf_count: usize) -> (r: Rect)
    ensures
        r == browser_area(pane, leaf_count),
{
    if leaf_count > 1 {
        pane_border_inner(pane)
    } else {
        pane
    }
}

/// The row of a list of `len` rows that is shown in a row of the screen.
/// Nothing where the row is outside of the list's area; otherwise the row of
/// the list, if it has that many.
fn shown_row(panel: Rect, offset: usize, row: u16, len: usize) -> (r: Option<Option<usize>>)
    ensures
        match row_shown_at(panel, offset, row) {
            None => r is None,
            Some(i) => r == Some(
                if i < len {
                    Some(i as usize)
                } else {
                    None
                },
            ),
        },
{
    let top: u32 = panel.y as u32 + 1;
    let height: u32 = panel.height.saturating_sub(2) as u32;
    if (row as u32) < top || (row as u32) >= top + height {
        return None;
    }
    let k: usize = (row as u32 - top) as usize;
    if offset < len && k < len - offset {
        Some(Some(offset + k))
    } else {
        Some(None)
    }
}

impl BrowserCore {
    /// The label of what is dragged; none where there is nothing to drag.
    pub fn drag_label(&self) -> (r: Option<String>)
        ensures
            match r {
                Some(l) => self@.label_to_drag() == Some(l@),
                None => self@.label_to_drag() is None,
            },
    {
        let rows = self.selected_indices();
        if rows.len() == 0 {
            return None;
        }
        if rows.len() > 1 {
            return Some(cat(decimal_of(rows.len() as u64).as_str(), " files"));
        }
        let entries = match self.focus {
            BrowserFocus::Local => &self.local.entries,
            BrowserFocus::Remote => &self.remote.entries,
        };
        if rows[0] < entries.len() {
            assert(self@.focused_panel().entries[rows@[0] as int] == entries@[rows@[0] as int]@);
            Some(entries[rows[0]].name.clone())
        } else {
            None
        }
    }

    /// Puts the cursor on the entry that is shown at a cell of the screen.
    pub fn click_select(&mut self, col: u16, row: u16, pane_area: Rect, leaf_count: usize)
        ensures
            final(self)@ == old(self)@.clicked_at(col, row, pane_area, leaf_count),
    {
        let layout = browser_layout(inside(pane_area, leaf_count));
        if col >= layout.remote_panel.x {
            let hit = shown_row(
                layout.remote_panel,
                self.remote.sel.offset(),
                row,
                self.remote.entries.len(),
            );
            match hit {
                Some(Some(i)) => {
                    self.remote.sel.select(Some(i));
                    self.needs_redraw = true;
                },
                _ => self.deselect_all(true),
            }
            assert(self@ =~= old(self)@.clicked_at(col, row, pane_area, leaf_count));
            return ;
        }
        let target: (usize, usize, bool) = match &self.drive_picker {
            Some(picker) => (picker.1.offset(), picker.0.len(), true),
            None => (self.local.sel.offset(), self.local.entries.len(), false),
        };
        let hit = shown_row(layout.local_panel, target.0, row, target.1);
        match hit {
            None => self.deselect_all(false),
            Some(None) => {
                if !target.2 {
                    self.deselect_all(false);
                }
            },
            Some(Some(i)) => {
                if let Some(picker) = &mut self.drive_picker {
                    picker.1.select(Some(i));
                } else {
                    self.local.sel.select(Some(i));
                }
                self.needs_redraw = true;
            },
        }
        assert(self@ =~= old(self)@.clicked_at(col, row, pane_area, leaf_count));
    }

    /// Gives the keyboard to the panel that was clicked, and puts its cursor
    /// there.
    pub fn handle_click(&mut self, col: u16, row: u16, pane_area: Rect, leaf_count: usize)
        ensures
            final(self)@ == old(self)@.focused_under(
                over_remote(col, pane_area, leaf_count),
            ).clicked_at(col, row, pane_area, leaf_count),
    {
        let layout = browser_layout(inside(pane_area, leaf_count));
        self.focus = if col >= layout.remote_panel.x {
            BrowserFocus::Remote
        } else {
            BrowserFocus::Local
        };
        assert(self@ =~= old(self)@.focused_under(over_remote(col, pane_area, leaf_count)));
        self.click_select(col, row, pane_area, leaf_count);
    }

    /// Handles a mouse event. Returns what to transfer where the mouse was
    /// released over the other panel.
    pub fn handle_mouse(
        &mut self,
        kind: MouseEventKind,
        col: u16,
        row: u16,
        pane_area: Rect,
        leaf_count: usize,
    ) -> (r: Option<DragAction>)
        ensures
            final(self)@ == old(self)@.moused(kind, col, row, pane_area, leaf_count),
            r == old(self)@.mouse_action(kind, col, pane_area, leaf_count),
    {
        if self.drop_confirm.is_some() {
            return None;
        }
        match kind {
            MouseEventKind::Down(MouseButton::Left) => {
                self.handle_click(col, row, pane_area, leaf_count);
                if let Some(label) = self.drag_label() {
                    self.drag = Some(
                        DragState { origin: self.focus, label, mouse_col: col, mouse_row: row },
                    );
                }
                assert(self@ =~= old(self)@.moused(kind, col, row, pane_area, leaf_count));
                None
            },
            MouseEventKind::Drag(MouseButton::Left) => {
                let mut moved = false;
                if let Some(d) = &mut self.drag {
                    d.mouse_col = col;
                    d.mouse_row = row;
                    moved = true;
                }
                if moved {
                    self.needs_redraw = true;
                }
                assert(self@ =~= old(self)@.moused(kind, col, row, pane_area, leaf_count));
                None
            },
            MouseEventKind::Up(MouseButton::Left) => {
                self.drag = None;
                assert(self@ =~= (CoreView { drag: None, ..old(self)@ }));
                self.handle_drag_release(col, pane_area, leaf_count)
            },
            _ => None,
        }
    }

    /// Handles the release of a drag over one of the panels.
    pub fn handle_drag_release(&mut self, col: u16, pane_area: Rect, leaf_count: usize) -> (r:
        Option<DragAction>)
        ensures
            final(self)@ == old(self)@.released_over(over_remote(col, pane_area, leaf_count)),
            r == old(self)@.drag_action(over_remote(col, pane_area, leaf_count)),
    {
        let layout = browser_layout(inside(pane_area, leaf_count));
        let in_remote = col >= layout.remote_panel.x;
        let action = match (self.focus, in_remote) {
            (BrowserFocus::Local, true) => Some(DragAction::LocalToRemote),
            (BrowserFocus::Remote, false) => Some(DragAction::RemoteToLocal),
            _ => None,
        };
        if action.is_some() {
            let rows = self.selected_indices();
            if rows.len() > 1 {
                self.queue_transfers_from_indices(rows.as_slice());
                self.clear_selection();
            }
        }
        self.focus = if in_remote {
            BrowserFocus::Remote
        } else {
            BrowserFocus::Local
        };
        assert(self@ =~= old(self)@.released_over(in_remote));
        action
    }
}

/// Releasing the mouse over the panel in which the drag began asks for nothing
/// and queues nothing.
pub proof fn law_release_over_same_panel(core: CoreView, in_remote: bool)
    requires
        in_remote == (core.focus == BrowserFocus::Remote),
    ensures
        core.drag_action(in_remote) is None,
        core.released_over(in_remote) == core,
{
    assert(core.released_over(in_remote) =~= core);
}

} // verus!
