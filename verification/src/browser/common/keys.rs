//! The keyboard of a browser that is connected and not waiting for a password.
use vstd::prelude::*;
use crate::browser::common;
use crate::browser::path;
use crate::text;
use super::{
    BrowserCore, BrowserFocus, BrowserKeyAction, CoreView, PendingTransfer, PendingView,
    TransferDirection, TransferView, PASTE_QUIET_MS,
};
use crate::browser::path::{file_name, to_slashes};
use crate::event::KeyCode;
use crate::keybindings::BrowserBindings;
use crate::style::Color;

verus! {

/// What the outside world is like at the moment of an event.
#[derive(Clone, Debug)]
pub struct Moment {
    /// The time in milliseconds.
    pub now: u64,
    /// Which of the dropped files that are up for confirmation are
    /// directories.
    pub drop_is_dir: Vec<bool>,
}

impl Moment {
    /// A moment at which no dropped files are up for confirmation.
    pub fn at(now: u64) -> (r: Moment)
        ensures
            r.now == now,
            r.drop_is_dir@ == Seq::<bool>::empty(),
    {
        Moment { now, drop_is_dir: Vec::new() }
    }
}

/// The number of bytes that a text takes in UTF-8.
pub open spec fn byte_len(s: Seq<char>) -> usize {
    vstd::utf8::encode_utf8(s).len() as usize
}

/// The greatest number of bytes that one of the texts takes, with two in front.
pub open spec fn longest_line(paths: Seq<Seq<char>>) -> usize
    decreases paths.len(),
{
    if paths.len() == 0 {
        0
    } else {
        let before = longest_line(paths.drop_last());
        let last = common::up_by(byte_len(paths.last()), 2);
        if last >= before {
            last
        } else {
            before
        }
    }
}

/// The uploads of dropped files.
pub open spec fn drop_transfers(paths: Seq<Seq<char>>, dirs: Seq<bool>) -> Seq<PendingView> {
    Seq::new(
        paths.len(),
        |i: int|
            PendingView {
                path: path::with_slashes(paths[i]),
                name: path::name_of(paths[i]),
                is_dir: i < dirs.len() && dirs[i],
            },
    )
}

impl CoreView {
    /// The number of rows by which the list of dropped files can be scrolled.
    pub open spec fn drop_rows_hidden(self, paths: Seq<Seq<char>>) -> usize {
        let room = common::down_by(self.last_inner.height as usize, 6);
        common::down_by(
            paths.len() as usize,
            if room < 5 {
                room
            } else {
                5
            },
        )
    }

    /// The number of columns by which the list of dropped files can be
    /// scrolled.
    pub open spec fn drop_columns_hidden(self, paths: Seq<Seq<char>>) -> usize {
        let room = common::down_by(self.last_inner.width as usize, 4);
        common::down_by(
            longest_line(paths),
            common::down_by(
                if room < 60 {
                    room
                } else {
                    60
                },
                2,
            ),
        )
    }

    /// The state after a key while dropped files are up for confirmation.
    pub open spec fn drop_keyed(self, paths: Seq<Seq<char>>, code: KeyCode, dirs: Seq<bool>) ->
        CoreView {
        match code {
            KeyCode::Up => CoreView {
                drop_scroll_y: common::down_by(self.drop_scroll_y, 1),
                ..self
            }.redrawn(),
            KeyCode::Down => if self.drop_scroll_y < self.drop_rows_hidden(paths) {
                CoreView { drop_scroll_y: common::up_by(self.drop_scroll_y, 1), ..self }.redrawn()
            } else {
                self
            },
            KeyCode::Left => CoreView {
                drop_scroll_x: common::down_by(self.drop_scroll_x, 1),
                ..self
            }.redrawn(),
            KeyCode::Right => if self.drop_scroll_x < self.drop_columns_hidden(paths) {
                CoreView { drop_scroll_x: common::up_by(self.drop_scroll_x, 1), ..self }.redrawn()
            } else {
                self
            },
            KeyCode::Char('y') => CoreView {
                transfer: TransferView {
                    pending: drop_transfers(paths, dirs),
                    pending_direction: Some(TransferDirection::Upload),
                    ..self.transfer
                },
                drop_confirm: None,
                drop_scroll_x: 0,
                drop_scroll_y: 0,
                ..self
            },
            KeyCode::Char('n') => self.drop_cancelled(),
            KeyCode::Esc => self.drop_cancelled(),
            _ => self,
        }
    }

    /// The state after the upload of dropped files was refused.
    pub open spec fn drop_cancelled(self) -> CoreView {
        CoreView { drop_confirm: None, drop_scroll_x: 0, drop_scroll_y: 0, ..self }.saying(
            "File drop canceled"@,
            Color::Yellow,
        ).redrawn()
    }

    /// The state with one more character of a paste. The paste is complete
    /// when no other follows in time.
    pub open spec fn pasted(self, c: char, now: u64) -> CoreView {
        CoreView {
            paste_buf: self.paste_buf.push(c),
            paste_deadline: Some(
                if now + PASTE_QUIET_MS <= u64::MAX {
                    (now + PASTE_QUIET_MS) as u64
                } else {
                    u64::MAX
                },
            ),
            ..self
        }
    }

    /// The state after a navigation key. With shift the selection grows from
    /// where the cursor was; without it the selection is dropped.
    pub open spec fn navigated(self, down: bool, shift: bool) -> CoreView {
        if shift {
            CoreView {
                select_anchor: if self.select_anchor is None {
                    self.focused_panel().sel.selected
                } else {
                    self.select_anchor
                },
                ..self
            }.cursor_moved(down).range_selected()
        } else {
            self.unselected().cursor_moved(down)
        }
    }

    /// The state after the transfer key. A multi-selection is queued.
    pub open spec fn transfer_keyed(self) -> CoreView {
        if self.chosen().len() > 1 {
            self.queued(self.chosen()).unselected()
        } else {
            self
        }
    }

    /// The state after a key, and what is left to do, when nothing is up for
    /// confirmation and no paste is under way.
    pub open spec fn plain_keyed(
        self,
        code: KeyCode,
        ctrl: bool,
        alt: bool,
        shift: bool,
        b: BrowserBindings,
        now: u64,
    ) -> (CoreView, BrowserKeyAction) {
        if b.toggle_focus.fits(code, ctrl, alt, shift) {
            (self.focus_toggled(), BrowserKeyAction::Handled)
        } else if code == KeyCode::Esc {
            (self.picker_dismissed(), BrowserKeyAction::Handled)
        } else if b.navigate_up.fits_any_shift(code, ctrl, alt) {
            (self.navigated(false, shift), BrowserKeyAction::Handled)
        } else if b.navigate_down.fits_any_shift(code, ctrl, alt) {
            (self.navigated(true, shift), BrowserKeyAction::Handled)
        } else if b.scroll_left.fits(code, ctrl, alt, shift) {
            (self.scrolled_left(), BrowserKeyAction::Handled)
        } else if b.scroll_right.fits(code, ctrl, alt, shift) {
            (self.scrolled_right(), BrowserKeyAction::Handled)
        } else if b.enter.fits(code, ctrl, alt, shift) || b.enter_or_transfer.fits(
            code,
            ctrl,
            alt,
            shift,
        ) {
            (self.unselected(), BrowserKeyAction::Enter)
        } else if b.go_up.fits(code, ctrl, alt, shift) {
            (self.unselected(), BrowserKeyAction::GoUp)
        } else if b.transfer.fits(code, ctrl, alt, shift) {
            (
                self.transfer_keyed(),
                match self.focus {
                    BrowserFocus::Remote => BrowserKeyAction::Download,
                    BrowserFocus::Local => BrowserKeyAction::Upload,
                },
            )
        } else if b.delete.fits(code, ctrl, alt, shift) {
            (self, BrowserKeyAction::Delete)
        } else {
            match code {
                KeyCode::Char(c) => (self.pasted(c, now), BrowserKeyAction::Handled),
                _ => (self, BrowserKeyAction::Handled),
            }
        }
    }

    /// The state after a key, and what is left to do. A question that was
    /// answered with yes takes no other answer while the file is being removed.
    pub open spec fn keyed(
        self,
        code: KeyCode,
        ctrl: bool,
        alt: bool,
        shift: bool,
        b: BrowserBindings,
        now: u64,
        dirs: Seq<bool>,
    ) -> (CoreView, BrowserKeyAction) {
        if self.drop_confirm is Some {
            (
                self.drop_keyed(self.drop_confirm->0, code, dirs),
                if code == KeyCode::Char('y') {
                    BrowserKeyAction::Upload
                } else {
                    BrowserKeyAction::Handled
                },
            )
        } else if self.paste_buf.len() > 0 && code is Char {
            (self.pasted(code->Char_0, now), BrowserKeyAction::Handled)
        } else if self.delete.confirm is Some && self.delete.removing {
            (self, BrowserKeyAction::Handled)
        } else if self.delete.confirm is Some {
            match code {
                KeyCode::Char('y') => (self, BrowserKeyAction::ConfirmDeleteYes),
                KeyCode::Char('n') => (self.deletion_refused(), BrowserKeyAction::Handled),
                KeyCode::Esc => (self.deletion_refused(), BrowserKeyAction::Handled),
                _ => (self, BrowserKeyAction::Handled),
            }
        } else {
            self.plain_keyed(code, ctrl, alt, shift, b, now)
        }
    }
}

fn longest(paths: &Vec<String>) -> (r: usize)
    ensures
        r == longest_line(text::texts(paths@)),
{
    let ghost all = text::texts(paths@);
    let mut r: usize = 0;
    let mut i: usize = 0;
    assert(all.take(0) =~= Seq::empty());
    while i < paths.len()
        invariant
            i <= paths@.len(),
            all == text::texts(paths@),
            r == longest_line(all.take(i as int)),
        decreases paths@.len() - i,
    {
        let ghost t = all.take(i + 1);
        assert(t.drop_last() =~= all.take(i as int));
        let n: usize = paths[i].as_str().len();
        assert(t.last() == paths@[i as int]@);
        let line: usize = n.saturating_add(2);
        if line >= r {
            r = line;
        }
        i += 1;
    }
    assert(all.take(i as int) =~= all);
    r
}

fn make_drop_transfers(paths: &Vec<String>, dirs: &Vec<bool>) -> (r: Vec<PendingTransfer>)
    ensures
        common::pending_view(r@) == drop_transfers(text::texts(paths@), dirs@),
{
    let ghost all = drop_transfers(text::texts(paths@), dirs@);
    let mut v: Vec<PendingTransfer> = Vec::new();
    let mut i: usize = 0;
    while i < paths.len()
        invariant
            i <= paths@.len(),
            all == drop_transfers(text::texts(paths@), dirs@),
            common::pending_view(v@) == all.take(i as int),
        decreases paths@.len() - i,
    {
        let p = paths[i].as_str();
        assert(text::texts(paths@)[i as int] == p@);
        let is_dir = i < dirs.len() && dirs[i];
        let t = PendingTransfer { path: to_slashes(p), name: file_name(p), is_dir };
        assert(t@ =~= all[i as int]);
        let ghost before = common::pending_view(v@);
        let ghost view = t@;
        v.push(t);
        assert(common::pending_view(v@) =~= before.push(view));
        i += 1;
        assert(common::pending_view(v@) =~= all.take(i as int));
    }
    assert(all.take(i as int) =~= all);
    v
}

impl BrowserCore {
    fn cancel_drop(&mut self)
        ensures
            final(self)@ == old(self)@.drop_cancelled(),
    {
        self.drop_confirm = None;
        self.drop_scroll_x = 0;
        self.drop_scroll_y = 0;
        self.say("File drop canceled".to_owned(), Color::Yellow);
        self.needs_redraw = true;
        assert(self@ =~= old(self)@.drop_cancelled());
    }

    fn handle_drop_key(&mut self, code: KeyCode, dirs: &Vec<bool>)
        requires
            old(self)@.drop_confirm is Some,
        ensures
            final(self)@ == old(self)@.drop_keyed(old(self)@.drop_confirm->0, code, dirs@),
    {
        match code {
            KeyCode::Up => {
                self.drop_scroll_y = self.drop_scroll_y.saturating_sub(1);
                self.needs_redraw = true;
            },
            KeyCode::Down => {
                let room: usize = (self.last_inner.height as usize).saturating_sub(6);
                let rows: usize = if room < 5 {
                    room
                } else {
                    5
                };
                let count: usize = match &self.drop_confirm {
                    Some(paths) => paths.len(),
                    None => 0,
                };
                if self.drop_scroll_y < count.saturating_sub(rows) {
                    self.drop_scroll_y = self.drop_scroll_y.saturating_add(1);
                    self.needs_redraw = true;
                }
            },
            KeyCode::Left => {
                self.drop_scroll_x = self.drop_scroll_x.saturating_sub(1);
                self.needs_redraw = true;
            },
            KeyCode::Right => {
                let room: usize = (self.last_inner.width as usize).saturating_sub(4);
                let width: usize = if room < 60 {
                    room
                } else {
                    60
                };
                let line: usize = match &self.drop_confirm {
                    Some(paths) => longest(paths),
                    None => 0,
                };
                if self.drop_scroll_x < line.saturating_sub(width.saturating_sub(2)) {
                    self.drop_scroll_x = self.drop_scroll_x.saturating_add(1);
                    self.needs_redraw = true;
                }
            },
            KeyCode::Char('y') => {
                let pending = match &self.drop_confirm {
                    Some(paths) => make_drop_transfers(paths, dirs),
                    None => Vec::new(),
                };
                self.transfer.pending = pending;
                self.transfer.pending_direction = Some(TransferDirection::Upload);
                self.drop_confirm = None;
                self.drop_scroll_x = 0;
                self.drop_scroll_y = 0;
            },
            KeyCode::Char('n') => self.cancel_drop(),
            KeyCode::Esc => self.cancel_drop(),
            _ => {},
        }
        assert(self@ =~= old(self)@.drop_keyed(old(self)@.drop_confirm->0, code, dirs@));
    }

    /// Takes in one character of a paste.
    pub fn paste_char(&mut self, c: char, now: u64)
        ensures
            final(self)@ == old(self)@.pasted(c, now),
    {
        self.paste_buf.push(c);
        self.paste_deadline = Some(now.saturating_add(PASTE_QUIET_MS));
    }

    fn navigate(&mut self, down: bool, shift: bool)
        ensures
            final(self)@ == old(self)@.navigated(down, shift),
    {
        if shift {
            if self.select_anchor.is_none() {
                self.select_anchor = self.focused_index();
            }
        } else {
            self.clear_selection();
        }
        if down {
            self.nav_down();
        } else {
            self.nav_up();
        }
        if shift {
            self.update_selection();
        }
    }
}

/// Handles a key of a browser that is connected and not waiting for a
/// password. What needs the browser itself is returned as an action.
pub fn handle_browser_key(
    core: &mut BrowserCore,
    code: KeyCode,
    ctrl: bool,
    alt: bool,
    shift: bool,
    bindings: &BrowserBindings,
    at: &Moment,
) -> (r: BrowserKeyAction)
    ensures
        (final(core)@, r) == old(core)@.keyed(
            code,
            ctrl,
            alt,
            shift,
            *bindings,
            at.now,
            at.drop_is_dir@,
        ),
{
    if core.drop_confirm.is_some() {
        core.handle_drop_key(code, &at.drop_is_dir);
        return if let KeyCode::Char('y') = code {
            BrowserKeyAction::Upload
        } else {
            BrowserKeyAction::Handled
        };
    }
    if !core.paste_buf.as_str().is_empty() {
        if let KeyCode::Char(c) = code {
            core.paste_char(c, at.now);
            return BrowserKeyAction::Handled;
        }
    }
    if core.delete.confirm.is_some() {
        if core.delete.removing {
            return BrowserKeyAction::Handled;
        }
        return match code {
            KeyCode::Char('y') => BrowserKeyAction::ConfirmDeleteYes,
            KeyCode::Char('n') => {
                core.confirm_delete_no();
                BrowserKeyAction::Handled
            },
            KeyCode::Esc => {
                core.confirm_delete_no();
                BrowserKeyAction::Handled
            },
            _ => BrowserKeyAction::Handled,
        };
    }
    if bindings.toggle_focus.matches(code, ctrl, alt, shift) {
        core.toggle_focus();
        BrowserKeyAction::Handled
    } else if code == KeyCode::Esc {
        core.dismiss_drive_picker();
        BrowserKeyAction::Handled
    } else if bindings.navigate_up.matches_ignore_shift(code, ctrl, alt) {
        core.navigate(false, shift);
        BrowserKeyAction::Handled
    } else if bindings.navigate_down.matches_ignore_shift(code, ctrl, alt) {
        core.navigate(true, shift);
        BrowserKeyAction::Handled
    } else if bindings.scroll_left.matches(code, ctrl, alt, shift) {
        core.scroll_left();
        BrowserKeyAction::Handled
    } else if bindings.scroll_right.matches(code, ctrl, alt, shift) {
        core.scroll_right();
        BrowserKeyAction::Handled
    } else if bindings.enter.matches(code, ctrl, alt, shift) || bindings.enter_or_transfer.matches(
        code,
        ctrl,
        alt,
        shift,
    ) {
        core.clear_selection();
        BrowserKeyAction::Enter
    } else if bindings.go_up.matches(code, ctrl, alt, shift) {
        core.clear_selection();
        BrowserKeyAction::GoUp
    } else if bindings.transfer.matches(code, ctrl, alt, shift) {
        let rows = core.selected_indices();
        if rows.len() > 1 {
            core.queue_transfers_from_indices(rows.as_slice());
            core.clear_selection();
        }
        match core.focus {
            BrowserFocus::Remote => BrowserKeyAction::Download,
            BrowserFocus::Local => BrowserKeyAction::Upload,
        }
    } else if bindings.delete.matches(code, ctrl, alt, shift) {
        BrowserKeyAction::Delete
    } else {
        if let KeyCode::Char(c) = code {
            core.paste_char(c, at.now);
        }
        BrowserKeyAction::Handled
    }
}

} // verus!
