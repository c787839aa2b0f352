//! State and behaviour that the SFTP and SCP browsers share.
//!
//! - [`navigation`]: focus, scrolling, directories, timers, dropped files
//! - [`selection`]: the multi-selection
//! - [`delete`]: deletion of local and remote files
//! - [`transfer`]: the queue of transfers
//! - [`mouse`]: clicking and dragging
//! - [`keys`]: the keyboard
use std::collections::BTreeSet;
use vstd::prelude::*;
use crate::browser::parse;
use crate::text;
use super::parse::{local_listing, DirItem, EntryView, FsEntry};
use crate::geometry::Rect;
use crate::list_state::ListState;
use crate::style::Color;

pub mod delete;
pub mod keys;
pub mod mouse;
pub mod navigation;
pub mod selection;
pub mod transfer;

verus! {

/// The text of an optional string.
pub open spec fn optional_text(o: Option<String>) -> Option<Seq<char>> {
    match o {
        Some(s) => Some(s@),
        None => None,
    }
}

// ---------------------------------------------------------------------------
// Panels
// ---------------------------------------------------------------------------

/// One side of the dual-pane browser.
#[derive(Debug)]
pub struct Panel {
    pub path: String,
    pub entries: Vec<FsEntry>,
    pub sel: ListState,
    pub scroll_x: usize,
}

/// What a panel shows.
#[verifier::ext_equal]
pub struct PanelView {
    pub path: Seq<char>,
    pub entries: Seq<EntryView>,
    pub sel: ListState,
    pub scroll_x: usize,
}

impl View for Panel {
    type V = PanelView;

    open spec fn view(&self) -> PanelView {
        PanelView {
            path: self.path@,
            entries: parse::entries_view(self.entries@),
            sel: self.sel,
            scroll_x: self.scroll_x,
        }
    }
}

/// `a - b`, but no less than zero.
pub open spec fn down_by(a: usize, b: usize) -> usize {
    if a >= b {
        (a - b) as usize
    } else {
        0
    }
}

/// `a + b`, but no more than the largest number.
pub open spec fn up_by(a: usize, b: usize) -> usize {
    if a + b <= usize::MAX {
        (a + b) as usize
    } else {
        usize::MAX
    }
}

impl PanelView {
    /// The panel scrolled four columns to the left.
    pub open spec fn scrolled_left(self) -> PanelView {
        PanelView { scroll_x: down_by(self.scroll_x, 4), ..self }
    }

    /// The panel scrolled four columns to the right.
    pub open spec fn scrolled_right(self) -> PanelView {
        PanelView { scroll_x: up_by(self.scroll_x, 4), ..self }
    }

    /// The panel with another cursor.
    pub open spec fn with_sel(self, sel: ListState) -> PanelView {
        PanelView { sel, ..self }
    }

    /// The entry under the cursor.
    pub open spec fn focused(self) -> Option<EntryView> {
        match self.sel.selected {
            Some(i) => if i < self.entries.len() {
                Some(self.entries[i as int])
            } else {
                None
            },
            None => None,
        }
    }
}

impl Panel {
    /// The index of the row under the cursor.
    pub fn focused_index(&self) -> (r: Option<usize>)
        ensures
            r == self@.sel.selected,
    {
        self.sel.selected()
    }

    /// The entry under the cursor.
    pub fn focused_entry(&self) -> (r: Option<&FsEntry>)
        ensures
            match r {
                Some(e) => self@.focused() == Some(e@),
                None => self@.focused() is None,
            },
    {
        match self.sel.selected {
            Some(i) => {
                if i < self.entries.len() {
                    assert(self@.entries[i as int] == self.entries@[i as int]@);
                    Some(&self.entries[i])
                } else {
                    None
                }
            },
            None => None,
        }
    }

    /// Moves the cursor up one row.
    pub fn nav_up(&mut self)
        ensures
            final(self)@ == old(self)@.with_sel(old(self)@.sel.retreated()),
    {
        self.sel.select_previous();
    }

    /// Moves the cursor down one row.
    pub fn nav_down(&mut self)
        ensures
            final(self)@ == old(self)@.with_sel(old(self)@.sel.advanced()),
    {
        self.sel.select_next();
    }

    /// Scrolls the view left by four columns. Returns whether it moved.
    pub fn scroll_left(&mut self) -> (r: bool)
        ensures
            r == (old(self)@.scroll_x > 0),
            final(self)@ == old(self)@.scrolled_left(),
    {
        if self.scroll_x > 0 {
            self.scroll_x = self.scroll_x.saturating_sub(4);
            true
        } else {
            false
        }
    }

    /// Scrolls the view right by four columns.
    pub fn scroll_right(&mut self)
        ensures
            final(self)@ == old(self)@.scrolled_right(),
    {
        self.scroll_x = self.scroll_x.saturating_add(4);
    }
}

// ---------------------------------------------------------------------------
// Transfers
// ---------------------------------------------------------------------------

/// The panel that has the keyboard.
#[derive(Clone, Copy, Debug, PartialEq, Eq, Structural)]
pub enum BrowserFocus {
    Local,
    Remote,
}

/// The direction of a transfer.
#[derive(Clone, Copy, Debug, PartialEq, Eq, Structural)]
pub enum TransferDirection {
    Download,
    Upload,
}

/// How the transfer that was started last is getting on.
#[derive(Debug)]
pub struct TransferStatus {
    pub filename: String,
    pub direction: TransferDirection,
    pub is_dir: bool,
    pub done: bool,
    /// Per cent, from 0 to 100.
    pub progress: u8,
    pub file_count: usize,
}

/// What a transfer status says.
#[verifier::ext_equal]
pub struct StatusView {
    pub filename: Seq<char>,
    pub direction: TransferDirection,
    pub is_dir: bool,
    pub done: bool,
    pub progress: u8,
    pub file_count: usize,
}

impl View for TransferStatus {
    type V = StatusView;

    open spec fn view(&self) -> StatusView {
        StatusView {
            filename: self.filename@,
            direction: self.direction,
            is_dir: self.is_dir,
            done: self.done,
            progress: self.progress,
            file_count: self.file_count,
        }
    }
}

impl Clone for TransferStatus {
    fn clone(&self) -> (r: TransferStatus)
        ensures
            r == *self,
    {
        TransferStatus {
            filename: self.filename.clone(),
            direction: self.direction,
            is_dir: self.is_dir,
            done: self.done,
            progress: self.progress,
            file_count: self.file_count,
        }
    }
}

/// A file that waits to be transferred.
#[derive(Debug)]
pub struct PendingTransfer {
    /// The full path of the source.
    pub path: String,
    /// The name of the file by itself.
    pub name: String,
    pub is_dir: bool,
}

/// What is known of a file that waits to be transferred.
#[verifier::ext_equal]
pub struct PendingView {
    pub path: Seq<char>,
    pub name: Seq<char>,
    pub is_dir: bool,
}

impl View for PendingTransfer {
    type V = PendingView;

    open spec fn view(&self) -> PendingView {
        PendingView { path: self.path@, name: self.name@, is_dir: self.is_dir }
    }
}

impl Clone for PendingTransfer {
    fn clone(&self) -> (r: PendingTransfer)
        ensures
            r == *self,
    {
        PendingTransfer {
            path: self.path.clone(),
            name: self.name.clone(),
            is_dir: self.is_dir,
        }
    }
}

/// The transfer under way and those that wait.
#[derive(Debug)]
pub struct TransferState {
    pub last: Option<TransferStatus>,
    pub pending: Vec<PendingTransfer>,
    /// The direction of the transfers that wait.
    pub pending_direction: Option<TransferDirection>,
    /// The transfer under way.
    pub current: Option<PendingTransfer>,
    /// When the transfer under way was started, in milliseconds.
    pub start: Option<u64>,
    pub batch_total: usize,
    pub batch_done: usize,
}

/// What is known of the transfers.
#[verifier::ext_equal]
pub struct TransferView {
    pub last: Option<StatusView>,
    pub pending: Seq<PendingView>,
    pub pending_direction: Option<TransferDirection>,
    pub current: Option<PendingView>,
    pub start: Option<u64>,
    pub batch_total: usize,
    pub batch_done: usize,
}

/// What is known of a queue of transfers.
pub open spec fn pending_view(v: Seq<PendingTransfer>) -> Seq<PendingView> {
    v.map_values(|p: PendingTransfer| p@)
}

impl View for TransferState {
    type V = TransferView;

    open spec fn view(&self) -> TransferView {
        TransferView {
            last: match self.last {
                Some(t) => Some(t@),
                None => None,
            },
            pending: pending_view(self.pending@),
            pending_direction: self.pending_direction,
            current: match self.current {
                Some(t) => Some(t@),
                None => None,
            },
            start: self.start,
            batch_total: self.batch_total,
            batch_done: self.batch_done,
        }
    }
}

impl TransferView {
    /// No transfer at all.
    pub open spec fn none() -> TransferView {
        TransferView {
            last: None,
            pending: Seq::empty(),
            pending_direction: None,
            current: None,
            start: None,
            batch_total: 0,
            batch_done: 0,
        }
    }
}

impl Default for TransferState {
    fn default() -> (r: TransferState)
        ensures
            r@ == TransferView::none(),
    {
        let r = TransferState {
            last: None,
            pending: Vec::new(),
            pending_direction: None,
            current: None,
            start: None,
            batch_total: 0,
            batch_done: 0,
        };
        assert(r@ =~= TransferView::none());
        r
    }
}

// ---------------------------------------------------------------------------
// Deletion
// ---------------------------------------------------------------------------

/// Where a file to delete is.
#[derive(Clone, Copy, Debug, PartialEq, Eq, Structural)]
pub enum DeleteLocation {
    Local,
    Remote,
}

/// Whether a directory or a file is to be deleted.
#[derive(Clone, Copy, Debug, PartialEq, Eq, Structural)]
pub enum DeleteKind {
    File,
    Dir,
}

/// A file to delete.
#[derive(Debug)]
pub struct DeleteTarget {
    pub location: DeleteLocation,
    pub kind: DeleteKind,
    pub path: String,
}

/// What is known of a file to delete.
#[verifier::ext_equal]
pub struct TargetView {
    pub location: DeleteLocation,
    pub kind: DeleteKind,
    pub path: Seq<char>,
}

impl View for DeleteTarget {
    type V = TargetView;

    open spec fn view(&self) -> TargetView {
        TargetView { location: self.location, kind: self.kind, path: self.path@ }
    }
}

impl Clone for DeleteTarget {
    fn clone(&self) -> (r: DeleteTarget)
        ensures
            r == *self,
    {
        DeleteTarget { location: self.location, kind: self.kind, path: self.path.clone() }
    }
}

impl DeleteTarget {
    /// Whether a directory is to be deleted.
    pub fn is_dir(&self) -> (r: bool)
        ensures
            r == (self.kind == DeleteKind::Dir),
    {
        self.kind == DeleteKind::Dir
    }

    /// The side on which the file is, for people to read.
    pub fn display_side(&self) -> (r: &'static str)
        ensures
            r@ == (match self.location {
                DeleteLocation::Local => "local"@,
                DeleteLocation::Remote => "remote"@,
            }),
    {
        match self.location {
            DeleteLocation::Local => "local",
            DeleteLocation::Remote => "remote",
        }
    }
}

/// The deletion to confirm and those that wait.
#[derive(Debug)]
pub struct DeleteState {
    pub confirm: Option<DeleteTarget>,
    pub pending: Vec<DeleteTarget>,
    pub pending_name: Option<String>,
    /// Whether the file to confirm is a local one that was confirmed, and that
    /// the application is asked to remove.
    pub removing: bool,
}

/// What is known of the deletions.
#[verifier::ext_equal]
pub struct DeleteView {
    pub confirm: Option<TargetView>,
    pub pending: Seq<TargetView>,
    pub pending_name: Option<Seq<char>>,
    pub removing: bool,
}

/// What is known of a queue of deletions.
pub open spec fn targets_view(v: Seq<DeleteTarget>) -> Seq<TargetView> {
    v.map_values(|t: DeleteTarget| t@)
}

impl View for DeleteState {
    type V = DeleteView;

    open spec fn view(&self) -> DeleteView {
        DeleteView {
            confirm: match self.confirm {
                Some(t) => Some(t@),
                None => None,
            },
            pending: targets_view(self.pending@),
            pending_name: optional_text(self.pending_name),
            removing: self.removing,
        }
    }
}

impl DeleteView {
    /// No deletion at all.
    pub open spec fn none() -> DeleteView {
        DeleteView { confirm: None, pending: Seq::empty(), pending_name: None, removing: false }
    }
}

impl Default for DeleteState {
    fn default() -> (r: DeleteState)
        ensures
            r@ == DeleteView::none(),
    {
        let r = DeleteState {
            confirm: None,
            pending: Vec::new(),
            pending_name: None,
            removing: false,
        };
        assert(r@ =~= DeleteView::none());
        r
    }
}

// ---------------------------------------------------------------------------
// Other shared types
// ---------------------------------------------------------------------------

/// Bytes to scan from the end of raw output for a prompt.
pub const PROMPT_TAIL_BYTES: usize = 64;

/// Seconds before a waiting command is considered timed out.
pub const COMMAND_TIMEOUT_SECS: u64 = 30;

/// Consecutive stable ticks required before a prompt is considered ready.
pub const PROMPT_STABLE_TICKS: u8 = 2;

/// Milliseconds without a character after which a paste is complete.
pub const PASTE_QUIET_MS: u64 = 150;

/// What a key asks of a browser, beyond what was done already.
#[derive(Clone, Copy, Debug, PartialEq, Eq, Structural)]
pub enum BrowserKeyAction {
    Handled,
    Enter,
    GoUp,
    Download,
    Upload,
    Delete,
    ConfirmDeleteYes,
}

/// Result of a drag that was released over the other panel.
#[derive(Clone, Copy, Debug, PartialEq, Eq, Structural)]
pub enum DragAction {
    LocalToRemote,
    RemoteToLocal,
}

/// What is dragged and where the mouse is.
#[derive(Debug)]
pub struct DragState {
    pub origin: BrowserFocus,
    pub label: String,
    pub mouse_col: u16,
    pub mouse_row: u16,
}

/// What is known of a drag.
#[verifier::ext_equal]
pub struct DragView {
    pub origin: BrowserFocus,
    pub label: Seq<char>,
    pub mouse_col: u16,
    pub mouse_row: u16,
}

impl View for DragState {
    type V = DragView;

    open spec fn view(&self) -> DragView {
        DragView {
            origin: self.origin,
            label: self.label@,
            mouse_col: self.mouse_col,
            mouse_row: self.mouse_row,
        }
    }
}

/// What a symbolic link turned out to lead to.
#[derive(Clone, Copy, Debug, PartialEq, Eq, Structural)]
pub enum LinkProbe {
    Dir,
    File,
    Broken,
}

// ---------------------------------------------------------------------------
// The shared state
// ---------------------------------------------------------------------------

/// The state that both browsers share. Times are in milliseconds.
#[derive(Debug)]
pub struct BrowserCore {
    pub host: String,
    pub local: Panel,
    pub remote: Panel,
    pub focus: BrowserFocus,
    pub status_msg: String,
    pub raw_snapshot: Vec<String>,
    pub needs_redraw: bool,
    pub drive_picker: Option<(Vec<String>, ListState)>,
    pub status_color: Color,
    pub cmd_start: Option<u64>,
    pub last_duration: Option<u64>,
    pub prompt_stable: u8,
    pub prev_raw_len: usize,
    /// The rows of the multi-selection.
    pub selected: BTreeSet<usize>,
    pub select_anchor: Option<usize>,
    pub transfer: TransferState,
    pub delete: DeleteState,
    /// The symbolic link whose listing is awaited.
    pub link_probe: Option<String>,
    pub paste_buf: String,
    pub paste_deadline: Option<u64>,
    /// Names that were pasted, and that the application is asked to look up.
    pub dropped: Option<Vec<String>>,
    pub drop_confirm: Option<Vec<String>>,
    pub drop_scroll_x: usize,
    pub drop_scroll_y: usize,
    pub last_inner: Rect,
    pub drag: Option<DragState>,
    /// The choice in the overlay of an ended connection: 0 to reconnect, 1 to
    /// close the pane.
    pub exit_selection: u8,
    /// Whether the application is asked to list the local directory.
    pub reload_local: bool,
}

/// What the shared state says.
#[verifier::ext_equal]
pub struct CoreView {
    pub host: Seq<char>,
    pub local: PanelView,
    pub remote: PanelView,
    pub focus: BrowserFocus,
    pub status_msg: Seq<char>,
    pub raw_snapshot: Seq<Seq<char>>,
    pub needs_redraw: bool,
    pub drive_picker: Option<(Seq<Seq<char>>, ListState)>,
    pub status_color: Color,
    pub cmd_start: Option<u64>,
    pub last_duration: Option<u64>,
    pub prompt_stable: u8,
    pub prev_raw_len: usize,
    pub selected: Set<usize>,
    pub select_anchor: Option<usize>,
    pub transfer: TransferView,
    pub delete: DeleteView,
    pub link_probe: Option<Seq<char>>,
    pub paste_buf: Seq<char>,
    pub paste_deadline: Option<u64>,
    pub dropped: Option<Seq<Seq<char>>>,
    pub drop_confirm: Option<Seq<Seq<char>>>,
    pub drop_scroll_x: usize,
    pub drop_scroll_y: usize,
    pub last_inner: Rect,
    pub drag: Option<DragView>,
    pub exit_selection: u8,
    pub reload_local: bool,
}

/// The texts of an optional list of strings.
pub open spec fn optional_texts(o: Option<Vec<String>>) -> Option<Seq<Seq<char>>> {
    match o {
        Some(v) => Some(text::texts(v@)),
        None => None,
    }
}

/// What a drive picker shows.
pub open spec fn picker_view(o: Option<(Vec<String>, ListState)>) -> Option<
    (Seq<Seq<char>>, ListState),
> {
    match o {
        Some((v, s)) => Some((text::texts(v@), s)),
        None => None,
    }
}

/// What is known of an optional drag.
pub open spec fn drag_view(o: Option<DragState>) -> Option<DragView> {
    match o {
        Some(d) => Some(d@),
        None => None,
    }
}

impl View for BrowserCore {
    type V = CoreView;

    open spec fn view(&self) -> CoreView {
        CoreView {
            host: self.host@,
            local: self.local@,
            remote: self.remote@,
            focus: self.focus,
            status_msg: self.status_msg@,
            raw_snapshot: text::texts(self.raw_snapshot@),
            needs_redraw: self.needs_redraw,
            drive_picker: picker_view(self.drive_picker),
            status_color: self.status_color,
            cmd_start: self.cmd_start,
            last_duration: self.last_duration,
            prompt_stable: self.prompt_stable,
            prev_raw_len: self.prev_raw_len,
            selected: self.selected@,
            select_anchor: self.select_anchor,
            transfer: self.transfer@,
            delete: self.delete@,
            link_probe: optional_text(self.link_probe),
            paste_buf: self.paste_buf@,
            paste_deadline: self.paste_deadline,
            dropped: optional_texts(self.dropped),
            drop_confirm: optional_texts(self.drop_confirm),
            drop_scroll_x: self.drop_scroll_x,
            drop_scroll_y: self.drop_scroll_y,
            last_inner: self.last_inner,
            drag: drag_view(self.drag),
            exit_selection: self.exit_selection,
            reload_local: self.reload_local,
        }
    }
}

impl CoreView {
    /// A browser that has just been opened on `host`, with the local panel in
    /// the directory `start`.
    pub open spec fn opened(host: Seq<char>, start: Seq<char>) -> CoreView {
        CoreView {
            host,
            local: PanelView {
                path: start,
                entries: parse::listing_of(Seq::empty()),
                sel: ListState::at_first(),
                scroll_x: 0,
            },
            remote: PanelView {
                path: "."@,
                entries: Seq::empty(),
                sel: ListState::at_first(),
                scroll_x: 0,
            },
            focus: BrowserFocus::Local,
            status_msg: "Connecting…"@,
            raw_snapshot: Seq::empty(),
            needs_redraw: false,
            drive_picker: None,
            status_color: Color::Yellow,
            cmd_start: None,
            last_duration: None,
            prompt_stable: 0,
            prev_raw_len: 0,
            selected: Set::empty(),
            select_anchor: None,
            transfer: TransferView::none(),
            delete: DeleteView::none(),
            link_probe: None,
            paste_buf: Seq::empty(),
            paste_deadline: None,
            dropped: None,
            drop_confirm: None,
            drop_scroll_x: 0,
            drop_scroll_y: 0,
            last_inner: Rect { x: 0, y: 0, width: 0, height: 0 },
            drag: None,
            exit_selection: 0,
            reload_local: true,
        }
    }

    /// The state with another message in the status bar.
    pub open spec fn saying(self, msg: Seq<char>, color: Color) -> CoreView {
        CoreView { status_msg: msg, status_color: color, ..self }
    }

    /// The state when it has to be drawn again.
    pub open spec fn redrawn(self) -> CoreView {
        CoreView { needs_redraw: true, ..self }
    }
}

impl BrowserCore {
    /// The state of a browser that has just been opened on `host`, with the
    /// local panel in the directory `start`, which is still to be listed.
    pub fn new(host: &str, start: &str) -> (r: BrowserCore)
        ensures
            r@ == CoreView::opened(host@, start@),
    {
        let none: Vec<DirItem> = Vec::new();
        let entries = local_listing(none.as_slice());
        assert(super::parse::item_entries(none@) =~= Seq::empty());
        let r = BrowserCore {
            host: host.to_owned(),
            local: Panel { path: start.to_owned(), entries, sel: ListState::first(), scroll_x: 0 },
            remote: Panel {
                path: ".".to_owned(),
                entries: Vec::new(),
                sel: ListState::first(),
                scroll_x: 0,
            },
            focus: BrowserFocus::Local,
            status_msg: "Connecting…".to_owned(),
            raw_snapshot: Vec::new(),
            needs_redraw: false,
            drive_picker: None,
            status_color: Color::Yellow,
            cmd_start: None,
            last_duration: None,
            prompt_stable: 0,
            prev_raw_len: 0,
            selected: BTreeSet::new(),
            select_anchor: None,
            transfer: TransferState::default(),
            delete: DeleteState::default(),
            link_probe: None,
            paste_buf: String::new(),
            paste_deadline: None,
            dropped: None,
            drop_confirm: None,
            drop_scroll_x: 0,
            drop_scroll_y: 0,
            last_inner: Rect { x: 0, y: 0, width: 0, height: 0 },
            drag: None,
            exit_selection: 0,
            reload_local: true,
        };
        assert(r@ =~= CoreView::opened(host@, start@));
        r
    }

    /// Takes in the listing of the local directory that was asked for.
    pub fn set_local_items(&mut self, items: &[DirItem])
        ensures
            final(self)@ == (CoreView {
                local: PanelView {
                    entries: parse::listing_of(super::parse::item_entries(items@)),
                    ..old(self)@.local
                },
                reload_local: false,
                ..old(self)@
            }),
    {
        self.local.entries = local_listing(items);
        self.reload_local = false;
    }

    /// Puts a message into the status bar.
    pub fn say(&mut self, msg: String, color: Color)
        ensures
            final(self)@ == old(self)@.saying(msg@, color),
    {
        self.status_msg = msg;
        self.status_color = color;
    }
}

} // verus!
