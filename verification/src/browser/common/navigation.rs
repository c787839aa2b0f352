//! Focus, scrolling, directories, the drive picker, timers, and the detection
//! of dropped files.
use vstd::prelude::*;
use crate::browser::common;
use crate::browser::parse;
use crate::browser::path;
use crate::text;
use vstd::slice::slice_subrange;
use super::{
    BrowserCore, BrowserFocus, CoreView, LinkProbe, PanelView, PendingTransfer, PendingView,
    TransferDirection, TransferView, PROMPT_STABLE_TICKS,
};
use crate::browser::parse::{list_drives, local_listing, DirItem};
use crate::browser::path::{join, parent, remote_join, remote_up};
use crate::list_state::ListState;
use crate::style::Color;
use crate::text::{cat, chars_of, decimal_of, find, same, string_of, trim, trim_end, trim_start};

verus! {

impl CoreView {
    /// The state without the drive picker.
    pub open spec fn picker_dismissed(self) -> CoreView {
        if self.drive_picker is Some {
            CoreView { drive_picker: None, needs_redraw: true, ..self }
        } else {
            self
        }
    }

    /// The state with the keyboard in the other panel.
    pub open spec fn focus_toggled(self) -> CoreView {
        CoreView {
            focus: match self.focus {
                BrowserFocus::Local => BrowserFocus::Remote,
                BrowserFocus::Remote => BrowserFocus::Local,
            },
            ..self.picker_dismissed().unselected()
        }
    }

    /// The state with another panel in place of the one that has the keyboard.
    pub open spec fn with_focused_panel(self, p: PanelView) -> CoreView {
        match self.focus {
            BrowserFocus::Local => CoreView { local: p, ..self },
            BrowserFocus::Remote => CoreView { remote: p, ..self },
        }
    }

    /// The state with the focused panel scrolled to the left.
    pub open spec fn scrolled_left(self) -> CoreView {
        if self.focused_panel().scroll_x > 0 {
            self.with_focused_panel(self.focused_panel().scrolled_left()).redrawn()
        } else {
            self
        }
    }

    /// The state with the focused panel scrolled to the right.
    pub open spec fn scrolled_right(self) -> CoreView {
        self.with_focused_panel(self.focused_panel().scrolled_right()).redrawn()
    }

    /// The state with the cursor of the drive picker, or else of the focused
    /// panel, one row up or down.
    pub open spec fn cursor_moved(self, down: bool) -> CoreView {
        match self.drive_picker {
            Some((drives, sel)) => CoreView {
                drive_picker: Some(
                    (
                        drives,
                        if down {
                            sel.advanced()
                        } else {
                            sel.retreated()
                        },
                    ),
                ),
                ..self
            }.redrawn(),
            None => {
                let p = self.focused_panel();
                self.with_focused_panel(
                    p.with_sel(
                        if down {
                            p.sel.advanced()
                        } else {
                            p.sel.retreated()
                        },
                    ),
                )
            },
        }
    }

    /// The state with the local panel in another directory, which is still to
    /// be listed: until then it shows only the way back up.
    pub open spec fn local_at(self, path: Seq<char>) -> CoreView {
        CoreView {
            local: PanelView {
                path,
                entries: parse::listing_of(Seq::empty()),
                sel: self.local.sel.with_selected(Some(0)),
                ..self.local
            },
            reload_local: true,
            ..self
        }
    }

    /// The state after the local panel was moved to another directory.
    pub open spec fn local_moved(self, path: Seq<char>) -> CoreView {
        CoreView { last_duration: None, ..self.local_at(path) }.saying(
            "Local: "@ + path,
            Color::Green,
        ).redrawn()
    }

    /// The state with the drive picker open.
    pub open spec fn picking_drive(self) -> CoreView {
        CoreView { drive_picker: Some((seq!["/"@], ListState::at_first())), ..self }.redrawn()
    }

    /// The state after the local panel went up one directory; above the root
    /// is the drive picker.
    pub open spec fn local_went_up(self) -> CoreView {
        match path::parent_of(self.local.path) {
            Some(p) => self.local_moved(p),
            None => self.picking_drive(),
        }
    }

    /// The state after the local panel was asked to go into what is under its
    /// cursor: a drive of the picker, the parent directory, or a directory.
    pub open spec fn local_entered(self) -> CoreView {
        match self.drive_picker {
            Some((drives, sel)) => {
                let s = CoreView { drive_picker: None, ..self };
                match sel.selected {
                    Some(i) => if i < drives.len() {
                        s.local_at(drives[i as int]).redrawn()
                    } else {
                        s.redrawn()
                    },
                    None => s.redrawn(),
                }
            },
            None => match self.local.focused() {
                Some(e) => if e.name == ".."@ {
                    self.local_went_up()
                } else if e.is_dir {
                    self.local_moved(path::joined(self.local.path, e.name))
                } else {
                    self
                },
                None => self,
            },
        }
    }

    /// The state with the remote panel in another directory.
    pub open spec fn remote_at(self, path: Seq<char>) -> CoreView {
        CoreView { remote: PanelView { path, ..self.remote }, ..self }
    }

    /// The state after one more look at the raw output, of which there are
    /// `len` bytes: a look counts where nothing has changed since the one
    /// before and the prompt is there; otherwise the count starts over.
    pub open spec fn watched(self, len: usize, has_prompt: bool) -> CoreView {
        if len != self.prev_raw_len {
            CoreView { prompt_stable: 0, prev_raw_len: len, ..self }
        } else if has_prompt {
            CoreView {
                prompt_stable: if self.prompt_stable == u8::MAX {
                    u8::MAX
                } else {
                    (self.prompt_stable + 1) as u8
                },
                ..self
            }
        } else {
            CoreView { prompt_stable: 0, ..self }
        }
    }

    /// Whether the prompt has been there long enough.
    pub open spec fn prompt_ready(self) -> bool {
        self.prompt_stable >= PROMPT_STABLE_TICKS
    }

    /// The state after the timer of a command was stopped.
    pub open spec fn timer_stopped(self, now: u64) -> CoreView {
        match self.cmd_start {
            Some(start) => CoreView {
                cmd_start: None,
                last_duration: Some(since(start, now)),
                ..self
            },
            None => self,
        }
    }

    /// The state after the deadline of a paste was checked. Once it has
    /// passed, the names in the paste are to be looked up.
    pub open spec fn paste_checked(self, now: u64) -> CoreView {
        match self.paste_deadline {
            Some(d) => if now >= d {
                CoreView {
                    paste_buf: Seq::empty(),
                    paste_deadline: None,
                    dropped: Some(dropped_names(self.paste_buf)),
                    ..self
                }
            } else {
                self
            },
            None => self,
        }
    }

    /// The state after the pasted names were looked up and these were found.
    pub open spec fn drop_resolved(self, found: Seq<Seq<char>>) -> CoreView {
        let s = CoreView { dropped: None, ..self };
        if found.len() == 0 {
            CoreView { status_msg: Seq::empty(), ..s }.redrawn()
        } else {
            CoreView { drop_confirm: Some(found), drop_scroll_x: 0, drop_scroll_y: 0, ..s }.saying(
                text::decimal(found.len()) + " file(s) ready to upload"@,
                Color::Cyan,
            ).redrawn()
        }
    }

    /// The state after it turned out what the symbolic link that was entered
    /// leads to. From a file or from nowhere the panel goes back up; a file is
    /// queued for download.
    pub open spec fn link_probed(self, name: Seq<char>, probe: LinkProbe) -> CoreView {
        let up = self.remote_at(path::changed_directory(self.remote.path, ".."@));
        match probe {
            LinkProbe::Dir => self,
            LinkProbe::File => CoreView {
                transfer: TransferView {
                    pending: self.transfer.pending.push(
                        PendingView {
                            path: path::remote_child(up.remote.path, name),
                            name,
                            is_dir: false,
                        },
                    ),
                    pending_direction: Some(TransferDirection::Download),
                    ..self.transfer
                },
                ..up
            }.redrawn(),
            LinkProbe::Broken => up.saying(name + ": broken symbolic link"@, Color::Red).redrawn(),
        }
    }
}

/// The time from `start` to `now`, or zero where `start` is later.
pub open spec fn since(start: u64, now: u64) -> u64 {
    if now >= start {
        (now - start) as u64
    } else {
        0
    }
}

/// How a duration in milliseconds is shown: in its largest unit up to hours.
pub open spec fn duration_text(ms: nat) -> Seq<char> {
    if ms < 1000 {
        text::decimal(ms) + "ms"@
    } else if ms < 60_000 {
        text::decimal(ms / 1000) + "s"@
    } else if ms < 3_600_000 {
        text::decimal(ms / 60_000) + "m"@
    } else {
        text::decimal(ms / 3_600_000) + "h"@
    }
}

impl BrowserCore {
    /// Gives the keyboard to the other panel.
    pub fn toggle_focus(&mut self)
        ensures
            final(self)@ == old(self)@.focus_toggled(),
    {
        self.dismiss_drive_picker();
        self.clear_selection();
        self.focus = match self.focus {
            BrowserFocus::Local => BrowserFocus::Remote,
            BrowserFocus::Remote => BrowserFocus::Local,
        };
        assert(self@ =~= old(self)@.focus_toggled());
    }

    /// Scrolls the focused panel left.
    pub fn scroll_left(&mut self)
        ensures
            final(self)@ == old(self)@.scrolled_left(),
    {
        let changed = match self.focus {
            BrowserFocus::Local => self.local.scroll_left(),
            BrowserFocus::Remote => self.remote.scroll_left(),
        };
        if changed {
            self.needs_redraw = true;
        }
        assert(self@ =~= old(self)@.scrolled_left());
    }

    /// Scrolls the focused panel right.
    pub fn scroll_right(&mut self)
        ensures
            final(self)@ == old(self)@.scrolled_right(),
    {
        match self.focus {
            BrowserFocus::Local => self.local.scroll_right(),
            BrowserFocus::Remote => self.remote.scroll_right(),
        }
        self.needs_redraw = true;
        assert(self@ =~= old(self)@.scrolled_right());
    }

    /// Moves the cursor up.
    pub fn nav_up(&mut self)
        ensures
            final(self)@ == old(self)@.cursor_moved(false),
    {
        if let Some(picker) = &mut self.drive_picker {
            picker.1.select_previous();
            self.needs_redraw = true;
            assert(self@ =~= old(self)@.cursor_moved(false));
            return ;
        }
        match self.focus {
            BrowserFocus::Local => self.local.nav_up(),
            BrowserFocus::Remote => self.remote.nav_up(),
        }
        assert(self@ =~= old(self)@.cursor_moved(false));
    }

    /// Moves the cursor down.
    pub fn nav_down(&mut self)
        ensures
            final(self)@ == old(self)@.cursor_moved(true),
    {
        if let Some(picker) = &mut self.drive_picker {
            picker.1.select_next();
            self.needs_redraw = true;
            assert(self@ =~= old(self)@.cursor_moved(true));
            return ;
        }
        match self.focus {
            BrowserFocus::Local => self.local.nav_down(),
            BrowserFocus::Remote => self.remote.nav_down(),
        }
        assert(self@ =~= old(self)@.cursor_moved(true));
    }

    /// Closes the drive picker.
    pub fn dismiss_drive_picker(&mut self)
        ensures
            final(self)@ == old(self)@.picker_dismissed(),
    {
        if self.drive_picker.is_some() {
            self.drive_picker = None;
            self.needs_redraw = true;
        }
        assert(self@ =~= old(self)@.picker_dismissed());
    }

    fn move_local(&mut self, path: String)
        ensures
            final(self)@ == old(self)@.local_at(path@),
    {
        let none: Vec<DirItem> = Vec::new();
        assert(parse::item_entries(none@) =~= Seq::empty());
        self.local.entries = local_listing(none.as_slice());
        self.local.path = path;
        self.local.sel.select_first();
        self.reload_local = true;
        assert(self@ =~= old(self)@.local_at(path@));
    }

    fn go_local(&mut self, path: String)
        ensures
            final(self)@ == old(self)@.local_moved(path@),
    {
        let msg = cat("Local: ", path.as_str());
        self.move_local(path);
        self.say(msg, Color::Green);
        self.last_duration = None;
        self.needs_redraw = true;
        assert(self@ =~= old(self)@.local_moved(path@));
    }

    fn go_local_up(&mut self)
        ensures
            final(self)@ == old(self)@.local_went_up(),
    {
        match parent(self.local.path.as_str()) {
            Some(p) => self.go_local(p),
            None => self.show_drive_picker(),
        }
    }

    /// Goes into what is under the cursor of the local panel.
    pub fn local_enter(&mut self)
        ensures
            final(self)@ == old(self)@.local_entered(),
    {
        let picked = match &self.drive_picker {
            Some(picker) => {
                let chosen: Option<String> = match picker.1.selected() {
                    Some(i) => {
                        if i < picker.0.len() {
                            assert(text::texts(picker.0@)[i as int] == picker.0@[i as int]@);
                            Some(picker.0[i].clone())
                        } else {
                            None
                        }
                    },
                    None => None,
                };
                Some(chosen)
            },
            None => None,
        };
        if let Some(chosen) = picked {
            self.drive_picker = None;
            if let Some(drive) = chosen {
                self.move_local(drive);
            }
            self.needs_redraw = true;
            assert(self@ =~= old(self)@.local_entered());
            return ;
        }
        let entry = match self.local.focused_entry() {
            Some(e) => e.clone(),
            None => {
                return ;
            },
        };
        if same(entry.name.as_str(), "..") {
            self.go_local_up();
        } else if entry.is_dir {
            let path = join(self.local.path.as_str(), entry.name.as_str());
            self.go_local(path);
        }
    }

    /// Goes up one directory in the local panel.
    pub fn local_go_up(&mut self)
        ensures
            final(self)@ == if old(self)@.drive_picker is Some {
                old(self)@.picker_dismissed()
            } else {
                old(self)@.local_went_up()
            },
    {
        if self.drive_picker.is_some() {
            self.dismiss_drive_picker();
        } else {
            self.go_local_up();
        }
    }

    fn show_drive_picker(&mut self)
        ensures
            final(self)@ == old(self)@.picking_drive(),
    {
        let drives = list_drives();
        self.drive_picker = Some((drives, ListState::first()));
        self.needs_redraw = true;
        assert(self@ =~= old(self)@.picking_drive());
    }

    /// Changes the directory of the remote panel.
    pub fn apply_cd(&mut self, name: &str)
        ensures
            final(self)@ == old(self)@.remote_at(
                path::changed_directory(old(self)@.remote.path, name@),
            ),
    {
        let path = if same(name, "..") {
            remote_up(self.remote.path.as_str())
        } else {
            remote_join(self.remote.path.as_str(), name)
        };
        self.remote.path = path;
    }

    /// Takes one more look at the raw output. Returns whether the prompt has
    /// been there for [`PROMPT_STABLE_TICKS`] looks in a row without a change.
    pub fn update_prompt_stability(&mut self, cur_len: usize, has_prompt: bool) -> (r: bool)
        ensures
            final(self)@ == old(self)@.watched(cur_len, has_prompt),
            r == final(self)@.prompt_ready(),
    {
        if cur_len != self.prev_raw_len {
            self.prompt_stable = 0;
            self.prev_raw_len = cur_len;
        } else if has_prompt {
            self.prompt_stable = self.prompt_stable.saturating_add(1);
        } else {
            self.prompt_stable = 0;
        }
        assert(self@ =~= old(self)@.watched(cur_len, has_prompt));
        self.prompt_stable >= PROMPT_STABLE_TICKS
    }

    /// Stops the timer of a command.
    pub fn stop_timer(&mut self, now: u64)
        ensures
            final(self)@ == old(self)@.timer_stopped(now),
    {
        if let Some(start) = self.cmd_start {
            self.cmd_start = None;
            self.last_duration = Some(now.saturating_sub(start));
        }
        assert(self@ =~= old(self)@.timer_stopped(now));
    }

    /// Writes a duration in milliseconds for people to read.
    pub fn format_duration(ms: u64) -> (r: String)
        ensures
            r@ == duration_text(ms as nat),
    {
        if ms < 1000 {
            cat(decimal_of(ms).as_str(), "ms")
        } else if ms < 60_000 {
            cat(decimal_of(ms / 1000).as_str(), "s")
        } else if ms < 3_600_000 {
            cat(decimal_of(ms / 60_000).as_str(), "m")
        } else {
            cat(decimal_of(ms / 3_600_000).as_str(), "h")
        }
    }

    /// Called each tick. Once the deadline of a paste has passed, asks for the
    /// pasted names to be looked up.
    pub fn check_paste_deadline(&mut self, now: u64)
        ensures
            final(self)@ == old(self)@.paste_checked(now),
    {
        if let Some(d) = self.paste_deadline {
            if now >= d {
                let names = parse_dropped_paths(self.paste_buf.as_str());
                self.paste_buf = String::new();
                self.paste_deadline = None;
                self.dropped = Some(names);
                assert(self@ =~= old(self)@.paste_checked(now));
            }
        }
    }

    /// Takes in which of the pasted names lead to files.
    pub fn resolve_drop(&mut self, found: Vec<String>)
        ensures
            final(self)@ == old(self)@.drop_resolved(text::texts(found@)),
    {
        self.dropped = None;
        if found.len() == 0 {
            self.status_msg = String::new();
        } else {
            let msg = cat(decimal_of(found.len() as u64).as_str(), " file(s) ready to upload");
            self.drop_confirm = Some(found);
            self.drop_scroll_x = 0;
            self.drop_scroll_y = 0;
            self.say(msg, Color::Cyan);
        }
        self.needs_redraw = true;
        assert(text::texts(found@).len() == found@.len());
        assert(self@ =~= old(self)@.drop_resolved(text::texts(found@)));
    }

    /// Takes in what the symbolic link that was entered leads to. Returns
    /// whether the remote directory changed and is to be listed again.
    pub fn apply_link_probe(&mut self, name: &str, probe: LinkProbe) -> (r: bool)
        ensures
            final(self)@ == old(self)@.link_probed(name@, probe),
            r == (probe != LinkProbe::Dir),
    {
        match probe {
            LinkProbe::Dir => false,
            LinkProbe::File => {
                self.apply_cd("..");
                let p = PendingTransfer {
                    path: remote_join(self.remote.path.as_str(), name),
                    name: name.to_owned(),
                    is_dir: false,
                };
                let ghost before = common::pending_view(self.transfer.pending@);
                let ghost view = p@;
                self.transfer.pending.push(p);
                assert(common::pending_view(self.transfer.pending@) =~= before.push(view));
                self.transfer.pending_direction = Some(TransferDirection::Download);
                self.needs_redraw = true;
                assert(self@ =~= old(self)@.link_probed(name@, probe));
                true
            },
            LinkProbe::Broken => {
                self.apply_cd("..");
                self.say(cat(name, ": broken symbolic link"), Color::Red);
                self.needs_redraw = true;
                assert(self@ =~= old(self)@.link_probed(name@, probe));
                true
            },
        }
    }
}

// ---------------------------------------------------------------------------
// Names in a paste
// ---------------------------------------------------------------------------

/// Whether a new absolute path begins at `i`: with a slash, or with a drive
/// letter, a colon and a backslash.
pub open spec fn path_begins(s: Seq<char>, i: int) -> bool {
    ||| i < s.len() && s[i] == '/'
    ||| i + 2 < s.len() && (s[i] as u32) < 0x80 && s[i + 1] == ':' && s[i + 2] == '\\'
}

/// The first place from `i` on with a space in front of a new path, or the
/// length.
pub open spec fn boundary_from(s: Seq<char>, i: int) -> int
    decreases s.len() - i,
{
    if i >= s.len() {
        s.len() as int
    } else if s[i] == ' ' && path_begins(s, i + 1) {
        i
    } else {
        boundary_from(s, i + 1)
    }
}

proof fn lemma_boundary(s: Seq<char>, i: int)
    requires
        0 <= i <= s.len(),
    ensures
        i <= boundary_from(s, i) <= s.len(),
    decreases s.len() - i,
{
    if i < s.len() && !(s[i] == ' ' && path_begins(s, i + 1)) {
        lemma_boundary(s, i + 1);
    }
}

/// The names in a run of text: in double quotes, or up to the space in front
/// of the next absolute path.
pub open spec fn names_in(s: Seq<char>) -> Seq<Seq<char>>
    decreases s.len(),
    via names_in_decreases
{
    let t = text::trimmed_start(s);
    if t.len() == 0 {
        Seq::empty()
    } else if t[0] == '"' {
        let e = text::find_from(t, '"', 1);
        if e < t.len() {
            seq![t.subrange(1, e)] + names_in(t.skip(e + 1))
        } else {
            seq![t.skip(1)]
        }
    } else {
        let e = boundary_from(t, 1);
        if e < t.len() {
            seq![text::trimmed_end(t.take(e))] + names_in(t.skip(e))
        } else {
            seq![t]
        }
    }
}

#[via_fn]
proof fn names_in_decreases(s: Seq<char>) {
    text::lemma_trimmed_start(s);
    let t = text::trimmed_start(s);
    if t.len() > 0 {
        text::lemma_find_from(t, '"', 1);
        lemma_boundary(t, 1);
    }
}

/// The names in a paste.
pub open spec fn dropped_names(text: Seq<char>) -> Seq<Seq<char>> {
    names_in(text::trimmed(text))
}

/// Lists the file names in text that was pasted by a file drop. Names may be
/// in quotes, and several may follow each other.
pub fn parse_dropped_paths(text: &str) -> (r: Vec<String>)
    ensures
        text::texts(r@) == dropped_names(text@),
{
    let all = chars_of(text);
    let mut names: Vec<String> = Vec::new();
    let mut rest: &[char] = trim(all.as_slice());
    let ghost whole = rest@;
    assert(text::texts(names@) + names_in(rest@) =~= names_in(whole));
    loop
        invariant_except_break
            text::texts(names@) + names_in(rest@) == names_in(whole),
        ensures
            text::texts(names@) == names_in(whole),
        decreases rest@.len(),
    {
        let t = trim_start(rest);
        proof {
            text::lemma_trimmed_start(rest@);
        }
        let ghost before = text::texts(names@);
        if t.len() == 0 {
            assert(text::texts(names@) + names_in(rest@) =~= text::texts(names@));
            break ;
        }
        let quoted = t[0] == '"';
        let e: usize = if quoted {
            find(t, '"', 1)
        } else {
            find_path_boundary(t)
        };
        let name = if quoted {
            assert(e == t@.len() ==> t@.subrange(1, e as int) =~= t@.skip(1));
            string_of(slice_subrange(t, 1, e))
        } else if e < t.len() {
            assert(t@.subrange(0, e as int) =~= t@.take(e as int));
            string_of(trim_end(slice_subrange(t, 0, e)))
        } else {
            string_of(t)
        };
        let ghost view = name@;
        names.push(name);
        assert(text::texts(names@) =~= before.push(view));
        if e >= t.len() {
            assert(before + names_in(rest@) =~= text::texts(names@));
            break ;
        }
        let next: usize = if quoted {
            e + 1
        } else {
            e
        };
        let after = slice_subrange(t, next, t.len());
        assert(after@ =~= t@.skip(next as int));
        assert(text::texts(names@) + names_in(after@) =~= before + (seq![view] + names_in(after@)));
        proof {
            lemma_boundary(t@, 1);
        }
        rest = after;
    }
    names
}

/// Finds where one unquoted path ends and the next begins; the length where
/// there is no next.
pub fn find_path_boundary(s: &[char]) -> (r: usize)
    ensures
        r == boundary_from(s@, 1),
        r <= s@.len(),
        s@.len() > 0 ==> r >= 1,
{
    let n: usize = s.len();
    if n == 0 {
        return 0;
    }
    let mut i: usize = 1;
    while i < n
        invariant
            1 <= i <= n == s@.len(),
            boundary_from(s@, i as int) == boundary_from(s@, 1),
        decreases n - i,
    {
        if s[i] == ' ' && begins_path(slice_subrange(s, i + 1, n)) {
            assert(path_begins(s@, i + 1)) by {
                let t = s@.subrange(i + 1, n as int);
                assert(t.len() == n - i - 1);
                if t.len() > 0 {
                    assert(t[0] == s@[i + 1]);
                }
                if t.len() > 2 {
                    assert(t[1] == s@[i + 2] && t[2] == s@[i + 3]);
                }
            }
            return i;
        }
        assert(s@[i as int] == ' ' ==> !path_begins(s@, i + 1)) by {
            let t = s@.subrange(i + 1, n as int);
            if t.len() > 0 {
                assert(t[0] == s@[i + 1]);
            }
            if t.len() > 2 {
                assert(t[1] == s@[i + 2] && t[2] == s@[i + 3]);
            }
        }
        i += 1;
    }
    i
}

fn begins_path(s: &[char]) -> (r: bool)
    ensures
        r == path_begins(s@, 0),
{
    if s.len() > 0 && s[0] == '/' {
        return true;
    }
    s.len() > 2 && (s[0] as u32) < 0x80 && s[1] == ':' && s[2] == '\\'
}

} // verus!
