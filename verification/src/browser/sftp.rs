//! The SFTP browser: drives an interactive `sftp` through a pseudo-terminal.
use vstd::prelude::*;
use crate::browser::common::navigation;
use crate::browser::common;
use crate::browser::parse;
use crate::browser::path;
use crate::pty;
use crate::text;
use super::common::{
    BrowserCore, BrowserFocus, CoreView, DeleteKind, DeleteLocation, DeleteView, LinkProbe,
    PanelView, PendingView, StatusView, TransferDirection, TransferView,
    COMMAND_TIMEOUT_SECS, PROMPT_TAIL_BYTES,
};

use super::parse::{
    contains_any_error, last_shown_line, parse_ls, parse_pwd, shell_quote, strip_ansi,
    transfer_percent, EntryView, FsEntry,
};
use super::path::{strip_slashes, to_slashes};
use crate::event::KeyCode;
use crate::pty::{PtyChannel, PtyView};
use crate::style::Color;
use crate::text::{cat, cat3, cat5, chars_of, contains, decimal_of, lines, same};

verus! {

/// What the browser is waiting for.
#[derive(Clone, Copy, Debug, PartialEq, Eq, Structural)]
pub enum SftpState {
    Connecting,
    Idle,
    WaitingPwd,
    WaitingLs,
    WaitingDelete,
    Transferring,
}

/// A browser over SFTP.
#[derive(Debug)]
pub struct FileBrowser {
    pub core: BrowserCore,
    pub sftp: PtyChannel,
    pub sftp_state: SftpState,
}

/// What the state of an SFTP browser says.
#[verifier::ext_equal]
pub struct SftpView {
    pub core: CoreView,
    pub sftp: PtyView,
    pub state: SftpState,
}

impl View for FileBrowser {
    type V = SftpView;

    open spec fn view(&self) -> SftpView {
        SftpView { core: self.core@, sftp: self.sftp@, state: self.sftp_state }
    }
}

// ---------------------------------------------------------------------------
// What the output says
// ---------------------------------------------------------------------------

/// Whether the last line of the output is the prompt of `sftp`.
pub open spec fn at_sftp_prompt(p: PtyView) -> bool {
    let tail = pty::last_bytes(p.raw, PROMPT_TAIL_BYTES as nat);
    tail.len() > 0 && match parse::last_shown(pty::plain_lines(tail)) {
        Some(l) => text::has_part(l, "sftp>"@),
        None => false,
    }
}

fn sftp_prompt_at_tail(pty: &PtyChannel) -> (r: bool)
    ensures
        r == at_sftp_prompt(pty@),
{
    let tail = pty.raw_tail(PROMPT_TAIL_BYTES);
    if tail.len() == 0 {
        return false;
    }
    let text = strip_ansi(tail.as_slice());
    let ls = lines(text.as_str());
    match last_shown_line(&ls) {
        Some(l) => {
            let v = chars_of(l.as_str());
            contains(v.as_slice(), "sftp>")
        },
        None => false,
    }
}

/// What `sftp` says when a transfer fails.
pub open spec fn transfer_errors() -> Seq<Seq<char>> {
    seq!["permission denied"@, "no such file"@, "couldn't"@]
}

/// What `sftp` says when a deletion fails.
pub open spec fn sftp_delete_errors() -> Seq<Seq<char>> {
    seq!["failure"@, "couldn't"@, "not empty"@, "permission denied"@]
}

fn transfer_failed(lines: &Vec<String>) -> (r: bool)
    ensures
        r == parse::shows_any(text::texts(lines@), transfer_errors()),
{
    let mut m: Vec<&str> = Vec::new();
    m.push("permission denied");
    m.push("no such file");
    m.push("couldn't");
    assert(parse::str_texts(m@) =~= transfer_errors());
    contains_any_error(lines.as_slice(), m.as_slice())
}

fn delete_failed(lines: &Vec<String>) -> (r: bool)
    ensures
        r == parse::shows_any(text::texts(lines@), sftp_delete_errors()),
{
    let mut m: Vec<&str> = Vec::new();
    m.push("failure");
    m.push("couldn't");
    m.push("not empty");
    m.push("permission denied");
    assert(parse::str_texts(m@) =~= sftp_delete_errors());
    contains_any_error(lines.as_slice(), m.as_slice())
}

/// What the listing of a symbolic link says about it. Listing a link to a file
/// shows that file, under the name of the link; listing a link to nowhere
/// shows the link itself.
pub open spec fn probe_in(listing: Seq<EntryView>, link: Seq<char>) -> LinkProbe {
    if listing.len() == 2 && listing[1].name == link {
        if listing[1].is_link {
            LinkProbe::Broken
        } else if !listing[1].is_dir {
            LinkProbe::File
        } else {
            LinkProbe::Dir
        }
    } else {
        LinkProbe::Dir
    }
}

/// The number of lines that name a file of a directory in transfer, in the
/// first `n`.
pub open spec fn files_named(ls: Seq<Seq<char>>, n: int) -> nat
    decreases n,
{
    if n <= 0 {
        0
    } else {
        files_named(ls, n - 1) + if text::has_part(ls[n - 1], "Fetching "@) || text::has_part(
            ls[n - 1],
            "Uploading "@,
        ) {
            1nat
        } else {
            0nat
        }
    }
}

fn count_files(lines: &Vec<String>) -> (r: usize)
    ensures
        r == files_named(text::texts(lines@), lines@.len() as int),
        r <= lines@.len(),
{
    let ghost ls = text::texts(lines@);
    let mut n: usize = 0;
    let mut i: usize = 0;
    while i < lines.len()
        invariant
            n <= i <= lines@.len(),
            ls == text::texts(lines@),
            n == files_named(ls, i as int),
        decreases lines@.len() - i,
    {
        let line = chars_of(lines[i].as_str());
        assert(ls[i as int] == line@);
        if contains(line.as_slice(), "Fetching ") || contains(line.as_slice(), "Uploading ") {
            n += 1;
        }
        i += 1;
    }
    n
}

/// The output that is kept of a long transfer, once there is more than that
/// much of it.
pub const PROGRESS_LIMIT: usize = 16384;

/// How much of the output of a long transfer is kept.
pub const PROGRESS_KEPT: usize = 1024;

// ---------------------------------------------------------------------------
// Commands
// ---------------------------------------------------------------------------

/// The option for directories.
pub open spec fn recursive_flag(is_dir: bool) -> Seq<char> {
    if is_dir {
        "-r "@
    } else {
        ""@
    }
}

/// The command that lists a remote directory.
pub open spec fn ls_command(path: Seq<char>) -> Seq<char> {
    "ls -la "@ + parse::shell_quoted(path) + "\r\n"@
}

/// The command that downloads a remote file into a local directory.
pub open spec fn get_command(p: PendingView, local: Seq<char>) -> Seq<char> {
    "get "@ + recursive_flag(p.is_dir) + parse::shell_quoted(p.path) + " "@ + (parse::shell_quoted(
        path::with_slashes(local) + "/"@,
    ) + "\r\n"@)
}

/// The command that uploads a local file into a remote directory.
pub open spec fn put_command(p: PendingView, remote: Seq<char>) -> Seq<char> {
    "put "@ + recursive_flag(p.is_dir) + parse::shell_quoted(p.path) + " "@ + (parse::shell_quoted(
        path::without_slashes(remote) + "/"@,
    ) + "\r\n"@)
}

/// The command that deletes a remote file.
pub open spec fn sftp_delete_command(kind: DeleteKind, path: Seq<char>) -> Seq<char> {
    match kind {
        DeleteKind::Dir => "rmdir "@ + parse::shell_quoted(path) + "\r\n"@,
        DeleteKind::File => "rm "@ + parse::shell_quoted(path) + "\r\n"@,
    }
}

// ---------------------------------------------------------------------------
// Steps
// ---------------------------------------------------------------------------

/// Whether a command that was started at `start` has taken too long.
pub open spec fn timed_out(start: Option<u64>, now: u64) -> bool {
    start is Some && navigation::since(start->0, now) as int / 1000 >= COMMAND_TIMEOUT_SECS
}

/// Whether a command that was started at `start` has taken too long.
pub(crate) fn has_timed_out(start: Option<u64>, now: u64) -> (r: bool)
    ensures
        r == timed_out(start, now),
{
    match start {
        Some(s) => now.saturating_sub(s) / 1000 >= COMMAND_TIMEOUT_SECS,
        None => false,
    }
}

/// The state of the remote panel after a listing has arrived: the cursor stays
/// in its row where there still is one.
pub open spec fn panel_listed(p: PanelView, listing: Seq<EntryView>) -> PanelView {
    let cur: usize = match p.sel.selected {
        Some(i) => i,
        None => 0,
    };
    let max = if listing.len() == 0 {
        0
    } else {
        listing.len() - 1
    };
    PanelView {
        entries: listing,
        sel: p.sel.with_selected(
            Some(
                if cur <= max {
                    cur
                } else {
                    max as usize
                },
            ),
        ),
        ..p
    }
}

impl CoreView {
    /// The state after a listing of the remote directory has arrived.
    pub open spec fn listed(self, listing: Seq<EntryView>, now: u64) -> CoreView {
        let s = CoreView {
            remote: panel_listed(self.remote, listing),
            raw_snapshot: Seq::empty(),
            ..self
        }.timer_stopped(now);
        CoreView {
            status_color: if s.status_color == Color::Yellow {
                Color::Green
            } else {
                s.status_color
            },
            ..s
        }.redrawn()
    }

    /// The state after a command has taken too long.
    pub open spec fn gave_up(self) -> CoreView {
        CoreView { cmd_start: None, link_probe: None, ..self }.saying(
            "Command timed out"@,
            Color::Red,
        ).redrawn()
    }

    /// The state after the remote panel was asked to go to another directory.
    pub open spec fn remote_going(self, path: Seq<char>) -> CoreView {
        self.remote_at(path).saying("Remote: "@ + path, Color::Yellow)
    }

    /// The state after a deletion was sent to the other side.
    pub open spec fn deleting(self) -> CoreView {
        let path = self.delete.confirm->0.path;
        self.with_delete(
            DeleteView {
                confirm: None,
                pending_name: Some(path),
                removing: false,
                ..self.delete
            },
        ).saying("Deleting "@ + path + "..."@, Color::Yellow).redrawn()
    }

    /// The state after the reply to a deletion has arrived. A failure cancels
    /// the deletions that wait.
    pub open spec fn delete_answered(self, failed: bool) -> CoreView {
        match self.delete.pending_name {
            Some(name) => {
                let s = self.with_delete(DeleteView { pending_name: None, ..self.delete });
                if failed {
                    s.with_delete(DeleteView { pending: Seq::empty(), ..s.delete }).saying(
                        "Delete failed: "@ + name,
                        Color::Red,
                    )
                } else {
                    s.saying("Deleted remote: "@ + name, Color::Green)
                }
            },
            None => self,
        }
    }

    /// The state after an SFTP transfer has ended. A failure cancels the
    /// transfers that wait.
    pub open spec fn transfer_ended(self, failed: bool) -> CoreView {
        let s = self.last_completed();
        let said = match self.transfer.last {
            Some(t) => s.saying(
                (if failed {
                    "Transfer failed"@
                } else {
                    match t.direction {
                        TransferDirection::Download => "Downloaded"@,
                        TransferDirection::Upload => "Uploaded"@,
                    }
                }) + ": "@ + t.filename,
                if failed {
                    Color::Red
                } else {
                    Color::Green
                },
            ),
            None => s,
        };
        let left = if failed {
            said.transfers_dropped()
        } else {
            said
        };
        CoreView {
            transfer: TransferView { current: None, ..left.transfer },
            reload_local: true,
            ..left
        }.one_done()
    }

    /// The state with other news about the transfer under way.
    pub open spec fn with_last(self, t: StatusView) -> CoreView {
        CoreView { transfer: TransferView { last: Some(t), ..self.transfer }, ..self }
    }
}

impl SftpView {
    /// The browser with a command sent that lists the remote directory.
    pub open spec fn listing_asked(self, now: u64) -> SftpView {
        SftpView {
            core: CoreView { cmd_start: Some(now), ..self.core },
            sftp: self.sftp.sent(ls_command(self.core.remote.path)),
            ..self
        }
    }

    /// The browser after the connection was lost.
    pub open spec fn lost(self) -> SftpView {
        SftpView {
            core: self.core.work_lost("SFTP connection lost"@),
            state: SftpState::Idle,
            ..self
        }
    }

    /// The browser after a transfer was started.
    pub open spec fn transferring(
        self,
        p: PendingView,
        direction: TransferDirection,
        now: u64,
    ) -> SftpView {
        let c = self.core.next_taken();
        let begun = c.begun(p.name, p.is_dir, direction, now);
        SftpView {
            core: CoreView {
                transfer: TransferView { current: Some(p), ..begun.transfer },
                ..begun
            },
            sftp: self.sftp.sent(
                match direction {
                    TransferDirection::Download => get_command(p, c.local.path),
                    TransferDirection::Upload => put_command(p, c.remote.path),
                },
            ),
            state: SftpState::Transferring,
        }
    }

    /// The browser after it was asked for a transfer. It takes none while it
    /// is busy, or where there is nothing to transfer.
    pub open spec fn transfer_asked(self, direction: TransferDirection, now: u64) -> SftpView {
        if self.state != SftpState::Idle {
            self
        } else {
            match self.core.source(direction) {
                Some(p) => self.transferring(p, direction, now),
                None => self,
            }
        }
    }

    /// The browser after a deletion was confirmed. The application removes
    /// local files; remote ones are deleted by a command.
    pub open spec fn delete_confirmed(self) -> SftpView {
        if self.core.confirms_local() {
            SftpView { core: self.core.removing_local(), ..self }
        } else if self.core.delete.confirm is Some {
            let t = self.core.delete.confirm->0;
            SftpView {
                core: self.core.deleting(),
                sftp: self.sftp.drained().sent(sftp_delete_command(t.kind, t.path)),
                state: SftpState::WaitingDelete,
            }
        } else {
            self
        }
    }

    /// The browser after the next thing that waits was started: a transfer,
    /// or else a deletion. While a question is up, no deletion is taken: those
    /// that wait may be what it asks about.
    pub open spec fn next_started(self, now: u64) -> SftpView {
        if self.core.transfer.pending.len() > 0 {
            self.transfer_asked(self.core.pending_direction(), now)
        } else if self.core.delete.confirm is None && self.core.delete.pending.len() > 0 {
            SftpView { core: self.core.next_delete_taken(), ..self }.delete_confirmed()
        } else {
            self
        }
    }

    /// A tick while connecting.
    pub open spec fn tick_connecting(self, now: u64) -> SftpView {
        SftpView {
            core: CoreView { cmd_start: Some(now), ..self.core }.saying(
                "Connected to "@ + self.core.host,
                Color::Green,
            ).redrawn(),
            sftp: self.sftp.drained().sent("pwd\r\n"@),
            state: SftpState::WaitingPwd,
        }
    }

    /// A tick when the remote directory is known.
    pub open spec fn tick_pwd(self, now: u64) -> SftpView {
        let path = match parse::directory_in(self.sftp.lines()) {
            Some(p) => p,
            None => self.core.remote.path,
        };
        let s = SftpView {
            core: self.core.remote_at(path),
            sftp: self.sftp.drained(),
            ..self
        }.listing_asked(now);
        SftpView { core: s.core.redrawn(), state: SftpState::WaitingLs, ..s }
    }

    /// A tick when a listing has arrived, and the link that was entered, if
    /// any, leads to a directory.
    pub open spec fn tick_listed(self, now: u64) -> SftpView {
        let listing = parse::listing_of(parse::entries_in(self.sftp.lines()));
        SftpView {
            core: CoreView { link_probe: None, ..self.core }.listed(listing, now),
            sftp: self.sftp.drained(),
            state: SftpState::Idle,
        }.next_started(now)
    }

    /// A tick when a listing has arrived.
    pub open spec fn tick_ls(self, now: u64) -> SftpView {
        let listing = parse::listing_of(parse::entries_in(self.sftp.lines()));
        if self.core.link_probe is Some && probe_in(listing, self.core.link_probe->0)
            != LinkProbe::Dir {
            let link = self.core.link_probe->0;
            let c = CoreView { link_probe: None, ..self.core };
            SftpView {
                core: c.link_probed(link, probe_in(listing, link)),
                sftp: self.sftp.drained(),
                ..self
            }.listing_asked(now)
        } else {
            self.tick_listed(now)
        }
    }

    /// A tick when a transfer has ended.
    pub open spec fn tick_transferred(self, now: u64) -> SftpView {
        let failed = parse::shows_any(self.sftp.lines(), transfer_errors());
        let s = SftpView {
            core: self.core.transfer_ended(failed),
            sftp: self.sftp.drained(),
            ..self
        };
        if s.core.transfer.pending.len() > 0 {
            SftpView { state: SftpState::Idle, ..s }.transfer_asked(
                s.core.pending_direction(),
                now,
            )
        } else {
            let t = SftpView { core: s.core.batch_reset(), ..s }.listing_asked(now);
            SftpView { state: SftpState::WaitingLs, ..t }
        }
    }

    /// A tick while a transfer is under way.
    pub open spec fn tick_progress(self) -> SftpView {
        match self.core.transfer.last {
            None => self,
            Some(t) => if t.is_dir {
                let n = files_named(self.sftp.lines(), self.sftp.lines().len() as int);
                if n != t.file_count {
                    SftpView {
                        core: self.core.with_last(
                            StatusView { file_count: n as usize, ..t },
                        ).redrawn(),
                        ..self
                    }
                } else {
                    self
                }
            } else {
                let s = match parse::progress_value(self.sftp.lines()) {
                    Some(n) => SftpView {
                        core: self.core.with_last(
                            StatusView { progress: n as u8, ..t },
                        ).redrawn(),
                        ..self
                    },
                    None => self,
                };
                if self.sftp.raw.len() > PROGRESS_LIMIT {
                    SftpView { sftp: s.sftp.drained_to(PROGRESS_KEPT as nat), ..s }
                } else {
                    s
                }
            },
        }
    }

    /// A tick when the reply to a deletion has arrived. The next one is taken,
    /// unless a question is up.
    pub open spec fn tick_deleted(self, now: u64) -> SftpView {
        let failed = parse::shows_any(self.sftp.lines(), sftp_delete_errors());
        let s = SftpView {
            core: self.core.delete_answered(failed),
            sftp: self.sftp.drained(),
            ..self
        };
        let t = if !failed && s.core.delete.confirm is None && s.core.delete.pending.len() > 0 {
            SftpView { core: s.core.next_delete_taken(), ..s }.delete_confirmed()
        } else {
            SftpView { state: SftpState::WaitingLs, ..s.listing_asked(now) }
        };
        SftpView { core: t.core.redrawn(), ..t }
    }

    /// The browser after a look at the output, before anything is done.
    pub open spec fn watched(self, now: u64) -> SftpView {
        let c = self.core.paste_checked(now).watched(self.sftp.seq, at_sftp_prompt(self.sftp));
        SftpView {
            core: if self.state == SftpState::Connecting {
                CoreView { raw_snapshot: self.sftp.lines(), ..c }
            } else {
                c
            },
            ..self
        }
    }

    /// Whether the browser waits for the reply to a command.
    pub open spec fn waits(self) -> bool {
        self.state == SftpState::WaitingPwd || self.state == SftpState::WaitingLs || self.state
            == SftpState::WaitingDelete
    }

    /// The browser after a tick.
    #[verifier::opaque]
    pub open spec fn ticked(self, now: u64) -> SftpView {
        let s = self.watched(now);
        let ready = s.core.prompt_ready();
        if s.state != SftpState::Idle && s.state != SftpState::Connecting && s.sftp.exited {
            s.lost()
        } else if s.waits() && timed_out(s.core.cmd_start, now) {
            SftpView { core: s.core.gave_up(), state: SftpState::Idle, ..s }
        } else {
            match s.state {
                SftpState::Connecting => if ready {
                    s.tick_connecting(now)
                } else {
                    s
                },
                SftpState::WaitingPwd => if ready {
                    s.tick_pwd(now)
                } else {
                    s
                },
                SftpState::WaitingLs => if ready {
                    s.tick_ls(now)
                } else {
                    s
                },
                SftpState::Transferring => if ready {
                    s.tick_transferred(now)
                } else {
                    s.tick_progress()
                },
                SftpState::WaitingDelete => if ready {
                    s.tick_deleted(now)
                } else {
                    s
                },
                SftpState::Idle => s,
            }
        }
    }

    /// The browser after it was asked to go to another remote directory.
    pub open spec fn going(self, path: Seq<char>, now: u64) -> SftpView {
        let s = SftpView {
            core: self.core.remote_going(path),
            sftp: self.sftp.drained(),
            ..self
        }.listing_asked(now);
        SftpView { state: SftpState::WaitingLs, ..s }
    }

    /// The browser after it was asked to go into what is under the cursor, or
    /// to download it where it is a file. A symbolic link is probed.
    pub open spec fn entered(self, now: u64) -> SftpView {
        match self.core.focus {
            BrowserFocus::Local => SftpView { core: self.core.local_entered(), ..self },
            BrowserFocus::Remote => if self.state != SftpState::Idle {
                self
            } else {
                match self.core.remote.focused() {
                    Some(e) => if e.is_dir {
                        SftpView {
                            core: CoreView {
                                link_probe: if e.is_link {
                                    Some(e.name)
                                } else {
                                    self.core.link_probe
                                },
                                ..self.core
                            },
                            ..self
                        }.going(path::changed_directory(self.core.remote.path, e.name), now)
                    } else {
                        self.transfer_asked(TransferDirection::Download, now)
                    },
                    None => self,
                }
            },
        }
    }

    /// The browser after it was asked to go up one directory.
    pub open spec fn went_up(self, now: u64) -> SftpView {
        match self.core.focus {
            BrowserFocus::Local => SftpView {
                core: if self.core.drive_picker is Some {
                    self.core.picker_dismissed()
                } else {
                    self.core.local_went_up()
                },
                ..self
            },
            BrowserFocus::Remote => if self.state != SftpState::Idle {
                self
            } else {
                self.going(path::changed_directory(self.core.remote.path, ".."@), now)
            },
        }
    }

    /// The browser after it was asked to delete what is chosen.
    pub open spec fn delete_asked(self) -> SftpView {
        match self.core.focus {
            BrowserFocus::Local => SftpView {
                core: self.core.asked_to_delete_chosen(DeleteLocation::Local),
                ..self
            },
            BrowserFocus::Remote => if self.state != SftpState::Idle {
                self
            } else {
                SftpView {
                    core: self.core.asked_to_delete_chosen(DeleteLocation::Remote),
                    ..self
                }
            },
        }
    }

    /// The browser after a local file was removed, or not. The next deletion
    /// that waits is started.
    pub open spec fn local_removed(self, error: Option<Seq<char>>) -> SftpView {
        if !self.core.confirms_local() {
            self
        } else {
            let s = SftpView { core: self.core.local_delete_done(error), ..self };
            if error is None && self.core.delete.pending.len() > 0 {
                s.delete_confirmed()
            } else {
                s
            }
        }
    }

    /// The browser after a key while connecting.
    pub open spec fn connect_keyed(self, code: KeyCode) -> SftpView {
        match code {
            KeyCode::Char(c) => SftpView { sftp: self.sftp.sent(seq![c]), ..self },
            KeyCode::Enter => SftpView { sftp: self.sftp.sent("\r\n"@), ..self },
            KeyCode::Backspace => SftpView { sftp: self.sftp.sent("\x7f"@), ..self },
            _ => self,
        }
    }
}

impl SftpView {
    /// The state of the browser in its status bar, and the colour of the bar.
    pub open spec fn label(self) -> (Seq<char>, Color) {
        match self.state {
            SftpState::Connecting => ("connecting"@, Color::Yellow),
            SftpState::WaitingPwd => ("loading"@, Color::Yellow),
            SftpState::WaitingLs => ("loading"@, Color::Yellow),
            SftpState::Idle => ("idle"@, self.core.status_color),
            SftpState::WaitingDelete => ("deleting"@, Color::Yellow),
            SftpState::Transferring => ("transfer"@, Color::Green),
        }
    }

    /// The progress of the transfer under way in the status bar.
    pub open spec fn progress_text(self) -> Seq<char> {
        match self.core.transfer.last {
            Some(t) => if t.done {
                Seq::empty()
            } else if t.is_dir {
                " ("@ + text::decimal(t.file_count as nat) + " files)"@
            } else {
                " "@ + text::decimal(t.progress as nat) + "%"@
            },
            None => Seq::empty(),
        }
    }
}

impl FileBrowser {
    /// A browser on `host` whose connection is being made.
    pub fn new(host: &str, start: &str) -> (r: FileBrowser)
        ensures
            r@ == (SftpView {
                core: CoreView::opened(host@, start@),
                sftp: PtyView::quiet(),
                state: SftpState::Connecting,
            }),
    {
        FileBrowser {
            core: BrowserCore::new(host, start),
            sftp: PtyChannel::new(),
            sftp_state: SftpState::Connecting,
        }
    }

    /// Looks at what `sftp` has printed and takes the next step.
    pub fn tick(&mut self, now: u64)
        ensures
            final(self)@ == old(self)@.ticked(now),
    {
        reveal(SftpView::ticked);
        self.core.check_paste_deadline(now);
        let prompt = sftp_prompt_at_tail(&self.sftp);
        let ready = self.core.update_prompt_stability(self.sftp.raw_seq(), prompt);
        if self.sftp_state == SftpState::Connecting {
            self.core.raw_snapshot = self.sftp.raw_lines();
        }
        let ghost s = old(self)@.watched(now);
        assert(self@ =~= s);
        if self.sftp_state != SftpState::Idle && self.sftp_state != SftpState::Connecting
            && self.sftp.process_exited() {
            self.core.lose_work("SFTP connection lost");
            self.sftp_state = SftpState::Idle;
            assert(self@ =~= s.lost());
            return ;
        }
        let waits = self.sftp_state == SftpState::WaitingPwd || self.sftp_state
            == SftpState::WaitingLs || self.sftp_state == SftpState::WaitingDelete;
        if waits && has_timed_out(self.core.cmd_start, now) {
            self.core.give_up();
            self.sftp_state = SftpState::Idle;
            return ;
        }
        match self.sftp_state {
            SftpState::Connecting => {
                if ready {
                    self.step_connecting(now);
                }
            },
            SftpState::WaitingPwd => {
                if ready {
                    self.step_pwd(now);
                }
            },
            SftpState::WaitingLs => {
                if ready {
                    self.step_ls(now);
                }
            },
            SftpState::Transferring => {
                if ready {
                    self.step_transferred(now);
                } else {
                    self.step_progress();
                }
            },
            SftpState::WaitingDelete => {
                if ready {
                    self.step_deleted(now);
                }
            },
            SftpState::Idle => {},
        }
    }

    fn step_connecting(&mut self, now: u64)
        ensures
            final(self)@ == old(self)@.tick_connecting(now),
    {
        self.sftp.drain_raw();
        self.core.cmd_start = Some(now);
        self.sftp.send_str("pwd\r\n");
        self.sftp_state = SftpState::WaitingPwd;
        let msg = cat("Connected to ", self.core.host.as_str());
        self.core.say(msg, Color::Green);
        self.core.needs_redraw = true;
        assert(self@.core =~= old(self)@.tick_connecting(now).core);
    }

    fn step_pwd(&mut self, now: u64)
        ensures
            final(self)@ == old(self)@.tick_pwd(now),
    {
        let lines = self.sftp.raw_lines();
        if let Some(p) = parse_pwd(lines.as_slice()) {
            self.core.remote.path = p;
        }
        self.sftp.drain_raw();
        self.send_ls(now);
        self.sftp_state = SftpState::WaitingLs;
        self.core.needs_redraw = true;
        assert(self@.core =~= old(self)@.tick_pwd(now).core);
    }

    fn step_ls(&mut self, now: u64)
        ensures
            final(self)@ == old(self)@.tick_ls(now),
    {
        let lines = self.sftp.raw_lines();
        let parsed = parse_ls(lines.as_slice());
        let ghost listing = parse::entries_view(parsed@);
        let link = match &self.core.link_probe {
            Some(l) => Some(l.clone()),
            None => None,
        };
        if let Some(name) = link {
            self.core.link_probe = None;
            let probe = probe_link(&parsed, name.as_str());
            if self.core.apply_link_probe(name.as_str(), probe) {
                self.sftp.drain_raw();
                self.send_ls(now);
                assert(self@ =~= old(self)@.tick_ls(now));
                return ;
            }
        }
        self.core.set_listing(parsed, now);
        self.sftp.drain_raw();
        self.sftp_state = SftpState::Idle;
        self.chain_next_queued(now);
    }

    fn step_transferred(&mut self, now: u64)
        ensures
            final(self)@ == old(self)@.tick_transferred(now),
    {
        let lines = self.sftp.raw_lines();
        let failed = transfer_failed(&lines);
        self.core.end_transfer(failed);
        self.sftp.drain_raw();
        assert(self.core@.transfer.pending.len() == self.core.transfer.pending@.len());
        if self.core.transfer.pending.len() > 0 {
            self.sftp_state = SftpState::Idle;
            match self.core.pending_direction() {
                TransferDirection::Upload => self.upload(now),
                TransferDirection::Download => self.download(now),
            }
            return ;
        }
        self.core.reset_batch();
        self.send_ls(now);
        self.sftp_state = SftpState::WaitingLs;
    }

    fn step_progress(&mut self)
        ensures
            final(self)@ == old(self)@.tick_progress(),
    {
        let lines = self.sftp.raw_lines();
        assert(text::texts(lines@).len() == lines@.len());
        let mut changed = false;
        let mut trim_output = false;
        if let Some(t) = &mut self.core.transfer.last {
            if t.is_dir {
                let n: usize = count_files(&lines);
                if n != t.file_count {
                    t.file_count = n;
                    changed = true;
                }
            } else {
                if let Some(n) = transfer_percent(lines.as_slice()) {
                    t.progress = n;
                    changed = true;
                }
                trim_output = true;
            }
        }
        if changed {
            self.core.needs_redraw = true;
        }
        if trim_output && self.sftp.raw_len() > PROGRESS_LIMIT {
            self.sftp.drain_raw_keep(PROGRESS_KEPT);
        }
        assert(self@.core =~= old(self)@.tick_progress().core);
        assert(self@ =~= old(self)@.tick_progress());
    }

    fn step_deleted(&mut self, now: u64)
        ensures
            final(self)@ == old(self)@.tick_deleted(now),
    {
        let lines = self.sftp.raw_lines();
        let failed = delete_failed(&lines);
        self.core.answer_delete(failed);
        self.sftp.drain_raw();
        if !failed && self.core.delete.confirm.is_none() && self.core.pop_pending_delete() {
            self.confirm_delete_yes();
        } else {
            self.send_ls(now);
            self.sftp_state = SftpState::WaitingLs;
        }
        self.core.needs_redraw = true;
        assert(self@ =~= old(self)@.tick_deleted(now));
    }

    /// Starts the next thing that waits: a transfer, or else a deletion. While a
    /// question is up, no deletion is taken.
    pub fn chain_next_queued(&mut self, now: u64)
        ensures
            final(self)@ == old(self)@.next_started(now),
    {
        assert(self.core@.transfer.pending.len() == self.core.transfer.pending@.len());
        if self.core.transfer.pending.len() > 0 {
            match self.core.pending_direction() {
                TransferDirection::Upload => self.upload(now),
                TransferDirection::Download => self.download(now),
            }
        } else if self.core.delete.confirm.is_none() && self.core.pop_pending_delete() {
            self.confirm_delete_yes();
        }
    }

    fn send_ls(&mut self, now: u64)
        ensures
            final(self)@ == old(self)@.listing_asked(now),
    {
        let cmd = cat3("ls -la ", shell_quote(self.core.remote.path.as_str()).as_str(), "\r\n");
        self.core.cmd_start = Some(now);
        self.sftp.send_str(cmd.as_str());
    }

    fn go_to(&mut self, name: &str, now: u64)
        ensures
            final(self)@ == old(self)@.going(
                path::changed_directory(old(self)@.core.remote.path, name@),
                now,
            ),
    {
        self.core.apply_cd(name);
        let msg = cat("Remote: ", self.core.remote.path.as_str());
        self.core.say(msg, Color::Yellow);
        self.sftp.drain_raw();
        self.send_ls(now);
        self.sftp_state = SftpState::WaitingLs;
    }

    /// Goes into what is under the cursor, or downloads it.
    pub fn enter(&mut self, now: u64)
        ensures
            final(self)@ == old(self)@.entered(now),
    {
        match self.core.focus {
            BrowserFocus::Local => self.core.local_enter(),
            BrowserFocus::Remote => {
                if self.sftp_state != SftpState::Idle {
                    return ;
                }
                let entry = match self.core.remote.focused_entry() {
                    Some(e) => e.clone(),
                    None => {
                        return ;
                    },
                };
                if entry.is_dir {
                    if entry.is_link {
                        self.core.link_probe = Some(entry.name.clone());
                    }
                    self.go_to(entry.name.as_str(), now);
                } else {
                    self.download(now);
                }
            },
        }
    }

    /// Goes up one directory.
    pub fn go_up(&mut self, now: u64)
        ensures
            final(self)@ == old(self)@.went_up(now),
    {
        match self.core.focus {
            BrowserFocus::Local => self.core.local_go_up(),
            BrowserFocus::Remote => {
                if self.sftp_state != SftpState::Idle {
                    return ;
                }
                self.go_to("..", now);
            },
        }
    }

    /// Starts a download.
    pub fn download(&mut self, now: u64)
        ensures
            final(self)@ == old(self)@.transfer_asked(TransferDirection::Download, now),
    {
        if self.sftp_state != SftpState::Idle {
            return ;
        }
        let p = match self.core.take_source(TransferDirection::Download) {
            Some(p) => p,
            None => {
                return ;
            },
        };
        let dest = cat(to_slashes(self.core.local.path.as_str()).as_str(), "/");
        let flag = if p.is_dir {
            "-r "
        } else {
            ""
        };
        let end = cat(shell_quote(dest.as_str()).as_str(), "\r\n");
        let cmd = cat5("get ", flag, shell_quote(p.path.as_str()).as_str(), " ", end.as_str());
        self.core.begin(p.name.as_str(), p.is_dir, TransferDirection::Download, now);
        self.core.transfer.current = Some(p);
        self.sftp.send_str(cmd.as_str());
        self.sftp_state = SftpState::Transferring;
        assert(self@ =~= old(self)@.transfer_asked(TransferDirection::Download, now));
    }

    /// Starts an upload.
    pub fn upload(&mut self, now: u64)
        ensures
            final(self)@ == old(self)@.transfer_asked(TransferDirection::Upload, now),
    {
        if self.sftp_state != SftpState::Idle {
            return ;
        }
        let p = match self.core.take_source(TransferDirection::Upload) {
            Some(p) => p,
            None => {
                return ;
            },
        };
        let dest = cat(strip_slashes(self.core.remote.path.as_str()).as_str(), "/");
        let flag = if p.is_dir {
            "-r "
        } else {
            ""
        };
        let end = cat(shell_quote(dest.as_str()).as_str(), "\r\n");
        let cmd = cat5("put ", flag, shell_quote(p.path.as_str()).as_str(), " ", end.as_str());
        self.core.begin(p.name.as_str(), p.is_dir, TransferDirection::Upload, now);
        self.core.transfer.current = Some(p);
        self.sftp.send_str(cmd.as_str());
        self.sftp_state = SftpState::Transferring;
        assert(self@ =~= old(self)@.transfer_asked(TransferDirection::Upload, now));
    }

    /// Asks to delete what is chosen.
    pub fn delete_focused(&mut self)
        ensures
            final(self)@ == old(self)@.delete_asked(),
    {
        match self.core.focus {
            BrowserFocus::Local => self.core.local_delete_selected(),
            BrowserFocus::Remote => {
                if self.sftp_state != SftpState::Idle {
                    return ;
                }
                self.core.remote_delete_focused();
            },
        }
    }

    /// Carries out the deletion that was confirmed.
    pub fn confirm_delete_yes(&mut self)
        ensures
            final(self)@ == old(self)@.delete_confirmed(),
    {
        if self.core.local_confirm_delete() {
            return ;
        }
        let target = match &self.core.delete.confirm {
            Some(t) => t.clone(),
            None => {
                return ;
            },
        };
        let quoted = shell_quote(target.path.as_str());
        let cmd = match target.kind {
            DeleteKind::Dir => cat3("rmdir ", quoted.as_str(), "\r\n"),
            DeleteKind::File => cat3("rm ", quoted.as_str(), "\r\n"),
        };
        self.sftp.drain_raw();
        self.sftp.send_str(cmd.as_str());
        self.sftp_state = SftpState::WaitingDelete;
        self.core.start_deleting(target.path);
        assert(self@ =~= old(self)@.delete_confirmed());
    }

    /// Takes in whether the local file was removed, and starts the next
    /// deletion that waits.
    pub fn local_deleted(&mut self, error: Option<&str>)
        ensures
            final(self)@ == old(self)@.local_removed(
                match error {
                    Some(e) => Some(e@),
                    None => None,
                },
            ),
    {
        let local = match &self.core.delete.confirm {
            Some(t) => matches!(t.location, DeleteLocation::Local),
            None => false,
        };
        if local && self.core.local_deleted(error) {
            self.confirm_delete_yes();
        }
    }

    /// Whether the connection is being made, so that keys go to `sftp`.
    pub fn is_connecting(&self) -> (r: bool)
        ensures
            r == (self@.state == SftpState::Connecting),
    {
        self.sftp_state == SftpState::Connecting
    }

    /// Passes a key on to `sftp` while the connection is being made.
    pub fn send_connect_key(&mut self, code: KeyCode)
        ensures
            final(self)@ == old(self)@.connect_keyed(code),
    {
        match code {
            KeyCode::Char(c) => self.sftp.send_char(c),
            KeyCode::Enter => self.sftp.send_str("\r\n"),
            KeyCode::Backspace => self.sftp.send_str("\x7f"),
            _ => {},
        }
    }

    /// Whether `sftp` has ended.
    pub fn process_exited(&self) -> (r: bool)
        ensures
            r == self@.sftp.exited,
    {
        self.sftp.process_exited()
    }

    /// What the browser is doing, and in which colour that is shown.
    pub fn state_label(&self) -> (r: (&'static str, Color))
        ensures
            (r.0@, r.1) == self@.label(),
    {
        match self.sftp_state {
            SftpState::Connecting => ("connecting", Color::Yellow),
            SftpState::WaitingPwd => ("loading", Color::Yellow),
            SftpState::WaitingLs => ("loading", Color::Yellow),
            SftpState::Idle => ("idle", self.core.status_color),
            SftpState::WaitingDelete => ("deleting", Color::Yellow),
            SftpState::Transferring => ("transfer", Color::Green),
        }
    }

    /// How far the transfer under way has come.
    pub fn progress_suffix(&self) -> (r: String)
        ensures
            r@ == self@.progress_text(),
    {
        match &self.core.transfer.last {
            Some(t) => {
                if t.done {
                    String::new()
                } else if t.is_dir {
                    cat3(" (", decimal_of(t.file_count as u64).as_str(), " files)")
                } else {
                    cat3(" ", decimal_of(t.progress as u64).as_str(), "%")
                }
            },
            None => String::new(),
        }
    }
}

fn probe_link(parsed: &Vec<FsEntry>, name: &str) -> (r: LinkProbe)
    ensures
        r == probe_in(parse::entries_view(parsed@), name@),
{
    assert(parse::entries_view(parsed@).len() == parsed@.len());
    if parsed.len() == 2 {
        assert(parse::entries_view(parsed@)[1] == parsed@[1]@);
        if same(parsed[1].name.as_str(), name) {
            if parsed[1].is_link {
                return LinkProbe::Broken;
            }
            if !parsed[1].is_dir {
                return LinkProbe::File;
            }
        }
    }
    LinkProbe::Dir
}

impl BrowserCore {
    /// Takes in a listing of the remote directory.
    pub(crate) fn set_listing(&mut self, parsed: Vec<FsEntry>, now: u64)
        ensures
            final(self)@ == old(self)@.listed(parse::entries_view(parsed@), now),
    {
        assert(parse::entries_view(parsed@).len() == parsed@.len());
        let max: usize = parsed.len().saturating_sub(1);
        self.remote.entries = parsed;
        self.raw_snapshot = Vec::new();
        assert(text::texts(self.raw_snapshot@) =~= Seq::empty());
        let cur: usize = match self.remote.sel.selected() {
            Some(i) => i,
            None => 0,
        };
        self.remote.sel.select(
            Some(
                if cur <= max {
                    cur
                } else {
                    max
                },
            ),
        );
        self.stop_timer(now);
        if self.status_color == Color::Yellow {
            self.status_color = Color::Green;
        }
        self.needs_redraw = true;
        assert(self@ =~= old(self)@.listed(parse::entries_view(parsed@), now));
    }

    /// Gives up waiting for the reply to a command.
    pub(crate) fn give_up(&mut self)
        ensures
            final(self)@ == old(self)@.gave_up(),
    {
        self.cmd_start = None;
        self.link_probe = None;
        self.say("Command timed out".to_owned(), Color::Red);
        self.needs_redraw = true;
        assert(self@ =~= old(self)@.gave_up());
    }

    fn end_transfer(&mut self, failed: bool)
        ensures
            final(self)@ == old(self)@.transfer_ended(failed),
    {
        if let Some((name, direction)) = self.complete_last() {
            let verb = if failed {
                "Transfer failed"
            } else {
                match direction {
                    TransferDirection::Download => "Downloaded",
                    TransferDirection::Upload => "Uploaded",
                }
            };
            self.say(
                cat3(verb, ": ", name.as_str()),
                if failed {
                    Color::Red
                } else {
                    Color::Green
                },
            );
        }
        if failed {
            self.drop_transfers();
        }
        self.transfer.current = None;
        self.count_done();
        self.reload_local = true;
        assert(self@ =~= old(self)@.transfer_ended(failed));
    }

    /// Takes in the reply to a deletion.
    pub(crate) fn answer_delete(&mut self, failed: bool)
        ensures
            final(self)@ == old(self)@.delete_answered(failed),
    {
        let name = match &self.delete.pending_name {
            Some(n) => n.clone(),
            None => {
                return ;
            },
        };
        self.delete.pending_name = None;
        if failed {
            self.say(cat("Delete failed: ", name.as_str()), Color::Red);
            self.delete.pending.clear();
            assert(common::targets_view(self.delete.pending@) =~= Seq::empty());
        } else {
            self.say(cat("Deleted remote: ", name.as_str()), Color::Green);
        }
        assert(self@ =~= old(self)@.delete_answered(failed));
    }

    /// Notes that a deletion was sent to the other side.
    pub(crate) fn start_deleting(&mut self, path: String)
        requires
            old(self)@.delete.confirm is Some,
            old(self)@.delete.confirm->0.path == path@,
        ensures
            final(self)@ == old(self)@.deleting(),
    {
        self.delete.confirm = None;
        self.delete.removing = false;
        let msg = cat3("Deleting ", path.as_str(), "...");
        self.say(msg, Color::Yellow);
        self.delete.pending_name = Some(path);
        self.needs_redraw = true;
        assert(self@ =~= old(self)@.deleting());
    }
}

} // verus!
