//! The SCP browser: lists through an interactive shell over `ssh`, and
//! transfers with `scp`.
use vstd::prelude::*;
use crate::browser::common;
use crate::browser::parse;
use crate::browser::path;
use crate::browser::sftp;
use crate::pty;
use crate::text;
use vstd::slice::slice_subrange;
use super::common::{
    BrowserCore, BrowserFocus, CoreView, DeleteKind, DeleteLocation, PendingView, StatusView,
    TransferDirection, PROMPT_TAIL_BYTES,
};
use super::parse::{
    contains_any_error, last_shown_line, parse_ls, parse_pwd, shell_quote, strip_ansi,
    transfer_percent,
};
use super::path::{strip_slashes, to_slashes};
use super::sftp::has_timed_out;
use crate::event::KeyCode;
use crate::pty::{PtyChannel, PtyView};
use crate::style::Color;
use crate::text::{
    cat, cat3, chars_of, decimal_of, ends_with, lines, same, string_of, to_lowercase, trim_end,
    trim_str,
};

verus! {

/// What the browser is waiting for.
#[derive(Clone, Copy, Debug, PartialEq, Eq, Structural)]
pub enum SshBrowserState {
    Connecting,
    SettingPrompt,
    WaitingPwd,
    WaitingLs,
    WaitingDelete,
    Transferring,
    Idle,
}

/// Bytes to scan from the end of raw output for the prompt of a shell, which
/// can be longer than others.
pub const PROMPT_TAIL_BYTES_LONG: usize = 128;

/// An `scp` that the application is asked to start.
#[derive(Debug)]
pub struct ScpRequest {
    /// The arguments of the command.
    pub args: Vec<String>,
    pub name: String,
    pub is_dir: bool,
    pub direction: TransferDirection,
}

/// What an `scp` to start is like.
#[verifier::ext_equal]
pub struct ScpView {
    pub args: Seq<Seq<char>>,
    pub name: Seq<char>,
    pub is_dir: bool,
    pub direction: TransferDirection,
}

impl View for ScpRequest {
    type V = ScpView;

    open spec fn view(&self) -> ScpView {
        ScpView {
            args: text::texts(self.args@),
            name: self.name@,
            is_dir: self.is_dir,
            direction: self.direction,
        }
    }
}

/// A browser over SCP.
#[derive(Debug)]
pub struct SshBrowser {
    pub core: BrowserCore,
    pub ssh: PtyChannel,
    pub scp_pty: Option<PtyChannel>,
    /// The transfer that the application is asked to start.
    pub scp_request: Option<ScpRequest>,
    pub ssh_state: SshBrowserState,
    pub saved_password: Option<String>,
    pub password_buf: String,
    pub waiting_password: bool,
    pub password_prompts_seen: usize,
}

/// What the state of an SCP browser says.
#[verifier::ext_equal]
pub struct SshView {
    pub core: CoreView,
    pub ssh: PtyView,
    pub scp: Option<PtyView>,
    pub request: Option<ScpView>,
    pub state: SshBrowserState,
    pub saved: Option<Seq<char>>,
    pub typed: Seq<char>,
    pub asking: bool,
    pub prompts: usize,
}

/// What an optional channel holds.
pub open spec fn channel_view(o: Option<PtyChannel>) -> Option<PtyView> {
    match o {
        Some(p) => Some(p@),
        None => None,
    }
}

/// What an optional request asks for.
pub open spec fn request_view(o: Option<ScpRequest>) -> Option<ScpView> {
    match o {
        Some(r) => Some(r@),
        None => None,
    }
}

impl View for SshBrowser {
    type V = SshView;

    open spec fn view(&self) -> SshView {
        SshView {
            core: self.core@,
            ssh: self.ssh@,
            scp: channel_view(self.scp_pty),
            request: request_view(self.scp_request),
            state: self.ssh_state,
            saved: common::optional_text(self.saved_password),
            typed: self.password_buf@,
            asking: self.waiting_password,
            prompts: self.password_prompts_seen,
        }
    }
}

// ---------------------------------------------------------------------------
// What the output says
// ---------------------------------------------------------------------------

/// Whether a line asks for a password.
pub open spec fn asks_password(line: Seq<char>) -> bool {
    text::has_suffix(text::unicode_lowercase(text::trimmed(line)), "password:"@)
}

/// The number of lines that ask for a password, in the first `n`.
pub open spec fn prompts_among(ls: Seq<Seq<char>>, n: int) -> nat
    decreases n,
{
    if n <= 0 {
        0
    } else {
        prompts_among(ls, n - 1) + if asks_password(ls[n - 1]) {
            1nat
        } else {
            0nat
        }
    }
}

/// The number of lines that ask for a password.
pub open spec fn password_prompts(ls: Seq<Seq<char>>) -> nat {
    prompts_among(ls, ls.len() as int)
}

/// Counts the lines that ask for a password.
pub fn count_password_prompts(lines: &[String]) -> (r: usize)
    ensures
        r == password_prompts(text::texts(lines@)),
{
    let ghost ls = text::texts(lines@);
    let mut n: usize = 0;
    let mut i: usize = 0;
    while i < lines.len()
        invariant
            n <= i <= lines@.len(),
            ls == text::texts(lines@),
            n == prompts_among(ls, i as int),
        decreases lines@.len() - i,
    {
        let low = to_lowercase(trim_str(lines[i].as_str()).as_str());
        assert(ls[i as int] == lines@[i as int]@);
        let v = chars_of(low.as_str());
        if ends_with(v.as_slice(), "password:") {
            n += 1;
        }
        i += 1;
    }
    n
}

/// Whether the last line of the output is the prompt that the browser has set.
pub open spec fn at_own_prompt(p: PtyView) -> bool {
    let tail = pty::last_bytes(p.raw, PROMPT_TAIL_BYTES as nat);
    tail.len() > 0 && match parse::last_shown(pty::plain_lines(tail)) {
        Some(l) => text::trimmed(l) == "SSHMUX>"@,
        None => false,
    }
}

/// Whether the last line of the output looks like the prompt of a shell.
pub open spec fn at_shell_prompt(p: PtyView) -> bool {
    let tail = pty::last_bytes(p.raw, PROMPT_TAIL_BYTES_LONG as nat);
    tail.len() > 0 && match parse::last_shown(pty::plain_lines(tail)) {
        Some(l) => {
            let t = text::trimmed_end(l);
            t.len() > 0 && (t.last() == '$' || t.last() == '#' || t.last() == '%')
        },
        None => false,
    }
}

/// What the shell says when a deletion fails.
pub open spec fn shell_delete_errors() -> Seq<Seq<char>> {
    seq![
        "cannot remove"@,
        "no such file"@,
        "permission denied"@,
        "not empty"@,
        "directory not empty"@,
    ]
}

/// The lines of a reply without the first one, which echoes the command; a
/// single line is kept.
pub open spec fn without_echo(ls: Seq<Seq<char>>) -> Seq<Seq<char>> {
    if ls.len() > 1 {
        ls.skip(1)
    } else {
        ls
    }
}

fn delete_failed(lines: &Vec<String>) -> (r: bool)
    ensures
        r == parse::shows_any(without_echo(text::texts(lines@)), shell_delete_errors()),
{
    let mut m: Vec<&str> = Vec::new();
    m.push("cannot remove");
    m.push("no such file");
    m.push("permission denied");
    m.push("not empty");
    m.push("directory not empty");
    assert(parse::str_texts(m@) =~= shell_delete_errors());
    let from: usize = if lines.len() > 1 {
        1
    } else {
        0
    };
    let reply = slice_subrange(lines.as_slice(), from, lines.len());
    assert(text::texts(reply@) =~= without_echo(text::texts(lines@)));
    contains_any_error(reply, m.as_slice())
}

// ---------------------------------------------------------------------------
// Commands
// ---------------------------------------------------------------------------

/// The command that gives the shell a prompt to recognise.
pub open spec fn prompt_command() -> Seq<char> {
    "PS1='SSHMUX> '; PS2=''; unset PROMPT_COMMAND 2>/dev/null\r\n"@
}

/// The command that deletes a remote file.
pub open spec fn shell_delete_command(kind: DeleteKind, path: Seq<char>) -> Seq<char> {
    match kind {
        DeleteKind::Dir => "rm -rf -- "@ + parse::shell_quoted(path) + "\r\n"@,
        DeleteKind::File => "rm -- "@ + parse::shell_quoted(path) + "\r\n"@,
    }
}

/// The arguments of `scp` for a transfer from `from` to `to`.
pub open spec fn scp_args(is_dir: bool, from: Seq<char>, to: Seq<char>) -> Seq<Seq<char>> {
    (if is_dir {
        seq!["-O"@, "-r"@]
    } else {
        seq!["-O"@]
    }) + seq![from, to]
}

fn make_scp_args(is_dir: bool, from: String, to: String) -> (r: Vec<String>)
    ensures
        text::texts(r@) == scp_args(is_dir, from@, to@),
{
    let mut v: Vec<String> = Vec::new();
    v.push("-O".to_owned());
    if is_dir {
        v.push("-r".to_owned());
    }
    v.push(from);
    v.push(to);
    assert(text::texts(v@) =~= scp_args(is_dir, from@, to@));
    v
}

/// The `scp` that carries out a transfer.
pub open spec fn scp_for(core: CoreView, p: PendingView, direction: TransferDirection) -> ScpView {
    ScpView {
        args: match direction {
            TransferDirection::Download => scp_args(
                p.is_dir,
                core.host + ":"@ + p.path,
                path::with_slashes(core.local.path),
            ),
            TransferDirection::Upload => scp_args(
                p.is_dir,
                p.path,
                core.host + ":"@ + path::without_slashes(core.remote.path),
            ),
        },
        name: p.name,
        is_dir: p.is_dir,
        direction,
    }
}

/// What the transfer under way is called.
pub open spec fn transfer_verb(direction: TransferDirection) -> Seq<char> {
    match direction {
        TransferDirection::Download => "Downloading"@,
        TransferDirection::Upload => "Uploading"@,
    }
}

// ---------------------------------------------------------------------------
// Steps
// ---------------------------------------------------------------------------

impl CoreView {
    /// The state when the count of looks at the output starts over, with no
    /// output at hand.
    pub open spec fn watch_reset(self) -> CoreView {
        CoreView { prompt_stable: 0, prev_raw_len: 0, ..self }
    }

    /// The state after the password was sent to `scp`.
    pub open spec fn resumed(self) -> CoreView {
        match self.transfer.last {
            Some(t) => CoreView { status_msg: transfer_verb(t.direction) + "..."@, ..self },
            None => self,
        }
    }

    /// The state after `scp` has ended.
    pub open spec fn scp_ended(self) -> CoreView {
        let s = self.last_completed();
        let said = match self.transfer.last {
            Some(t) => s.saying(
                match t.direction {
                    TransferDirection::Download => "Downloaded"@,
                    TransferDirection::Upload => "Uploaded"@,
                } + ": "@ + t.filename,
                Color::Green,
            ),
            None => s,
        };
        let counted = CoreView { reload_local: true, ..said.one_done() }.watch_reset();
        if counted.transfer.pending.len() == 0 {
            counted.batch_reset()
        } else {
            counted
        }
    }

    /// The state with the progress of the transfer under way, where it is
    /// known and has changed.
    pub open spec fn progressed(self, percent: Option<nat>) -> CoreView {
        match (self.transfer.last, percent) {
            (Some(t), Some(n)) => if n != t.progress {
                self.with_last(StatusView { progress: n as u8, ..t }).redrawn()
            } else {
                self
            },
            _ => self,
        }
    }
}

impl SshView {
    /// The browser with a command sent that lists the remote directory.
    pub open spec fn listing_asked(self, now: u64) -> SshView {
        SshView {
            core: CoreView { cmd_start: Some(now), ..self.core },
            ssh: self.ssh.sent(sftp::ls_command(self.core.remote.path)),
            ..self
        }
    }

    /// The browser with the output at hand dropped, and the count of looks
    /// started over.
    pub open spec fn drained(self) -> SshView {
        SshView { core: self.core.watch_reset(), ssh: self.ssh.drained(), ..self }
    }

    /// The browser after the user was told that the password is wrong.
    pub open spec fn password_rejected(self) -> SshView {
        SshView {
            core: self.core.saying("Wrong password, try again"@, Color::Red).redrawn(),
            saved: None,
            typed: Seq::empty(),
            prompts: 0,
            asking: true,
            ..self
        }
    }

    /// The browser after the user was asked for a password.
    pub open spec fn password_asked(self, msg: Seq<char>) -> SshView {
        SshView {
            core: self.core.saying(msg, Color::Yellow).redrawn(),
            typed: Seq::empty(),
            asking: true,
            ..self
        }
    }

    /// A tick when `scp` has asked for a password `n` times: the saved one is
    /// sent once.
    pub open spec fn scp_prompted(self, n: usize) -> SshView {
        let s = SshView { prompts: n, ..self };
        match self.saved {
            Some(pw) => if n > 1 {
                SshView { scp: None, ..s.password_rejected() }
            } else {
                SshView {
                    core: CoreView {
                        status_color: Color::Yellow,
                        ..s.core.resumed()
                    }.redrawn(),
                    scp: Some(s.scp->0.sent(pw + "\r\n"@)),
                    ..s
                }
            },
            None => s.password_asked("SCP requires password"@),
        }
    }

    /// A tick while a transfer is under way.
    pub open spec fn tick_transfer(self, now: u64) -> SshView {
        if self.asking {
            self
        } else {
            match self.scp {
                None => SshView {
                    core: self.core.work_lost("Transfer failed"@),
                    state: SshBrowserState::Idle,
                    ..self
                },
                Some(scp) => {
                    let n = password_prompts(scp.lines());
                    if n > self.prompts {
                        self.scp_prompted(n as usize)
                    } else {
                        let c = self.core.progressed(parse::progress_value(scp.lines()));
                        if scp.exited {
                            let s = SshView {
                                core: c.scp_ended(),
                                ssh: self.ssh.drained(),
                                scp: None,
                                state: SshBrowserState::WaitingLs,
                                ..self
                            }.listing_asked(now);
                            SshView { core: s.core.redrawn(), ..s }
                        } else {
                            SshView { core: c, ..self }
                        }
                    }
                },
            }
        }
    }

    /// A tick when `ssh` has asked for a password `n` times: the saved one is
    /// sent once.
    pub open spec fn ssh_prompted(self, n: usize) -> SshView {
        let s = SshView { prompts: n, ..self };
        match self.saved {
            Some(pw) => if n > 1 {
                s.password_rejected()
            } else {
                SshView {
                    core: s.core.saying("Authenticating..."@, Color::Yellow).redrawn(),
                    ssh: s.ssh.sent(pw + "\r\n"@),
                    ..s
                }
            },
            None => s.password_asked("SSH requires password"@),
        }
    }

    /// Whether the browser can take up something on the other side. It is busy
    /// from the moment on that it asks for an `scp`.
    pub open spec fn free(self) -> bool {
        self.state == SshBrowserState::Idle && self.request is None
    }

    /// The browser after it was asked for a transfer. It takes none while it
    /// is busy, or where there is nothing to transfer.
    pub open spec fn transfer_asked(self, direction: TransferDirection) -> SshView {
        if !self.free() {
            self
        } else {
            match self.core.source(direction) {
                Some(p) => {
                    let c = self.core.next_taken();
                    SshView {
                        core: c.redrawn(),
                        request: Some(scp_for(c, p, direction)),
                        ..self
                    }
                },
                None => self,
            }
        }
    }

    /// The browser after the `scp` that it asked for was started.
    pub open spec fn scp_running(self, now: u64) -> SshView {
        match self.request {
            Some(r) => SshView {
                core: self.core.begun(r.name, r.is_dir, r.direction, now).redrawn(),
                scp: Some(PtyView::quiet()),
                request: None,
                state: SshBrowserState::Transferring,
                prompts: 0,
                asking: false,
                ..self
            },
            None => self,
        }
    }

    /// The browser after the `scp` that it asked for could not be started.
    pub open spec fn scp_refused(self, error: Seq<char>) -> SshView {
        if self.request is Some {
            SshView {
                core: self.core.saying("SCP error: "@ + error, Color::Red).redrawn(),
                request: None,
                ..self
            }
        } else {
            self
        }
    }

    /// The browser after a deletion was confirmed. The application removes
    /// local files; remote ones are deleted by a command, but not while the
    /// start of an `scp` is awaited: the question then stays up.
    pub open spec fn delete_confirmed(self) -> SshView {
        if self.core.confirms_local() {
            SshView { core: self.core.removing_local(), ..self }
        } else if self.core.delete.confirm is Some && self.request is None {
            let t = self.core.delete.confirm->0;
            SshView {
                core: self.core.deleting().watch_reset(),
                ssh: self.ssh.sent(shell_delete_command(t.kind, t.path)).drained(),
                state: SshBrowserState::WaitingDelete,
                ..self
            }
        } else {
            self
        }
    }

    /// The browser after the next thing that waits was started: a transfer,
    /// or else a deletion. While a question is up, no deletion is taken: those
    /// that wait may be what it asks about.
    pub open spec fn next_started(self) -> SshView {
        if self.core.transfer.pending.len() > 0 {
            self.transfer_asked(self.core.pending_direction())
        } else if self.core.delete.confirm is None && self.core.delete.pending.len() > 0 {
            SshView { core: self.core.next_delete_taken(), ..self }.delete_confirmed()
        } else {
            self
        }
    }

    /// A tick when the shell has come up.
    pub open spec fn tick_connecting(self) -> SshView {
        let s = self.drained();
        SshView {
            core: s.core.saying("Setting prompt on "@ + s.core.host, Color::Yellow).redrawn(),
            ssh: s.ssh.sent(prompt_command()),
            state: SshBrowserState::SettingPrompt,
            prompts: 0,
            ..s
        }
    }

    /// A tick when the prompt has been set.
    pub open spec fn tick_prompt_set(self, now: u64) -> SshView {
        let s = self.drained();
        SshView {
            core: CoreView { cmd_start: Some(now), ..s.core }.saying(
                "Connected to "@ + s.core.host,
                Color::Green,
            ).redrawn(),
            ssh: s.ssh.sent("pwd\r\n"@),
            state: SshBrowserState::WaitingPwd,
            ..s
        }
    }

    /// The browser with the remote directory that the output names, if it
    /// names one.
    pub open spec fn located(self) -> SshView {
        match parse::directory_in(self.ssh.lines()) {
            Some(p) => SshView { core: self.core.remote_at(p), ..self },
            None => self,
        }
    }

    /// A tick when the remote directory is known.
    pub open spec fn tick_pwd(self, now: u64) -> SshView {
        let s = self.located().drained().listing_asked(now);
        SshView { core: s.core.redrawn(), state: SshBrowserState::WaitingLs, ..s }
    }

    /// A tick when a listing has arrived.
    pub open spec fn tick_ls(self, now: u64) -> SshView {
        let s = self.located();
        let listing = parse::listing_of(parse::entries_in(self.ssh.lines()));
        SshView {
            core: s.core.listed(listing, now).watch_reset(),
            ssh: s.ssh.drained(),
            state: SshBrowserState::Idle,
            ..s
        }.next_started()
    }

    /// A tick when the reply to a deletion has arrived. The next one is taken,
    /// unless a question is up.
    pub open spec fn tick_deleted(self, now: u64) -> SshView {
        let failed = parse::shows_any(without_echo(self.ssh.lines()), shell_delete_errors());
        let s = SshView { core: self.core.delete_answered(failed), ..self }.drained();
        let t = if !failed && s.core.delete.confirm is None && s.core.delete.pending.len() > 0 {
            SshView { core: s.core.next_delete_taken(), ..s }.delete_confirmed()
        } else {
            SshView { state: SshBrowserState::WaitingLs, ..s.listing_asked(now) }
        };
        SshView { core: t.core.redrawn(), ..t }
    }

    /// Whether the connection is being made.
    pub open spec fn connecting(self) -> bool {
        self.state == SshBrowserState::Connecting || self.state == SshBrowserState::SettingPrompt
    }

    /// Whether the browser waits for the reply to a command.
    pub open spec fn waits(self) -> bool {
        self.state == SshBrowserState::WaitingPwd || self.state == SshBrowserState::WaitingLs
            || self.state == SshBrowserState::WaitingDelete
    }

    /// The browser after a look at the output of the shell.
    pub open spec fn watched(self) -> SshView {
        let prompt = if self.state == SshBrowserState::Connecting {
            at_shell_prompt(self.ssh)
        } else {
            at_own_prompt(self.ssh)
        };
        let c = self.core.watched(self.ssh.raw.len() as usize, prompt);
        SshView {
            core: if self.connecting() {
                CoreView { raw_snapshot: self.ssh.lines(), ..c }
            } else {
                c
            },
            ..self
        }
    }

    /// A tick of the dialogue with the shell.
    pub open spec fn tick_shell(self, now: u64) -> SshView {
        let s = self.watched();
        let ready = s.core.prompt_ready();
        if s.waits() && sftp::timed_out(s.core.cmd_start, now) {
            SshView { core: s.core.gave_up(), state: SshBrowserState::Idle, ..s }
        } else if !ready {
            s
        } else {
            match s.state {
                SshBrowserState::Connecting => s.tick_connecting(),
                SshBrowserState::SettingPrompt => s.tick_prompt_set(now),
                SshBrowserState::WaitingPwd => s.tick_pwd(now),
                SshBrowserState::WaitingLs => s.tick_ls(now),
                SshBrowserState::WaitingDelete => s.tick_deleted(now),
                SshBrowserState::Transferring => s,
                SshBrowserState::Idle => s,
            }
        }
    }

    /// The browser after a tick.
    #[verifier::opaque]
    pub open spec fn ticked(self, now: u64) -> SshView {
        let s = SshView { core: self.core.paste_checked(now), ..self };
        if s.state == SshBrowserState::Transferring {
            s.tick_transfer(now)
        } else if s.state == SshBrowserState::Connecting && s.asking {
            s
        } else if s.state == SshBrowserState::Connecting && password_prompts(s.ssh.lines())
            > s.prompts {
            s.ssh_prompted(password_prompts(s.ssh.lines()) as usize)
        } else {
            s.tick_shell(now)
        }
    }

    /// The browser after it was asked to go to another remote directory.
    pub open spec fn going(self, path: Seq<char>, now: u64) -> SshView {
        let s = SshView { core: self.core.remote_going(path), ..self }.drained().listing_asked(
            now,
        );
        SshView { state: SshBrowserState::WaitingLs, ..s }
    }

    /// The browser after it was asked to go into what is under the cursor, or
    /// to download it where it is a file.
    pub open spec fn entered(self, now: u64) -> SshView {
        match self.core.focus {
            BrowserFocus::Local => SshView { core: self.core.local_entered(), ..self },
            BrowserFocus::Remote => if !self.free() {
                self
            } else {
                match self.core.remote.focused() {
                    Some(e) => if e.is_dir {
                        self.going(path::changed_directory(self.core.remote.path, e.name), now)
                    } else {
                        self.transfer_asked(TransferDirection::Download)
                    },
                    None => self,
                }
            },
        }
    }

    /// The browser after it was asked to go up one directory.
    pub open spec fn went_up(self, now: u64) -> SshView {
        match self.core.focus {
            BrowserFocus::Local => SshView {
                core: if self.core.drive_picker is Some {
                    self.core.picker_dismissed()
                } else {
                    self.core.local_went_up()
                },
                ..self
            },
            BrowserFocus::Remote => if !self.free() {
                self
            } else {
                self.going(path::changed_directory(self.core.remote.path, ".."@), now)
            },
        }
    }

    /// The browser after it was asked to delete what is chosen.
    pub open spec fn delete_asked(self) -> SshView {
        match self.core.focus {
            BrowserFocus::Local => SshView {
                core: self.core.asked_to_delete_chosen(DeleteLocation::Local),
                ..self
            },
            BrowserFocus::Remote => if !self.free() {
                self
            } else {
                SshView {
                    core: self.core.asked_to_delete_chosen(DeleteLocation::Remote),
                    ..self
                }
            },
        }
    }

    /// The browser after a local file was removed, or not. The next deletion
    /// that waits is started.
    pub open spec fn local_removed(self, error: Option<Seq<char>>) -> SshView {
        if !self.core.confirms_local() {
            self
        } else {
            let s = SshView { core: self.core.local_delete_done(error), ..self };
            if error is None && self.core.delete.pending.len() > 0 {
                s.delete_confirmed()
            } else {
                s
            }
        }
    }

    /// The browser after a character of a password was typed.
    pub open spec fn password_typed(self, c: char) -> SshView {
        SshView { typed: self.typed.push(c), core: self.core.redrawn(), ..self }
    }

    /// The browser after the last character of a password was taken back.
    pub open spec fn password_erased(self) -> SshView {
        SshView {
            typed: if self.typed.len() > 0 {
                self.typed.drop_last()
            } else {
                self.typed
            },
            core: self.core.redrawn(),
            ..self
        }
    }

    /// The browser after a password was entered: it is sent to whichever asked
    /// for it, and kept.
    pub open spec fn password_entered(self) -> SshView {
        let line = self.typed + "\r\n"@;
        let s = if self.state == SshBrowserState::Connecting {
            SshView {
                core: CoreView { status_msg: "Authenticating..."@, ..self.core },
                ssh: self.ssh.sent(line),
                ..self
            }
        } else {
            match self.scp {
                Some(scp) => SshView {
                    core: self.core.resumed(),
                    scp: Some(scp.sent(line)),
                    ..self
                },
                None => self,
            }
        };
        SshView {
            core: CoreView { status_color: Color::Yellow, ..s.core }.redrawn(),
            saved: Some(self.typed),
            typed: Seq::empty(),
            asking: false,
            ..s
        }
    }

    /// The browser after a key while it asks for a password.
    pub open spec fn password_keyed(self, code: KeyCode) -> SshView {
        match code {
            KeyCode::Char(c) => self.password_typed(c),
            KeyCode::Backspace => self.password_erased(),
            KeyCode::Enter => self.password_entered(),
            _ => self,
        }
    }

    /// The browser after a key while connecting.
    pub open spec fn connect_keyed(self, code: KeyCode) -> SshView {
        match code {
            KeyCode::Char(c) => SshView { ssh: self.ssh.sent(seq![c]), ..self },
            KeyCode::Enter => SshView { ssh: self.ssh.sent("\r\n"@), ..self },
            KeyCode::Backspace => SshView { ssh: self.ssh.sent("\x7f"@), ..self },
            _ => self,
        }
    }
}

impl SshView {
    /// The state of the browser in its status bar, and the colour of the bar.
    pub open spec fn label(self) -> (Seq<char>, Color) {
        match self.state {
            SshBrowserState::Connecting => ("connecting"@, Color::Yellow),
            SshBrowserState::SettingPrompt => ("connecting"@, Color::Yellow),
            SshBrowserState::WaitingPwd => ("loading"@, Color::Yellow),
            SshBrowserState::WaitingLs => ("loading"@, Color::Yellow),
            SshBrowserState::Idle => ("idle"@, self.core.status_color),
            SshBrowserState::WaitingDelete => ("deleting"@, Color::Yellow),
            SshBrowserState::Transferring => ("transfer"@, Color::Green),
        }
    }

    /// The progress of the transfer under way in the status bar.
    pub open spec fn progress_text(self) -> Seq<char> {
        match self.core.transfer.last {
            Some(t) => if t.done {
                Seq::empty()
            } else {
                " "@ + text::decimal(t.progress as nat) + "%"@
            },
            None => Seq::empty(),
        }
    }
}

impl SshBrowser {
    /// A browser on `host` whose connection is being made.
    pub fn new(host: &str, start: &str) -> (r: SshBrowser)
        ensures
            r@ == (SshView {
                core: CoreView::opened(host@, start@),
                ssh: PtyView::quiet(),
                scp: None,
                request: None,
                state: SshBrowserState::Connecting,
                saved: None,
                typed: Seq::empty(),
                asking: false,
                prompts: 0,
            }),
    {
        SshBrowser {
            core: BrowserCore::new(host, start),
            ssh: PtyChannel::new(),
            scp_pty: None,
            scp_request: None,
            ssh_state: SshBrowserState::Connecting,
            saved_password: None,
            password_buf: String::new(),
            waiting_password: false,
            password_prompts_seen: 0,
        }
    }

    /// Looks at what `ssh` and `scp` have printed and takes the next step.
    pub fn tick(&mut self, now: u64)
        ensures
            final(self)@ == old(self)@.ticked(now),
    {
        reveal(SshView::ticked);
        self.core.check_paste_deadline(now);
        let ghost s = SshView { core: old(self)@.core.paste_checked(now), ..old(self)@ };
        assert(self@ =~= s);
        if self.ssh_state == SshBrowserState::Transferring {
            self.step_transfer(now);
            return ;
        }
        if self.ssh_state == SshBrowserState::Connecting {
            if self.waiting_password {
                return ;
            }
            let lines = self.ssh.raw_lines();
            let n: usize = count_password_prompts(lines.as_slice());
            if n > self.password_prompts_seen {
                self.step_ssh_prompted(n);
                return ;
            }
        }
        self.step_shell(now);
    }

    fn step_transfer(&mut self, now: u64)
        ensures
            final(self)@ == old(self)@.tick_transfer(now),
    {
        if self.waiting_password {
            return ;
        }
        let seen = match &self.scp_pty {
            Some(scp) => Some((scp.process_exited(), scp.raw_lines())),
            None => None,
        };
        let (exited, lines) = match seen {
            Some(x) => x,
            None => {
                self.core.lose_work("Transfer failed");
                self.ssh_state = SshBrowserState::Idle;
                assert(self@ =~= old(self)@.tick_transfer(now));
                return ;
            },
        };
        let n: usize = count_password_prompts(lines.as_slice());
        if n > self.password_prompts_seen {
            self.step_scp_prompted(n);
            return ;
        }
        self.core.note_progress(transfer_percent(lines.as_slice()));
        if exited {
            self.core.end_scp();
            self.scp_pty = None;
            self.ssh.drain_raw();
            self.send_ls(now);
            self.ssh_state = SshBrowserState::WaitingLs;
            self.core.needs_redraw = true;
        }
        assert(self@ =~= old(self)@.tick_transfer(now));
    }

    fn reject_password(&mut self)
        ensures
            final(self)@ == old(self)@.password_rejected(),
    {
        self.saved_password = None;
        self.password_buf = String::new();
        self.password_prompts_seen = 0;
        self.waiting_password = true;
        self.core.say("Wrong password, try again".to_owned(), Color::Red);
        self.core.needs_redraw = true;
        assert(self@ =~= old(self)@.password_rejected());
    }

    fn ask_password(&mut self, msg: &str)
        ensures
            final(self)@ == old(self)@.password_asked(msg@),
    {
        self.waiting_password = true;
        self.password_buf = String::new();
        self.core.say(msg.to_owned(), Color::Yellow);
        self.core.needs_redraw = true;
        assert(self@ =~= old(self)@.password_asked(msg@));
    }

    fn step_scp_prompted(&mut self, n: usize)
        requires
            old(self)@.scp is Some,
        ensures
            final(self)@ == old(self)@.scp_prompted(n),
    {
        self.password_prompts_seen = n;
        let saved = match &self.saved_password {
            Some(pw) => Some(cat(pw.as_str(), "\r\n")),
            None => None,
        };
        match saved {
            Some(line) => {
                if n > 1 {
                    self.scp_pty = None;
                    self.reject_password();
                } else {
                    if let Some(scp) = &mut self.scp_pty {
                        scp.send_str(line.as_str());
                    }
                    self.core.note_resumed();
                    self.core.status_color = Color::Yellow;
                    self.core.needs_redraw = true;
                }
            },
            None => self.ask_password("SCP requires password"),
        }
        assert(self@ =~= old(self)@.scp_prompted(n));
    }

    fn step_ssh_prompted(&mut self, n: usize)
        ensures
            final(self)@ == old(self)@.ssh_prompted(n),
    {
        self.password_prompts_seen = n;
        let saved = match &self.saved_password {
            Some(pw) => Some(cat(pw.as_str(), "\r\n")),
            None => None,
        };
        match saved {
            Some(line) => {
                if n > 1 {
                    self.reject_password();
                } else {
                    self.ssh.send_str(line.as_str());
                    self.core.say("Authenticating...".to_owned(), Color::Yellow);
                    self.core.needs_redraw = true;
                }
            },
            None => self.ask_password("SSH requires password"),
        }
        assert(self@ =~= old(self)@.ssh_prompted(n));
    }

    fn step_shell(&mut self, now: u64)
        ensures
            final(self)@ == old(self)@.tick_shell(now),
    {
        let prompt = if self.ssh_state == SshBrowserState::Connecting {
            self.shell_prompt_detected()
        } else {
            self.prompt_ends_with_sshmux()
        };
        let ready = self.core.update_prompt_stability(self.ssh.raw_len(), prompt);
        if self.ssh_state == SshBrowserState::Connecting || self.ssh_state
            == SshBrowserState::SettingPrompt {
            self.core.raw_snapshot = self.ssh.raw_lines();
        }
        let ghost s = old(self)@.watched();
        assert(self@ =~= s);
        let waits = self.ssh_state == SshBrowserState::WaitingPwd || self.ssh_state
            == SshBrowserState::WaitingLs || self.ssh_state == SshBrowserState::WaitingDelete;
        if waits && has_timed_out(self.core.cmd_start, now) {
            self.core.give_up();
            self.ssh_state = SshBrowserState::Idle;
            return ;
        }
        if !ready {
            return ;
        }
        match self.ssh_state {
            SshBrowserState::Connecting => self.step_connecting(),
            SshBrowserState::SettingPrompt => self.step_prompt_set(now),
            SshBrowserState::WaitingPwd => self.step_pwd(now),
            SshBrowserState::WaitingLs => self.step_ls(now),
            SshBrowserState::WaitingDelete => self.step_deleted(now),
            SshBrowserState::Transferring => {},
            SshBrowserState::Idle => {},
        }
    }

    fn drain(&mut self)
        ensures
            final(self)@ == old(self)@.drained(),
    {
        self.ssh.drain_raw();
        self.core.prev_raw_len = 0;
        self.core.prompt_stable = 0;
        assert(self@ =~= old(self)@.drained());
    }

    fn step_connecting(&mut self)
        ensures
            final(self)@ == old(self)@.tick_connecting(),
    {
        self.drain();
        self.ssh.send_str("PS1='SSHMUX> '; PS2=''; unset PROMPT_COMMAND 2>/dev/null\r\n");
        self.ssh_state = SshBrowserState::SettingPrompt;
        self.password_prompts_seen = 0;
        let msg = cat("Setting prompt on ", self.core.host.as_str());
        self.core.say(msg, Color::Yellow);
        self.core.needs_redraw = true;
        assert(self@ =~= old(self)@.tick_connecting());
    }

    fn step_prompt_set(&mut self, now: u64)
        ensures
            final(self)@ == old(self)@.tick_prompt_set(now),
    {
        self.drain();
        self.core.cmd_start = Some(now);
        self.ssh.send_str("pwd\r\n");
        self.ssh_state = SshBrowserState::WaitingPwd;
        let msg = cat("Connected to ", self.core.host.as_str());
        self.core.say(msg, Color::Green);
        self.core.needs_redraw = true;
        assert(self@ =~= old(self)@.tick_prompt_set(now));
    }

    fn locate(&mut self, lines: &Vec<String>)
        requires
            text::texts(lines@) == old(self)@.ssh.lines(),
        ensures
            final(self)@ == old(self)@.located(),
    {
        if let Some(p) = parse_pwd(lines.as_slice()) {
            self.core.remote.path = p;
        }
        assert(self@ =~= old(self)@.located());
    }

    fn step_pwd(&mut self, now: u64)
        ensures
            final(self)@ == old(self)@.tick_pwd(now),
    {
        let lines = self.ssh.raw_lines();
        self.locate(&lines);
        self.drain();
        self.send_ls(now);
        self.ssh_state = SshBrowserState::WaitingLs;
        self.core.needs_redraw = true;
        assert(self@ =~= old(self)@.tick_pwd(now));
    }

    fn step_ls(&mut self, now: u64)
        ensures
            final(self)@ == old(self)@.tick_ls(now),
    {
        let lines = self.ssh.raw_lines();
        self.locate(&lines);
        let parsed = parse_ls(lines.as_slice());
        self.core.set_listing(parsed, now);
        self.drain();
        self.ssh_state = SshBrowserState::Idle;
        self.chain_next_queued();
    }

    fn step_deleted(&mut self, now: u64)
        ensures
            final(self)@ == old(self)@.tick_deleted(now),
    {
        let lines = self.ssh.raw_lines();
        let failed = delete_failed(&lines);
        self.core.answer_delete(failed);
        self.drain();
        if !failed && self.core.delete.confirm.is_none() && self.core.pop_pending_delete() {
            self.confirm_delete_yes();
        } else {
            self.send_ls(now);
            self.ssh_state = SshBrowserState::WaitingLs;
        }
        self.core.needs_redraw = true;
        assert(self@ =~= old(self)@.tick_deleted(now));
    }

    fn prompt_ends_with_sshmux(&self) -> (r: bool)
        ensures
            r == at_own_prompt(self@.ssh),
    {
        let tail = self.ssh.raw_tail(PROMPT_TAIL_BYTES);
        if tail.len() == 0 {
            return false;
        }
        let text = strip_ansi(tail.as_slice());
        let ls = lines(text.as_str());
        match last_shown_line(&ls) {
            Some(l) => same(trim_str(l.as_str()).as_str(), "SSHMUX>"),
            None => false,
        }
    }

    fn shell_prompt_detected(&self) -> (r: bool)
        ensures
            r == at_shell_prompt(self@.ssh),
    {
        let tail = self.ssh.raw_tail(PROMPT_TAIL_BYTES_LONG);
        if tail.len() == 0 {
            return false;
        }
        let text = strip_ansi(tail.as_slice());
        let ls = lines(text.as_str());
        match last_shown_line(&ls) {
            Some(l) => {
                let v = chars_of(l.as_str());
                let t = trim_end(v.as_slice());
                if t.len() == 0 {
                    return false;
                }
                let c = t[t.len() - 1];
                c == '$' || c == '#' || c == '%'
            },
            None => false,
        }
    }

    /// Starts the next thing that waits: a transfer, or else a deletion. While a
    /// question is up, no deletion is taken.
    pub fn chain_next_queued(&mut self)
        ensures
            final(self)@ == old(self)@.next_started(),
    {
        assert(self.core@.transfer.pending.len() == self.core.transfer.pending@.len());
        if self.core.transfer.pending.len() > 0 {
            match self.core.pending_direction() {
                TransferDirection::Upload => self.upload(),
                TransferDirection::Download => self.download(),
            }
        } else if self.core.delete.confirm.is_none() && self.core.pop_pending_delete() {
            self.confirm_delete_yes();
        }
    }

    fn send_ls(&mut self, now: u64)
        ensures
            final(self)@ == old(self)@.listing_asked(now),
    {
        let cmd = cat3("ls -la ", shell_quote(self.core.remote.path.as_str()).as_str(), "\r\n");
        self.core.cmd_start = Some(now);
        self.ssh.send_str(cmd.as_str());
    }

    fn go_to(&mut self, name: &str, now: u64)
        ensures
            final(self)@ == old(self)@.going(
                path::changed_directory(old(self)@.core.remote.path, name@),
                now,
            ),
    {
        self.core.apply_cd(name);
        let msg = cat("Remote: ", self.core.remote.path.as_str());
        self.core.say(msg, Color::Yellow);
        self.drain();
        self.send_ls(now);
        self.ssh_state = SshBrowserState::WaitingLs;
    }

    fn is_busy(&self) -> (r: bool)
        ensures
            r == !self@.free(),
    {
        self.ssh_state != SshBrowserState::Idle || self.scp_request.is_some()
    }

    /// Goes into what is under the cursor, or downloads it.
    pub fn enter(&mut self, now: u64)
        ensures
            final(self)@ == old(self)@.entered(now),
    {
        match self.core.focus {
            BrowserFocus::Local => self.core.local_enter(),
            BrowserFocus::Remote => {
                if self.is_busy() {
                    return ;
                }
                let entry = match self.core.remote.focused_entry() {
                    Some(e) => e.clone(),
                    None => {
                        return ;
                    },
                };
                if entry.is_dir {
                    self.go_to(entry.name.as_str(), now);
                } else {
                    self.download();
                }
            },
        }
    }

    /// Goes up one directory.
    pub fn go_up(&mut self, now: u64)
        ensures
            final(self)@ == old(self)@.went_up(now),
    {
        match self.core.focus {
            BrowserFocus::Local => self.core.local_go_up(),
            BrowserFocus::Remote => {
                if self.is_busy() {
                    return ;
                }
                self.go_to("..", now);
            },
        }
    }

    /// Asks for an `scp` that downloads.
    pub fn download(&mut self)
        ensures
            final(self)@ == old(self)@.transfer_asked(TransferDirection::Download),
    {
        if self.is_busy() {
            return ;
        }
        let p = match self.core.take_source(TransferDirection::Download) {
            Some(p) => p,
            None => {
                return ;
            },
        };
        let from = cat3(self.core.host.as_str(), ":", p.path.as_str());
        let to = to_slashes(self.core.local.path.as_str());
        let args = make_scp_args(p.is_dir, from, to);
        self.scp_request = Some(
            ScpRequest {
                args,
                name: p.name,
                is_dir: p.is_dir,
                direction: TransferDirection::Download,
            },
        );
        self.core.needs_redraw = true;
        assert(self@ =~= old(self)@.transfer_asked(TransferDirection::Download));
    }

    /// Asks for an `scp` that uploads.
    pub fn upload(&mut self)
        ensures
            final(self)@ == old(self)@.transfer_asked(TransferDirection::Upload),
    {
        if self.is_busy() {
            return ;
        }
        let p = match self.core.take_source(TransferDirection::Upload) {
            Some(p) => p,
            None => {
                return ;
            },
        };
        let dir = strip_slashes(self.core.remote.path.as_str());
        let to = cat3(self.core.host.as_str(), ":", dir.as_str());
        let args = make_scp_args(p.is_dir, p.path, to);
        self.scp_request = Some(
            ScpRequest {
                args,
                name: p.name,
                is_dir: p.is_dir,
                direction: TransferDirection::Upload,
            },
        );
        self.core.needs_redraw = true;
        assert(self@ =~= old(self)@.transfer_asked(TransferDirection::Upload));
    }

    /// Takes in that the `scp` that was asked for is running.
    pub fn scp_started(&mut self, now: u64)
        ensures
            final(self)@ == old(self)@.scp_running(now),
    {
        if let Some(r) = self.scp_request.take() {
            self.scp_pty = Some(PtyChannel::new());
            self.core.begin(r.name.as_str(), r.is_dir, r.direction, now);
            self.ssh_state = SshBrowserState::Transferring;
            self.password_prompts_seen = 0;
            self.waiting_password = false;
            self.core.needs_redraw = true;
        }
        assert(self@ =~= old(self)@.scp_running(now));
    }

    /// Takes in that the `scp` that was asked for could not be started.
    pub fn scp_failed(&mut self, error: &str)
        ensures
            final(self)@ == old(self)@.scp_refused(error@),
    {
        if self.scp_request.is_some() {
            self.scp_request = None;
            self.core.say(cat("SCP error: ", error), Color::Red);
            self.core.needs_redraw = true;
        }
        assert(self@ =~= old(self)@.scp_refused(error@));
    }

    /// Takes in a character of a password.
    pub fn password_char(&mut self, c: char)
        ensures
            final(self)@ == old(self)@.password_typed(c),
    {
        self.password_buf.push(c);
        self.core.needs_redraw = true;
        assert(self@ =~= old(self)@.password_typed(c));
    }

    /// Takes back the last character of a password.
    pub fn password_backspace(&mut self)
        ensures
            final(self)@ == old(self)@.password_erased(),
    {
        let v = chars_of(self.password_buf.as_str());
        if v.len() > 0 {
            let shorter = slice_subrange(v.as_slice(), 0, v.len() - 1);
            assert(shorter@ =~= v@.drop_last());
            self.password_buf = string_of(shorter);
        }
        self.core.needs_redraw = true;
        assert(self@ =~= old(self)@.password_erased());
    }

    /// Sends the password to whichever asked for it.
    pub fn submit_password(&mut self)
        ensures
            final(self)@ == old(self)@.password_entered(),
    {
        let pw = self.password_buf.clone();
        let line = cat(pw.as_str(), "\r\n");
        if self.ssh_state == SshBrowserState::Connecting {
            self.ssh.send_str(line.as_str());
            self.core.status_msg = "Authenticating...".to_owned();
        } else {
            let mut sent = false;
            if let Some(scp) = &mut self.scp_pty {
                scp.send_str(line.as_str());
                sent = true;
            }
            if sent {
                self.core.note_resumed();
            }
        }
        self.saved_password = Some(pw);
        self.password_buf = String::new();
        self.waiting_password = false;
        self.core.status_color = Color::Yellow;
        self.core.needs_redraw = true;
        assert(self@ =~= old(self)@.password_entered());
    }

    /// Handles a key while a password is asked for.
    pub fn handle_password_key(&mut self, code: KeyCode)
        ensures
            final(self)@ == old(self)@.password_keyed(code),
    {
        match code {
            KeyCode::Char(c) => self.password_char(c),
            KeyCode::Backspace => self.password_backspace(),
            KeyCode::Enter => self.submit_password(),
            _ => {},
        }
    }

    /// Asks to delete what is chosen.
    pub fn delete_focused(&mut self)
        ensures
            final(self)@ == old(self)@.delete_asked(),
    {
        match self.core.focus {
            BrowserFocus::Local => self.core.local_delete_selected(),
            BrowserFocus::Remote => {
                if self.is_busy() {
                    return ;
                }
                self.core.remote_delete_focused();
            },
        }
    }

    /// Carries out the deletion that was confirmed.
    pub fn confirm_delete_yes(&mut self)
        ensures
            final(self)@ == old(self)@.delete_confirmed(),
    {
        if self.core.local_confirm_delete() || self.scp_request.is_some() {
            return ;
        }
        let target = match &self.core.delete.confirm {
            Some(t) => t.clone(),
            None => {
                return ;
            },
        };
        let quoted = shell_quote(target.path.as_str());
        let cmd = match target.kind {
            DeleteKind::Dir => cat3("rm -rf -- ", quoted.as_str(), "\r\n"),
            DeleteKind::File => cat3("rm -- ", quoted.as_str(), "\r\n"),
        };
        self.ssh.send_str(cmd.as_str());
        self.ssh_state = SshBrowserState::WaitingDelete;
        self.core.start_deleting(target.path);
        self.drain();
        assert(self@ =~= old(self)@.delete_confirmed());
    }

    /// Takes in whether the local file was removed, and starts the next
    /// deletion that waits.
    pub fn local_deleted(&mut self, error: Option<&str>)
        ensures
            final(self)@ == old(self)@.local_removed(
                match error {
                    Some(e) => Some(e@),
                    None => None,
                },
            ),
    {
        let local = match &self.core.delete.confirm {
            Some(t) => matches!(t.location, DeleteLocation::Local),
            None => false,
        };
        if local && self.core.local_deleted(error) {
            self.confirm_delete_yes();
        }
    }

    /// Whether the connection is being made, so that keys go to `ssh`.
    pub fn is_connecting(&self) -> (r: bool)
        ensures
            r == self@.connecting(),
    {
        self.ssh_state == SshBrowserState::Connecting || self.ssh_state
            == SshBrowserState::SettingPrompt
    }

    /// Passes a key on to `ssh` while the connection is being made.
    pub fn send_connect_key(&mut self, code: KeyCode)
        ensures
            final(self)@ == old(self)@.connect_keyed(code),
    {
        match code {
            KeyCode::Char(c) => self.ssh.send_char(c),
            KeyCode::Enter => self.ssh.send_str("\r\n"),
            KeyCode::Backspace => self.ssh.send_str("\x7f"),
            _ => {},
        }
    }

    /// Whether `ssh` has ended.
    pub fn process_exited(&self) -> (r: bool)
        ensures
            r == self@.ssh.exited,
    {
        self.ssh.process_exited()
    }

    /// What the browser is doing, and in which colour that is shown.
    pub fn state_label(&self) -> (r: (&'static str, Color))
        ensures
            (r.0@, r.1) == self@.label(),
    {
        match self.ssh_state {
            SshBrowserState::Connecting => ("connecting", Color::Yellow),
            SshBrowserState::SettingPrompt => ("connecting", Color::Yellow),
            SshBrowserState::WaitingPwd => ("loading", Color::Yellow),
            SshBrowserState::WaitingLs => ("loading", Color::Yellow),
            SshBrowserState::Idle => ("idle", self.core.status_color),
            SshBrowserState::WaitingDelete => ("deleting", Color::Yellow),
            SshBrowserState::Transferring => ("transfer", Color::Green),
        }
    }

    /// How far the transfer under way has come.
    pub fn progress_suffix(&self) -> (r: String)
        ensures
            r@ == self@.progress_text(),
    {
        match &self.core.transfer.last {
            Some(t) => {
                if t.done {
                    String::new()
                } else {
                    cat3(" ", decimal_of(t.progress as u64).as_str(), "%")
                }
            },
            None => String::new(),
        }
    }
}

impl BrowserCore {
    fn note_progress(&mut self, percent: Option<u8>)
        ensures
            final(self)@ == old(self)@.progressed(
                match percent {
                    Some(n) => Some(n as nat),
                    None => None,
                },
            ),
    {
        let mut changed = false;
        if let Some(t) = &mut self.transfer.last {
            if let Some(n) = percent {
                if n != t.progress {
                    t.progress = n;
                    changed = true;
                }
            }
        }
        if changed {
            self.needs_redraw = true;
        }
        assert(self@ =~= old(self)@.progressed(
            match percent {
                Some(n) => Some(n as nat),
                None => None,
            },
        ));
    }

    fn note_resumed(&mut self)
        ensures
            final(self)@ == old(self)@.resumed(),
    {
        let msg = match &self.transfer.last {
            Some(t) => match t.direction {
                TransferDirection::Download => cat("Downloading", "..."),
                TransferDirection::Upload => cat("Uploading", "..."),
            },
            None => {
                return ;
            },
        };
        self.status_msg = msg;
        assert(self@ =~= old(self)@.resumed());
    }

    fn end_scp(&mut self)
        ensures
            final(self)@ == old(self)@.scp_ended(),
    {
        if let Some((name, direction)) = self.complete_last() {
            let verb = match direction {
                TransferDirection::Download => "Downloaded",
                TransferDirection::Upload => "Uploaded",
            };
            self.say(cat3(verb, ": ", name.as_str()), Color::Green);
        }
        self.count_done();
        self.reload_local = true;
        self.prev_raw_len = 0;
        self.prompt_stable = 0;
        assert(self@.transfer.pending.len() == self.transfer.pending@.len());
        if self.transfer.pending.len() == 0 {
            self.reset_batch();
        }
        assert(self@ =~= old(self)@.scp_ended());
    }
}

} // verus!
