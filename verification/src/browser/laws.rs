//! What holds of the browsers over several steps.
use vstd::prelude::*;
use crate::browser::common::{
    BrowserFocus, CoreView, TransferDirection, PROMPT_STABLE_TICKS,
};
use crate::browser::parse;
use crate::browser::sftp;
use crate::browser::sftp::{SftpState, SftpView};
use crate::browser::ssh;
use crate::browser::ssh::{SshBrowserState, SshView};
use crate::style::Color;

verus! {

// ---------------------------------------------------------------------------
// Replies
// ---------------------------------------------------------------------------

/// The state after `n` looks at the same output, with the prompt at its end.
pub open spec fn quiet_looks(c: CoreView, n: nat) -> CoreView
    decreases n,
{
    if n == 0 {
        c
    } else {
        quiet_looks(c, (n - 1) as nat).watched(c.prev_raw_len, true)
    }
}

/// A reply is taken as complete once its end has stood still behind a prompt
/// for as many looks as it takes, and not before.
pub proof fn law_reply_needs_quiet_looks(c: CoreView, len: usize, n: nat)
    requires
        len != c.prev_raw_len,
        n < u8::MAX,
    ensures
        quiet_looks(c.watched(len, true), n).prompt_ready() == (n >= PROMPT_STABLE_TICKS),
{
    lemma_quiet_looks(c.watched(len, true), n);
}

proof fn lemma_quiet_looks(c: CoreView, n: nat)
    requires
        c.prompt_stable == 0,
        n < u8::MAX,
    ensures
        quiet_looks(c, n).prompt_stable == n,
        quiet_looks(c, n).prev_raw_len == c.prev_raw_len,
    decreases n,
{
    if n > 0 {
        lemma_quiet_looks(c, (n - 1) as nat);
    }
}

/// New output, or output without a prompt, starts the count of looks over.
pub proof fn law_new_output_starts_over(c: CoreView, len: usize, has_prompt: bool)
    requires
        len != c.prev_raw_len || !has_prompt,
    ensures
        !c.watched(len, has_prompt).prompt_ready(),
        c.watched(len, has_prompt).prompt_stable == 0,
{
}

// ---------------------------------------------------------------------------
// The dialogue
// ---------------------------------------------------------------------------

/// Once `sftp` is at its prompt, it is asked where it is; once it has told, it is
/// asked for a listing.
pub proof fn law_sftp_is_asked_in_turn(s: SftpView, now: u64)
    requires
        s.watched(now).core.prompt_ready(),
        s.state == SftpState::Connecting || (s.state == SftpState::WaitingPwd && !s.sftp.exited
            && !sftp::timed_out(s.core.cmd_start, now)),
    ensures
        s.state == SftpState::Connecting ==> s.ticked(now).state == SftpState::WaitingPwd
            && s.ticked(now).sftp == s.sftp.drained().sent("pwd\r\n"@),
        s.state == SftpState::WaitingPwd ==> s.ticked(now).state == SftpState::WaitingLs
            && s.ticked(now).sftp == s.sftp.drained().sent(
            sftp::ls_command(s.ticked(now).core.remote.path),
        ),
{
    reveal(SftpView::ticked);
}

/// Once a listing has arrived and nothing waits, the browser is idle and shows
/// what is listed.
pub proof fn law_listing_is_shown(s: SftpView, now: u64)
    requires
        s.watched(now).core.prompt_ready(),
        s.state == SftpState::WaitingLs,
        !s.sftp.exited,
        !sftp::timed_out(s.core.cmd_start, now),
        s.core.link_probe is None,
        s.core.transfer.pending.len() == 0,
        s.core.delete.pending.len() == 0,
    ensures
        s.ticked(now).state == SftpState::Idle,
        s.ticked(now).sftp == s.sftp.drained(),
        s.ticked(now).core.remote.entries == parse::listing_of(
            parse::entries_in(s.sftp.lines()),
        ),
{
    reveal(SftpView::ticked);
}

/// Once the shell is at a prompt it is told to use one that can be recognised;
/// once it does, it is asked where it is, and once it has told, for a listing.
pub proof fn law_shell_is_asked_in_turn(s: SshView, now: u64)
    requires
        s.watched().core.prompt_ready(),
        s.state == SshBrowserState::Connecting ==> !s.asking && ssh::password_prompts(
            s.ssh.lines(),
        ) <= s.prompts,
        s.state == SshBrowserState::Connecting || s.state == SshBrowserState::SettingPrompt || (
        s.state == SshBrowserState::WaitingPwd && !sftp::timed_out(s.core.cmd_start, now)),
    ensures
        s.state == SshBrowserState::Connecting ==> s.ticked(now).state
            == SshBrowserState::SettingPrompt && s.ticked(now).ssh == s.ssh.drained().sent(
            ssh::prompt_command(),
        ),
        s.state == SshBrowserState::SettingPrompt ==> s.ticked(now).state
            == SshBrowserState::WaitingPwd && s.ticked(now).ssh == s.ssh.drained().sent(
            "pwd\r\n"@,
        ),
        s.state == SshBrowserState::WaitingPwd ==> s.ticked(now).state
            == SshBrowserState::WaitingLs && s.ticked(now).ssh == s.ssh.drained().sent(
            sftp::ls_command(s.ticked(now).core.remote.path),
        ),
{
    reveal(SshView::ticked);
}

// ---------------------------------------------------------------------------
// Deletion
// ---------------------------------------------------------------------------

/// Nothing is deleted before it was confirmed: who asks for a deletion sends
/// nothing and has nothing removed, whatever was asked and answered before, and a
/// refusal forgets all that was to be deleted.
pub proof fn law_deletions_are_confirmed(s: SftpView, t: SshView)
    ensures
        s.delete_asked().sftp == s.sftp,
        s.delete_asked().state == s.state,
        s.delete_asked().core.delete != s.core.delete ==> !s.delete_asked().core.delete.removing,
        t.delete_asked().ssh == t.ssh,
        t.delete_asked().state == t.state,
        t.delete_asked().core.delete != t.core.delete ==> !t.delete_asked().core.delete.removing,
        s.core.deletion_refused().delete.confirm is None,
        s.core.deletion_refused().delete.pending.len() == 0,
        !s.core.deletion_refused().delete.removing,
{
}

// ---------------------------------------------------------------------------
// Rest
// ---------------------------------------------------------------------------

/// An idle browser over `sftp` sends nothing and stays idle, and its status
/// line stands.
pub proof fn law_idle_sftp_rests(s: SftpView, now: u64)
    requires
        s.state == SftpState::Idle,
    ensures
        s.ticked(now).state == SftpState::Idle,
        s.ticked(now).sftp == s.sftp,
        s.ticked(now).core.status_msg == s.core.status_msg,
        s.ticked(now).core.transfer == s.core.transfer,
        s.ticked(now).core.delete == s.core.delete,
{
    reveal(SftpView::ticked);
}

/// An idle browser over `ssh` sends nothing and stays idle, and its status
/// line stands.
pub proof fn law_idle_ssh_rests(s: SshView, now: u64)
    requires
        s.state == SshBrowserState::Idle,
    ensures
        s.ticked(now).state == SshBrowserState::Idle,
        s.ticked(now).ssh == s.ssh,
        s.ticked(now).scp == s.scp,
        s.ticked(now).core.status_msg == s.core.status_msg,
        s.ticked(now).core.transfer == s.core.transfer,
        s.ticked(now).core.delete == s.core.delete,
{
    reveal(SshView::ticked);
}

/// While a browser over `sftp` is busy it takes up nothing else on the other
/// side: no transfer, no directory and no deletion.
pub proof fn law_busy_sftp_takes_nothing(s: SftpView, direction: TransferDirection, now: u64)
    requires
        s.state != SftpState::Idle,
    ensures
        s.transfer_asked(direction, now) == s,
        s.core.focus == BrowserFocus::Remote ==> s.entered(now) == s && s.went_up(now) == s
            && s.delete_asked() == s,
{
}

/// While a browser over `ssh` is busy it takes up nothing else on the other
/// side: no transfer, no directory and no deletion. It is busy as soon as it has
/// asked for an `scp`, and then starts no deletion that was confirmed either.
pub proof fn law_busy_ssh_takes_nothing(s: SshView, direction: TransferDirection, now: u64)
    requires
        s.state != SshBrowserState::Idle || s.request is Some,
    ensures
        s.transfer_asked(direction) == s,
        s.core.focus == BrowserFocus::Remote ==> s.entered(now) == s && s.went_up(now) == s
            && s.delete_asked() == s,
        s.request is Some && !s.core.confirms_local() ==> s.delete_confirmed() == s,
{
}

// ---------------------------------------------------------------------------
// Trouble
// ---------------------------------------------------------------------------

/// Where the process is lost in the middle of its work, the browser says so,
/// is idle again, and nothing waits any more.
pub proof fn law_lost_sftp_recovers(s: SftpView, now: u64)
    requires
        s.state != SftpState::Idle,
        s.state != SftpState::Connecting,
        s.sftp.exited,
    ensures
        s.ticked(now).state == SftpState::Idle,
        s.ticked(now).sftp == s.sftp,
        s.ticked(now).core.transfer.pending.len() == 0,
        s.ticked(now).core.delete.pending.len() == 0,
        s.ticked(now).core.drop_confirm is None,
        s.ticked(now).core.status_msg == "SFTP connection lost"@,
        s.ticked(now).core.status_color == Color::Red,
{
    reveal(SftpView::ticked);
}

/// A transfer without its `scp` has failed: the browser says so, is idle again,
/// and nothing waits any more.
pub proof fn law_lost_scp_recovers(s: SshView, now: u64)
    requires
        s.state == SshBrowserState::Transferring,
        s.scp is None,
        !s.asking,
    ensures
        s.ticked(now).state == SshBrowserState::Idle,
        s.ticked(now).ssh == s.ssh,
        s.ticked(now).core.transfer.pending.len() == 0,
        s.ticked(now).core.delete.pending.len() == 0,
        s.ticked(now).core.drop_confirm is None,
        s.ticked(now).core.status_msg == "Transfer failed"@,
        s.ticked(now).core.status_color == Color::Red,
{
    reveal(SshView::ticked);
}

/// A command of which no reply has come in time is given up. That needs a
/// command that was timed, and a process that still runs.
pub proof fn law_slow_sftp_command_is_given_up(s: SftpView, now: u64)
    requires
        s.waits(),
        !s.sftp.exited,
        sftp::timed_out(s.core.cmd_start, now),
    ensures
        s.ticked(now).state == SftpState::Idle,
        s.ticked(now).sftp == s.sftp,
        s.ticked(now).core.cmd_start is None,
        s.ticked(now).core.status_msg == "Command timed out"@,
        s.ticked(now).core.status_color == Color::Red,
{
    reveal(SftpView::ticked);
}

/// A command of which no reply has come in time is given up.
pub proof fn law_slow_ssh_command_is_given_up(s: SshView, now: u64)
    requires
        s.waits(),
        sftp::timed_out(s.core.cmd_start, now),
    ensures
        s.ticked(now).state == SshBrowserState::Idle,
        s.ticked(now).ssh == s.ssh,
        s.ticked(now).core.cmd_start is None,
        s.ticked(now).core.status_msg == "Command timed out"@,
        s.ticked(now).core.status_color == Color::Red,
{
    reveal(SshView::ticked);
}

/// A transfer that failed cancels the transfers that wait. The browser says
/// which one failed and lists the directory again.
pub proof fn law_failed_transfer_cancels_the_rest(s: SftpView, now: u64)
    requires
        s.state == SftpState::Transferring,
        !s.sftp.exited,
        s.watched(now).core.prompt_ready(),
        parse::shows_any(s.sftp.lines(), sftp::transfer_errors()),
    ensures
        s.ticked(now).state == SftpState::WaitingLs,
        s.ticked(now).core.transfer.pending.len() == 0,
        s.ticked(now).sftp == s.sftp.drained().sent(sftp::ls_command(s.core.remote.path)),
        s.core.transfer.last matches Some(t) ==> s.ticked(now).core.status_msg
            == "Transfer failed"@ + ": "@ + t.filename && s.ticked(now).core.status_color
            == Color::Red,
{
    reveal(SftpView::ticked);
}

/// A deletion that failed cancels the deletions that wait. The browser says
/// which one failed and lists the directory again.
pub proof fn law_failed_sftp_delete_cancels_the_rest(s: SftpView, now: u64)
    requires
        s.state == SftpState::WaitingDelete,
        !s.sftp.exited,
        !sftp::timed_out(s.core.cmd_start, now),
        s.watched(now).core.prompt_ready(),
        s.core.delete.pending_name is Some,
        parse::shows_any(s.sftp.lines(), sftp::sftp_delete_errors()),
    ensures
        s.ticked(now).state == SftpState::WaitingLs,
        s.ticked(now).core.delete.pending.len() == 0,
        s.ticked(now).sftp == s.sftp.drained().sent(sftp::ls_command(s.core.remote.path)),
        s.ticked(now).core.status_msg == "Delete failed: "@ + s.core.delete.pending_name->0,
        s.ticked(now).core.status_color == Color::Red,
{
    reveal(SftpView::ticked);
}

/// A deletion that failed cancels the deletions that wait. The browser says
/// which one failed and lists the directory again.
pub proof fn law_failed_ssh_delete_cancels_the_rest(s: SshView, now: u64)
    requires
        s.state == SshBrowserState::WaitingDelete,
        !sftp::timed_out(s.core.cmd_start, now),
        s.watched().core.prompt_ready(),
        s.core.delete.pending_name is Some,
        parse::shows_any(ssh::without_echo(s.ssh.lines()), ssh::shell_delete_errors()),
    ensures
        s.ticked(now).state == SshBrowserState::WaitingLs,
        s.ticked(now).core.delete.pending.len() == 0,
        s.ticked(now).ssh == s.ssh.drained().sent(sftp::ls_command(s.core.remote.path)),
        s.ticked(now).core.status_msg == "Delete failed: "@ + s.core.delete.pending_name->0,
        s.ticked(now).core.status_color == Color::Red,
{
    reveal(SshView::ticked);
}

// ---------------------------------------------------------------------------
// Queues
// ---------------------------------------------------------------------------

/// What waits for transfer is taken in the order in which it was queued, one
/// at a time, while the rest waits on.
pub proof fn law_sftp_transfers_keep_their_order(s: SftpView, now: u64)
    requires
        s.state == SftpState::Idle,
        s.core.transfer.pending.len() > 0,
    ensures
        s.next_started(now).state == SftpState::Transferring,
        s.next_started(now).core.transfer.current == Some(s.core.transfer.pending[0]),
        s.next_started(now).core.transfer.pending == s.core.transfer.pending.skip(1),
        s.next_started(now).core.delete == s.core.delete,
{
}

/// What waits for transfer is taken in the order in which it was queued, one
/// at a time, while the rest waits on.
pub proof fn law_ssh_transfers_keep_their_order(s: SshView)
    requires
        s.state == SshBrowserState::Idle,
        s.request is None,
        s.core.transfer.pending.len() > 0,
    ensures
        s.next_started().request == Some(
            ssh::scp_for(s.core.next_taken(), s.core.transfer.pending[0], s.core.pending_direction()),
        ),
        s.next_started().core.transfer.pending == s.core.transfer.pending.skip(1),
        s.next_started().core.delete == s.core.delete,
{
}

/// An `scp` that could not be started leaves the rest of the queue waiting, and
/// the browser as idle as it was.
pub proof fn law_scp_that_does_not_start_changes_no_queue(s: SshView, error: Seq<char>)
    ensures
        s.scp_refused(error).core.transfer == s.core.transfer,
        s.scp_refused(error).state == s.state,
        s.scp_refused(error).request is None,
{
}

/// With the keyboard back in the panel where it was, the panels are as they
/// were; only a drive picker and a selection of several rows are gone.
pub proof fn law_focus_changes_back(c: CoreView)
    ensures
        c.focus_toggled().focus != c.focus,
        c.focus_toggled().focus_toggled().focus == c.focus,
        c.focus_toggled().focus_toggled().local == c.local,
        c.focus_toggled().focus_toggled().remote == c.remote,
        c.focus_toggled().drive_picker is None,
        c.focus_toggled().selected == Set::<usize>::empty(),
{
}

// ---------------------------------------------------------------------------
// Passwords
// ---------------------------------------------------------------------------

/// A password that was saved is sent to `ssh` once. Where it is asked for
/// again, it was wrong: it is forgotten, and the user is asked.
pub proof fn law_wrong_password_is_forgotten(s: SshView, now: u64)
    requires
        s.state == SshBrowserState::Connecting,
        !s.asking,
        ssh::password_prompts(s.ssh.lines()) > s.prompts,
        ssh::password_prompts(s.ssh.lines()) > 1,
        ssh::password_prompts(s.ssh.lines()) <= usize::MAX,
        s.saved is Some,
    ensures
        s.ticked(now).saved is None,
        s.ticked(now).asking,
        s.ticked(now).ssh == s.ssh,
{
    reveal(SshView::ticked);
}

/// While the user is asked for the password of a connection or of a transfer,
/// the browser sends nothing.
pub proof fn law_nothing_is_sent_while_asking(s: SshView, now: u64)
    requires
        s.asking,
        s.state == SshBrowserState::Connecting || s.state == SshBrowserState::Transferring,
    ensures
        s.ticked(now).ssh == s.ssh,
        s.ticked(now).scp == s.scp,
        s.ticked(now).state == s.state,
        s.ticked(now).asking,
{
    reveal(SshView::ticked);
}

} // verus!
