//! What holds between the moment at which a browser asks the application for
//! something and the moment at which it is told the outcome.
use vstd::prelude::*;
use crate::browser::common::delete;
use crate::browser::common::{BrowserKeyAction, CoreView, DeleteLocation, TransferDirection};
use crate::browser::laws;
use crate::browser::parse;
use crate::browser::sftp;
use crate::browser::sftp::{SftpState, SftpView};
use crate::browser::ssh;
use crate::browser::ssh::{SshBrowserState, SshView};
use crate::event::KeyCode;
use crate::keybindings::BrowserBindings;

verus! {

// ---------------------------------------------------------------------------
// The removal of local files
// ---------------------------------------------------------------------------

/// A question about what is chosen in a panel is only asked: nothing is removed
/// before the answer.
pub proof fn law_asking_removes_nothing(c: CoreView, location: DeleteLocation)
    requires
        c.asked_to_delete_chosen(location).delete.confirm != c.delete.confirm,
    ensures
        c.asked_to_delete_chosen(location).delete.confirm is Some,
        !c.asked_to_delete_chosen(location).delete.removing,
{
}

proof fn lemma_plain_keys_leave_deletions(
    c: CoreView,
    code: KeyCode,
    ctrl: bool,
    alt: bool,
    shift: bool,
    b: BrowserBindings,
    now: u64,
)
    ensures
        ({
            let (d, action) = c.plain_keyed(code, ctrl, alt, shift, b, now);
            d.delete == c.delete && action != BrowserKeyAction::ConfirmDeleteYes
        }),
{
    assert(c.focus_toggled().delete == c.delete);
    assert(c.picker_dismissed().delete == c.delete);
    assert(c.navigated(false, shift).delete == c.delete);
    assert(c.navigated(true, shift).delete == c.delete);
    assert(c.scrolled_left().delete == c.delete);
    assert(c.scrolled_right().delete == c.delete);
    assert(c.unselected().delete == c.delete);
    assert(c.transfer_keyed().delete == c.delete);
    if let KeyCode::Char(k) = code {
        assert(c.pasted(k, now).delete == c.delete);
    }
}

/// Whether a key that leads to `d` and asks for `action` changes what is to be
/// deleted only where it refuses a question that was not answered yet, and says
/// yes only to such a question.
pub open spec fn answers_only_what_was_asked(
    c: CoreView,
    code: KeyCode,
    d: CoreView,
    action: BrowserKeyAction,
) -> bool {
    let asked = c.delete.confirm is Some && !c.delete.removing;
    &&& d.delete == c.delete || asked && d.delete == c.deletion_refused().delete && (code
        == KeyCode::Char('n') || code == KeyCode::Esc)
    &&& action == BrowserKeyAction::ConfirmDeleteYes ==> asked && d == c && code == KeyCode::Char(
        'y',
    )
    &&& action == BrowserKeyAction::Delete ==> c.delete.confirm is None && d.delete == c.delete
}

/// A key changes what is to be deleted only where it refuses a question that was
/// not answered yet, and says yes only to such a question.
pub proof fn law_keys_answer_what_was_asked(
    c: CoreView,
    code: KeyCode,
    ctrl: bool,
    alt: bool,
    shift: bool,
    b: BrowserBindings,
    now: u64,
    dirs: Seq<bool>,
)
    ensures
        ({
            let (d, action) = c.keyed(code, ctrl, alt, shift, b, now, dirs);
            answers_only_what_was_asked(c, code, d, action)
        }),
{
    lemma_plain_keys_leave_deletions(c, code, ctrl, alt, shift, b, now);
    if c.drop_confirm is Some {
        assert(c.drop_keyed(c.drop_confirm->0, code, dirs).delete == c.delete);
    }
}

proof fn lemma_sftp_work_leaves_deletions(s: SftpView, now: u64, direction: TransferDirection)
    ensures
        s.entered(now).core.delete == s.core.delete,
        s.went_up(now).core.delete == s.core.delete,
        s.transfer_asked(direction, now).core.delete == s.core.delete,
{
    assert(s.core.local_entered().delete == s.core.delete);
    assert(s.core.local_went_up().delete == s.core.delete);
    assert(s.transfer_asked(direction, now).core.delete == s.core.delete);
    assert(s.transfer_asked(TransferDirection::Download, now).core.delete == s.core.delete);
}

proof fn lemma_ssh_work_leaves_deletions(s: SshView, now: u64, direction: TransferDirection)
    ensures
        s.entered(now).core.delete == s.core.delete,
        s.went_up(now).core.delete == s.core.delete,
        s.transfer_asked(direction).core.delete == s.core.delete,
{
    assert(s.core.local_entered().delete == s.core.delete);
    assert(s.core.local_went_up().delete == s.core.delete);
    assert(s.transfer_asked(direction).core.delete == s.core.delete);
    assert(s.transfer_asked(TransferDirection::Download).core.delete == s.core.delete);
}

/// What a key leads to and asks for, where it is not passed on to a process.
proof fn lemma_sftp_pressed(
    s: SftpView,
    code: KeyCode,
    ctrl: bool,
    alt: bool,
    shift: bool,
    b: BrowserBindings,
    now: u64,
    dirs: Seq<bool>,
) -> (r: (CoreView, BrowserKeyAction))
    ensures
        answers_only_what_was_asked(s.core, code, r.0, r.1),
        ({
            let n = s.pressed(code, ctrl, alt, shift, b, now, dirs);
            ||| n == s
            ||| n == s.connect_keyed(code)
            ||| n == (SftpView { core: r.0, ..s }).acted(r.1, now)
        }),
{
    reveal(SftpView::pressed);
    law_keys_answer_what_was_asked(s.core, code, ctrl, alt, shift, b, now, dirs);
    s.core.keyed(code, ctrl, alt, shift, b, now, dirs)
}

/// What the browser does on a key that asks for something.
proof fn lemma_sftp_acted(s: SftpView, action: BrowserKeyAction, now: u64)
    ensures
        action != BrowserKeyAction::Delete && action != BrowserKeyAction::ConfirmDeleteYes
            ==> s.acted(action, now).core.delete == s.core.delete,
        action == BrowserKeyAction::Delete ==> s.acted(action, now) == s.delete_asked(),
        action == BrowserKeyAction::ConfirmDeleteYes ==> s.acted(action, now)
            == s.delete_confirmed(),
{
    lemma_sftp_work_leaves_deletions(s, now, TransferDirection::Upload);
    lemma_sftp_work_leaves_deletions(s, now, TransferDirection::Download);
}

/// A key asks for the removal of a local file only where it is a yes to the
/// question about that file, and once that was answered no key takes it back.
pub proof fn law_sftp_keys_remove_what_was_confirmed(
    s: SftpView,
    code: KeyCode,
    ctrl: bool,
    alt: bool,
    shift: bool,
    b: BrowserBindings,
    now: u64,
    dirs: Seq<bool>,
)
    ensures
        ({
            let n = s.pressed(code, ctrl, alt, shift, b, now, dirs);
            &&& n.core.delete.removing && !s.core.delete.removing ==> code == KeyCode::Char('y')
                && s.core.confirms_local() && n.core.delete.confirm == s.core.delete.confirm
            &&& s.core.delete.removing && s.core.confirms_local() ==> n.core.delete
                == s.core.delete
        }),
{
    let (core, action) = lemma_sftp_pressed(s, code, ctrl, alt, shift, b, now, dirs);
    let t = SftpView { core, ..s };
    lemma_sftp_acted(t, action, now);
    laws::law_deletions_are_confirmed(t, arbitrary());
    assert(s.connect_keyed(code).core.delete == s.core.delete);
}

/// What a key leads to and asks for, where it is not passed on to a process.
proof fn lemma_ssh_pressed(
    s: SshView,
    code: KeyCode,
    ctrl: bool,
    alt: bool,
    shift: bool,
    b: BrowserBindings,
    now: u64,
    dirs: Seq<bool>,
) -> (r: (CoreView, BrowserKeyAction))
    ensures
        answers_only_what_was_asked(s.core, code, r.0, r.1),
        ({
            let n = s.pressed(code, ctrl, alt, shift, b, now, dirs);
            ||| n == s
            ||| s.connecting() && n == s.connect_keyed(code)
            ||| s.asking && n == s.password_keyed(code)
            ||| n == (SshView { core: r.0, ..s }).acted(r.1, now)
        }),
{
    reveal(SshView::pressed);
    law_keys_answer_what_was_asked(s.core, code, ctrl, alt, shift, b, now, dirs);
    s.core.keyed(code, ctrl, alt, shift, b, now, dirs)
}

/// What the browser does on a key that asks for something.
proof fn lemma_ssh_acted(s: SshView, action: BrowserKeyAction, now: u64)
    ensures
        action != BrowserKeyAction::Delete && action != BrowserKeyAction::ConfirmDeleteYes
            ==> s.acted(action, now).core.delete == s.core.delete,
        action == BrowserKeyAction::Delete ==> s.acted(action, now) == s.delete_asked(),
        action == BrowserKeyAction::ConfirmDeleteYes ==> s.acted(action, now)
            == s.delete_confirmed(),
{
    lemma_ssh_work_leaves_deletions(s, now, TransferDirection::Upload);
    lemma_ssh_work_leaves_deletions(s, now, TransferDirection::Download);
}

/// A key asks for the removal of a local file only where it is a yes to the
/// question about that file, and once that was answered no key takes it back.
pub proof fn law_ssh_keys_remove_what_was_confirmed(
    s: SshView,
    code: KeyCode,
    ctrl: bool,
    alt: bool,
    shift: bool,
    b: BrowserBindings,
    now: u64,
    dirs: Seq<bool>,
)
    ensures
        ({
            let n = s.pressed(code, ctrl, alt, shift, b, now, dirs);
            &&& n.core.delete.removing && !s.core.delete.removing ==> code == KeyCode::Char('y')
                && s.core.confirms_local() && n.core.delete.confirm == s.core.delete.confirm
            &&& s.core.delete.removing && s.core.confirms_local() ==> n.core.delete
                == s.core.delete
        }),
{
    let (core, action) = lemma_ssh_pressed(s, code, ctrl, alt, shift, b, now, dirs);
    let t = SshView { core, ..s };
    lemma_ssh_acted(t, action, now);
    laws::law_deletions_are_confirmed(arbitrary(), t);
    assert(s.connect_keyed(code).core.delete == s.core.delete);
    assert(s.password_keyed(code).core.delete == s.core.delete);
}

/// Whether a step from `c` to `d` leaves a question that is up as it is, and
/// otherwise has no local file removed but the first that waits.
#[verifier::opaque]
pub open spec fn takes_at_most_the_next(c: CoreView, d: CoreView) -> bool {
    &&& c.delete.confirm is Some ==> d.delete.confirm == c.delete.confirm && d.delete.removing
        == c.delete.removing
    &&& c.delete.confirm is None && d.delete.removing && !c.delete.removing
        ==> c.delete.pending.len() > 0 && d.delete.confirm == Some(c.delete.pending[0])
        && d.confirms_local()
}

proof fn lemma_same_deletions(c: CoreView, w: CoreView, d: CoreView)
    requires
        w.delete == c.delete,
        takes_at_most_the_next(w, d),
    ensures
        takes_at_most_the_next(c, d),
{
    reveal(takes_at_most_the_next);
}

proof fn lemma_nothing_taken(c: CoreView, d: CoreView)
    requires
        d.delete == c.delete,
    ensures
        takes_at_most_the_next(c, d),
{
    reveal(takes_at_most_the_next);
}

proof fn lemma_sftp_steps(s: SftpView, now: u64)
    ensures
        takes_at_most_the_next(s.core, s.lost().core),
        takes_at_most_the_next(s.core, s.tick_connecting(now).core),
        takes_at_most_the_next(s.core, s.tick_pwd(now).core),
        takes_at_most_the_next(s.core, s.tick_transferred(now).core),
        takes_at_most_the_next(s.core, s.tick_progress().core),
{
    reveal(takes_at_most_the_next);
    assert(s.lost().core.delete.confirm == s.core.delete.confirm);
    assert(s.tick_pwd(now).core.delete == s.core.delete);
    assert(s.tick_transferred(now).core.delete == s.core.delete);
    assert(s.tick_progress().core.delete == s.core.delete);
}

proof fn lemma_sftp_next(s: SftpView, now: u64)
    ensures
        takes_at_most_the_next(s.core, s.next_started(now).core),
{
    reveal(takes_at_most_the_next);
    lemma_sftp_work_leaves_deletions(s, now, s.core.pending_direction());
}

proof fn lemma_sftp_ls(s: SftpView, now: u64)
    ensures
        takes_at_most_the_next(s.core, s.tick_ls(now).core),
{
    reveal(takes_at_most_the_next);
    let listing = parse::listing_of(parse::entries_in(s.sftp.lines()));
    let c = CoreView { link_probe: None, ..s.core };
    let idle = SftpView {
        core: c.listed(listing, now),
        sftp: s.sftp.drained(),
        state: SftpState::Idle,
    };
    assert(idle.core.delete == s.core.delete);
    lemma_sftp_next(idle, now);
    assert(s.tick_listed(now) == idle.next_started(now));
    if s.core.link_probe is Some {
        let link = s.core.link_probe->0;
        assert(c.link_probed(link, sftp::probe_in(listing, link)).delete == s.core.delete);
    }
}

proof fn lemma_sftp_deleted(s: SftpView, now: u64)
    ensures
        takes_at_most_the_next(s.core, s.tick_deleted(now).core),
{
    reveal(takes_at_most_the_next);
    let failed = parse::shows_any(s.sftp.lines(), sftp::sftp_delete_errors());
    let c = s.core.delete_answered(failed);
    assert(c.delete.confirm == s.core.delete.confirm);
    assert(c.delete.removing == s.core.delete.removing);
    assert(!failed ==> c.delete.pending == s.core.delete.pending);
}

/// A tick answers no question. While none is up, it takes the first deletion
/// that waits, and no other.
pub proof fn law_sftp_ticks_answer_no_question(s: SftpView, now: u64)
    ensures
        takes_at_most_the_next(s.core, s.ticked(now).core),
{
    reveal(SftpView::ticked);
    let w = s.watched(now);
    assert(w.core.delete == s.core.delete);
    lemma_sftp_steps(w, now);
    lemma_sftp_ls(w, now);
    lemma_sftp_deleted(w, now);
    lemma_nothing_taken(w.core, w.core.gave_up());
    lemma_nothing_taken(w.core, w.core);
    lemma_same_deletions(s.core, w.core, s.ticked(now).core);
}

proof fn lemma_ssh_steps(s: SshView, now: u64, n: usize)
    ensures
        takes_at_most_the_next(s.core, s.tick_transfer(now).core),
        takes_at_most_the_next(s.core, s.ssh_prompted(n).core),
        takes_at_most_the_next(s.core, s.tick_connecting().core),
        takes_at_most_the_next(s.core, s.tick_prompt_set(now).core),
        takes_at_most_the_next(s.core, s.tick_pwd(now).core),
{
    reveal(takes_at_most_the_next);
    if let Some(scp) = s.scp {
        let k = ssh::password_prompts(scp.lines());
        assert(s.scp_prompted(k as usize).core.delete == s.core.delete);
        let c = s.core.progressed(parse::progress_value(scp.lines()));
        assert(c.delete == s.core.delete);
        assert(c.scp_ended().delete == s.core.delete);
    }
    assert(s.core.work_lost("Transfer failed"@).delete.confirm == s.core.delete.confirm);
    assert(s.ssh_prompted(n).core.delete == s.core.delete);
    assert(s.tick_pwd(now).core.delete == s.core.delete);
}

proof fn lemma_ssh_next(s: SshView)
    ensures
        takes_at_most_the_next(s.core, s.next_started().core),
{
    reveal(takes_at_most_the_next);
    lemma_ssh_work_leaves_deletions(s, 0, s.core.pending_direction());
}

proof fn lemma_ssh_ls(s: SshView, now: u64)
    ensures
        takes_at_most_the_next(s.core, s.tick_ls(now).core),
{
    reveal(takes_at_most_the_next);
    let listing = parse::listing_of(parse::entries_in(s.ssh.lines()));
    let l = s.located();
    let idle = SshView {
        core: l.core.listed(listing, now).watch_reset(),
        ssh: l.ssh.drained(),
        state: SshBrowserState::Idle,
        ..l
    };
    assert(idle.core.delete == s.core.delete);
    lemma_ssh_next(idle);
    assert(s.tick_ls(now) == idle.next_started());
}

proof fn lemma_ssh_deleted(s: SshView, now: u64)
    ensures
        takes_at_most_the_next(s.core, s.tick_deleted(now).core),
{
    reveal(takes_at_most_the_next);
    let failed = parse::shows_any(
        ssh::without_echo(s.ssh.lines()),
        ssh::shell_delete_errors(),
    );
    let c = s.core.delete_answered(failed);
    assert(c.delete.confirm == s.core.delete.confirm);
    assert(c.delete.removing == s.core.delete.removing);
    assert(!failed ==> c.delete.pending == s.core.delete.pending);
}

/// A tick answers no question. While none is up, it takes the first deletion
/// that waits, and no other.
pub proof fn law_ssh_ticks_answer_no_question(s: SshView, now: u64)
    ensures
        takes_at_most_the_next(s.core, s.ticked(now).core),
{
    reveal(SshView::ticked);
    let p = SshView { core: s.core.paste_checked(now), ..s };
    assert(p.core.delete == s.core.delete);
    lemma_nothing_taken(p.core, p.core);
    let w = p.watched();
    assert(w.core.delete == s.core.delete);
    let n = ssh::password_prompts(p.ssh.lines()) as usize;
    lemma_ssh_steps(p, now, n);
    lemma_ssh_steps(w, now, n);
    lemma_ssh_ls(w, now);
    lemma_ssh_deleted(w, now);
    lemma_nothing_taken(w.core, w.core.gave_up());
    lemma_nothing_taken(w.core, w.core);
    if !takes_at_most_the_next(p.core, s.ticked(now).core) {
        lemma_same_deletions(s.core, w.core, s.ticked(now).core);
    } else {
        lemma_same_deletions(s.core, p.core, s.ticked(now).core);
    }
}

/// What the application is asked to remove is always a local file that was up
/// for confirmation: every step keeps it so.
pub proof fn law_sftp_removals_are_sound(s: SftpView, now: u64, error: Option<Seq<char>>)
    requires
        s.core.removal_sound(),
    ensures
        s.ticked(now).core.removal_sound(),
        s.delete_asked().core.removal_sound(),
        s.delete_confirmed().core.removal_sound(),
        s.next_started(now).core.removal_sound(),
        s.local_removed(error).core.removal_sound(),
        s.core.deletion_refused().removal_sound(),
        s.core.next_delete_taken().removal_sound(),
{
    reveal(takes_at_most_the_next);
    law_sftp_ticks_answer_no_question(s, now);
    lemma_sftp_next(s, now);
}

/// What the application is asked to remove is always a local file that was up
/// for confirmation: every key keeps it so.
pub proof fn law_sftp_keys_keep_removals_sound(
    s: SftpView,
    code: KeyCode,
    ctrl: bool,
    alt: bool,
    shift: bool,
    b: BrowserBindings,
    now: u64,
    dirs: Seq<bool>,
)
    requires
        s.core.removal_sound(),
    ensures
        s.pressed(code, ctrl, alt, shift, b, now, dirs).core.removal_sound(),
{
    law_sftp_keys_remove_what_was_confirmed(s, code, ctrl, alt, shift, b, now, dirs);
}

/// What the application is asked to remove is always a local file that was up
/// for confirmation: every step keeps it so.
pub proof fn law_ssh_removals_are_sound(s: SshView, now: u64, error: Option<Seq<char>>)
    requires
        s.core.removal_sound(),
    ensures
        s.ticked(now).core.removal_sound(),
        s.delete_asked().core.removal_sound(),
        s.delete_confirmed().core.removal_sound(),
        s.next_started().core.removal_sound(),
        s.local_removed(error).core.removal_sound(),
        s.core.deletion_refused().removal_sound(),
        s.core.next_delete_taken().removal_sound(),
{
    reveal(takes_at_most_the_next);
    law_ssh_ticks_answer_no_question(s, now);
    lemma_ssh_next(s);
}

/// What the application is asked to remove is always a local file that was up
/// for confirmation: every key keeps it so.
pub proof fn law_ssh_keys_keep_removals_sound(
    s: SshView,
    code: KeyCode,
    ctrl: bool,
    alt: bool,
    shift: bool,
    b: BrowserBindings,
    now: u64,
    dirs: Seq<bool>,
)
    requires
        s.core.removal_sound(),
    ensures
        s.pressed(code, ctrl, alt, shift, b, now, dirs).core.removal_sound(),
{
    law_ssh_keys_remove_what_was_confirmed(s, code, ctrl, alt, shift, b, now, dirs);
}

/// Each outcome of a removal leaves fewer files to remove, so that removing them
/// one after another comes to an end.
pub proof fn law_removals_come_to_an_end(s: SftpView, t: SshView, error: Option<Seq<char>>)
    ensures
        s.core.confirms_local() && s.local_removed(error).core.delete.removing
            ==> s.local_removed(error).core.delete.pending.len() < s.core.delete.pending.len(),
        t.core.confirms_local() && t.local_removed(error).core.delete.removing
            ==> t.local_removed(error).core.delete.pending.len() < t.core.delete.pending.len(),
{
}

/// Until the local directory that the panel went to is listed, nothing in it can
/// be deleted or uploaded.
pub proof fn law_unlisted_directory_offers_nothing(c: CoreView, path: Seq<char>, row: usize)
    ensures
        delete::target_at(c.local_at(path).local, DeleteLocation::Local, row) is None,
        c.local_at(path).asked_to_delete_one(DeleteLocation::Local) == c.local_at(path),
        c.transfer.pending.len() == 0 ==> c.local_at(path).source(TransferDirection::Upload)
            is None,
{
    assert(parse::in_order(Seq::empty()).len() == 0);
}

// ---------------------------------------------------------------------------
// The start of an `scp`
// ---------------------------------------------------------------------------

proof fn lemma_request_outlasts_keys(s: SshView, action: BrowserKeyAction, now: u64)
    requires
        s.request is Some,
        s.state == SshBrowserState::Idle,
    ensures
        s.acted(action, now).request == s.request,
        s.acted(action, now).state == s.state,
        s.acted(action, now).ssh == s.ssh,
{
    assert(s.transfer_asked(TransferDirection::Upload) == s);
    assert(s.transfer_asked(TransferDirection::Download) == s);
}

/// From the moment on that a browser over `ssh` asks for an `scp` until that was
/// started, or not, no key takes the request back, and the shell is sent nothing.
pub proof fn law_scp_request_outlasts_keys(
    s: SshView,
    code: KeyCode,
    ctrl: bool,
    alt: bool,
    shift: bool,
    b: BrowserBindings,
    now: u64,
    dirs: Seq<bool>,
)
    requires
        s.request is Some,
        s.state == SshBrowserState::Idle,
    ensures
        ({
            let n = s.pressed(code, ctrl, alt, shift, b, now, dirs);
            n.request == s.request && n.state == s.state && n.ssh == s.ssh
        }),
{
    let (core, action) = lemma_ssh_pressed(s, code, ctrl, alt, shift, b, now, dirs);
    lemma_request_outlasts_keys(SshView { core, ..s }, action, now);
}

/// From the moment on that a browser over `ssh` asks for an `scp` until that was
/// started, or not, the request stands over every tick and every removal of a
/// local file, and the shell is sent nothing.
pub proof fn law_scp_request_stands(s: SshView, now: u64, error: Option<Seq<char>>)
    requires
        s.request is Some,
        s.state == SshBrowserState::Idle,
    ensures
        s.ticked(now).request == s.request,
        s.ticked(now).state == s.state,
        s.ticked(now).ssh == s.ssh,
        s.local_removed(error).request == s.request,
        s.local_removed(error).state == s.state,
        s.local_removed(error).ssh == s.ssh,
{
    reveal(SshView::ticked);
}

/// Only an idle browser asks for an `scp`, and it stays idle while it does.
pub proof fn law_scp_request_comes_from_idle(s: SshView, direction: TransferDirection)
    requires
        s.request is None,
        s.transfer_asked(direction).request is Some,
    ensures
        s.transfer_asked(direction).state == SshBrowserState::Idle,
        s.transfer_asked(direction).ssh == s.ssh,
{
}

} // verus!
