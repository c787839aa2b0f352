//! What the browsers say to the programs behind them, and make of their answers.
use vstd::prelude::*;
use crate::browser::command_laws;
use crate::browser::common::{CoreView, DeleteLocation, PanelView};
use crate::browser::parse;
use crate::browser::parse::EntryView;
use crate::browser::place_laws;
use crate::browser::sftp;
use crate::browser::sftp::SftpView;
use crate::browser::ssh;
use crate::browser::ssh::SshView;
use crate::event::KeyCode;
use crate::pty;
use crate::pty::PtyView;
use crate::style::Color;
use crate::text;

verus! {

// ---------------------------------------------------------------------------
// What is sent
// ---------------------------------------------------------------------------

/// Whether exactly one text was sent to a process, and nothing else was changed.
pub open spec fn is_sent(before: PtyView, after: PtyView, s: Seq<char>) -> bool {
    &&& command_laws::one_more(before.outbox, after.outbox)
    &&& after.outbox.last() == s
    &&& after == (PtyView { outbox: after.outbox, ..before })
}

/// What is sent comes behind what was sent before.
pub proof fn law_sent_texts_keep_their_order(p: PtyView, s: Seq<char>)
    ensures
        is_sent(p, p.sent(s), s),
{
    assert(p.sent(s).outbox.drop_last() =~= p.outbox);
}

/// Output comes behind the output that came before, and is noticed. To drain it takes
/// it away, and to drain all but some of it leaves its end.
pub proof fn law_output_is_gathered(p: PtyView, bytes: Seq<u8>, n: nat)
    ensures
        p.fed(bytes).raw.take(p.raw.len() as int) == p.raw,
        p.fed(bytes).raw.skip(p.raw.len() as int) == bytes,
        bytes.len() > 0 ==> p.fed(bytes).dirty,
        p.fed(bytes).outbox == p.outbox,
        p.drained().raw.len() == 0,
        p.drained().outbox == p.outbox,
        p.raw.len() >= n ==> p.drained_to(n).raw.len() == n,
        p.raw.len() < n ==> p.drained_to(n).raw == p.raw,
        forall|i: int|
            0 <= i < p.drained_to(n).raw.len() ==> #[trigger] p.drained_to(n).raw[i] == p.raw[p.raw.len()
                - p.drained_to(n).raw.len() + i],
{
    assert(p.fed(bytes).raw.take(p.raw.len() as int) =~= p.raw);
    assert(p.fed(bytes).raw.skip(p.raw.len() as int) =~= bytes);
}

/// While a connection is being made, the keys go to the program: a character as it
/// is, the enter key as the end of a line, the backspace key as the character DEL.
pub proof fn law_keys_reach_the_connecting_program(s: SftpView, t: SshView, c: char)
    ensures
        is_sent(s.sftp, s.connect_keyed(KeyCode::Char(c)).sftp, seq![c]),
        is_sent(s.sftp, s.connect_keyed(KeyCode::Enter).sftp, seq!['\r', '\n']),
        is_sent(s.sftp, s.connect_keyed(KeyCode::Backspace).sftp, seq!['\x7f']),
        s.connect_keyed(KeyCode::Char(c)).core == s.core,
        is_sent(t.ssh, t.connect_keyed(KeyCode::Char(c)).ssh, seq![c]),
        is_sent(t.ssh, t.connect_keyed(KeyCode::Enter).ssh, seq!['\r', '\n']),
        is_sent(t.ssh, t.connect_keyed(KeyCode::Backspace).ssh, seq!['\x7f']),
        t.connect_keyed(KeyCode::Char(c)).core == t.core,
{
    reveal_strlit("\r\n");
    reveal_strlit("\x7f");
    assert("\r\n"@ =~= seq!['\r', '\n']);
    assert("\x7f"@ =~= seq!['\x7f']);
    law_sent_texts_keep_their_order(s.sftp, seq![c]);
    law_sent_texts_keep_their_order(s.sftp, "\r\n"@);
    law_sent_texts_keep_their_order(s.sftp, "\x7f"@);
    law_sent_texts_keep_their_order(t.ssh, seq![c]);
    law_sent_texts_keep_their_order(t.ssh, "\r\n"@);
    law_sent_texts_keep_their_order(t.ssh, "\x7f"@);
}

// ---------------------------------------------------------------------------
// Passwords
// ---------------------------------------------------------------------------

/// The password is what was typed, character by character, less what was erased.
pub proof fn law_password_is_what_was_typed(s: SshView, c: char)
    ensures
        s.password_keyed(KeyCode::Char(c)).typed.drop_last() == s.typed,
        s.password_keyed(KeyCode::Char(c)).typed.last() == c,
        s.password_keyed(KeyCode::Char(c)).password_keyed(KeyCode::Backspace).typed == s.typed,
        s.typed.len() == 0 ==> s.password_keyed(KeyCode::Backspace).typed.len() == 0,
        s.password_keyed(KeyCode::Char(c)).ssh == s.ssh,
        s.password_keyed(KeyCode::Char(c)).scp == s.scp,
        s.password_keyed(KeyCode::Char(c)).asking == s.asking,
{
    assert(s.typed.push(c).drop_last() =~= s.typed);
}

/// The enter key sends the password, as a line, to the program that asks for it: to
/// `ssh` while the connection is being made, to `scp` in a transfer, and to no other.
/// It is kept for the next time, and asked for no more.
pub proof fn law_password_goes_to_who_asks(s: SshView)
    ensures
        ({
            let n = s.password_keyed(KeyCode::Enter);
            &&& s.state is Connecting ==> is_sent(s.ssh, n.ssh, s.typed + seq!['\r', '\n'])
                && n.scp == s.scp
            &&& !(s.state is Connecting) ==> n.ssh == s.ssh
            &&& !(s.state is Connecting) && s.scp is Some ==> n.scp is Some && is_sent(
                s.scp->0,
                n.scp->0,
                s.typed + seq!['\r', '\n'],
            )
            &&& !(s.state is Connecting) && s.scp is None ==> n.scp is None
            &&& n.saved == Some(s.typed)
            &&& n.typed.len() == 0
            &&& !n.asking
            &&& n.state == s.state
        }),
{
    reveal_strlit("\r\n");
    assert("\r\n"@ =~= seq!['\r', '\n']);
    law_sent_texts_keep_their_order(s.ssh, s.typed + "\r\n"@);
    if let Some(p) = s.scp {
        law_sent_texts_keep_their_order(p, s.typed + "\r\n"@);
    }
}

/// A password that is kept answers the first question for it. Without one the user
/// is asked, and where it is asked for again it is forgotten and the user is asked.
pub proof fn law_kept_password_answers_once(s: SshView, n: usize)
    requires
        s.scp is Some,
    ensures
        ({
            let a = s.ssh_prompted(n);
            let b = s.scp_prompted(n);
            &&& s.saved is Some && n <= 1 ==> {
                &&& is_sent(s.ssh, a.ssh, s.saved->0 + seq!['\r', '\n'])
                &&& b.scp is Some && is_sent(s.scp->0, b.scp->0, s.saved->0 + seq!['\r', '\n'])
                &&& a.saved == s.saved && b.saved == s.saved
                &&& a.asking == s.asking && b.asking == s.asking
            }
            &&& s.saved is Some && n > 1 ==> a.saved is None && b.saved is None && a.asking
                && b.asking && a.ssh == s.ssh && b.scp is None
            &&& s.saved is None ==> a.asking && b.asking && a.ssh == s.ssh && b.scp == s.scp
            &&& b.ssh == s.ssh
            &&& a.scp == s.scp
        }),
{
    reveal_strlit("\r\n");
    assert("\r\n"@ =~= seq!['\r', '\n']);
    if let Some(pw) = s.saved {
        law_sent_texts_keep_their_order(s.ssh, pw + "\r\n"@);
        law_sent_texts_keep_their_order(s.scp->0, pw + "\r\n"@);
    }
}

/// A line asks for a password where, in small letters and without the space around
/// it, it ends in `password:`; the questions among some lines are counted.
pub proof fn law_password_questions_are_counted(ls: Seq<Seq<char>>, line: Seq<char>)
    ensures
        ({
            let l = text::unicode_lowercase(text::trimmed(line));
            let asks = l.len() >= 9 && l.skip(l.len() - 9) == seq![
                'p',
                'a',
                's',
                's',
                'w',
                'o',
                'r',
                'd',
                ':',
            ];
            ssh::password_prompts(ls.push(line)) == ssh::password_prompts(ls) + (if asks {
                1nat
            } else {
                0
            })
        }),
        ssh::password_prompts(Seq::empty()) == 0,
{
    reveal_strlit("password:");
    let all = ls.push(line);
    lemma_prompts_before(ls, line, ls.len() as int);
    assert(all[ls.len() as int] == line);
    let p = seq!['p', 'a', 's', 's', 'w', 'o', 'r', 'd', ':'];
    assert("password:"@ =~= p);
    let l = text::unicode_lowercase(text::trimmed(line));
    if l.len() >= 9 {
        assert(l.subrange(l.len() - 9, l.len() as int) =~= l.skip(l.len() - 9));
    }
}

proof fn lemma_prompts_before(ls: Seq<Seq<char>>, line: Seq<char>, n: int)
    requires
        0 <= n <= ls.len(),
    ensures
        ssh::prompts_among(ls.push(line), n) == ssh::prompts_among(ls, n),
    decreases n,
{
    if n > 0 {
        lemma_prompts_before(ls, line, n - 1);
        assert(ls.push(line)[n - 1] == ls[n - 1]);
    }
}

// ---------------------------------------------------------------------------
// Prompts
// ---------------------------------------------------------------------------

/// Whether `l` is the last of some lines that is not blank.
pub open spec fn is_last_line(ls: Seq<Seq<char>>, l: Seq<char>) -> bool {
    exists|i: int|
        0 <= i < ls.len() && #[trigger] ls[i] == l && text::trimmed(l).len() > 0 && forall|j: int|
            i < j < ls.len() ==> text::trimmed(#[trigger] ls[j]).len() == 0
}

proof fn lemma_last_shown(ls: Seq<Seq<char>>)
    ensures
        match parse::last_shown(ls) {
            Some(l) => is_last_line(ls, l),
            None => forall|j: int| 0 <= j < ls.len() ==> text::trimmed(#[trigger] ls[j]).len() == 0,
        },
    decreases ls.len(),
{
    if ls.len() > 0 {
        if text::trimmed(ls.last()).len() > 0 {
            assert(ls[ls.len() - 1] == ls.last());
        } else {
            let r = ls.drop_last();
            lemma_last_shown(r);
            match parse::last_shown(r) {
                Some(l) => {
                    let i = choose|i: int|
                        0 <= i < r.len() && #[trigger] r[i] == l && text::trimmed(l).len() > 0
                            && forall|j: int|
                            i < j < r.len() ==> text::trimmed(#[trigger] r[j]).len() == 0;
                    assert(ls[i] == l);
                    assert forall|j: int| i < j < ls.len() implies text::trimmed(
                        #[trigger] ls[j],
                    ).len() == 0 by {
                        if j < r.len() {
                            assert(r[j] == ls[j]);
                        }
                    }
                },
                None => {
                    assert forall|j: int| 0 <= j < ls.len() implies text::trimmed(
                        #[trigger] ls[j],
                    ).len() == 0 by {
                        if j < r.len() {
                            assert(r[j] == ls[j]);
                        }
                    }
                },
            }
        }
    }
}

proof fn lemma_last_line_is_one(ls: Seq<Seq<char>>, a: Seq<char>, b: Seq<char>)
    requires
        is_last_line(ls, a),
        is_last_line(ls, b),
    ensures
        a == b,
{
}

/// `sftp` waits for a command where the last line of the end of its output that is
/// not blank shows its prompt.
pub proof fn law_sftp_prompt_is_recognised(p: PtyView, l: Seq<char>)
    requires
        p.raw.len() > 0,
        is_last_line(pty::plain_lines(pty::last_bytes(p.raw, 64)), l),
    ensures
        sftp::at_sftp_prompt(p) <==> text::has_part(l, seq!['s', 'f', 't', 'p', '>']),
{
    reveal_strlit("sftp>");
    assert("sftp>"@ =~= seq!['s', 'f', 't', 'p', '>']);
    let ls = pty::plain_lines(pty::last_bytes(p.raw, 64));
    lemma_last_shown(ls);
    if let Some(m) = parse::last_shown(ls) {
        lemma_last_line_is_one(ls, l, m);
    }
}

/// The shell waits for a command where the last line of the end of its output that
/// is not blank is the prompt that it was told to use. Before that, the line ends in
/// a sign that prompts end in.
pub proof fn law_shell_prompts_are_recognised(p: PtyView, l: Seq<char>, m: Seq<char>)
    requires
        p.raw.len() > 0,
        is_last_line(pty::plain_lines(pty::last_bytes(p.raw, 64)), l),
        is_last_line(pty::plain_lines(pty::last_bytes(p.raw, 128)), m),
    ensures
        ssh::at_own_prompt(p) <==> text::trimmed(l) == seq!['S', 'S', 'H', 'M', 'U', 'X', '>'],
        ssh::at_shell_prompt(p) <==> ({
            let t = text::trimmed_end(m);
            t.len() > 0 && (t.last() == '$' || t.last() == '#' || t.last() == '%')
        }),
{
    reveal_strlit("SSHMUX>");
    assert("SSHMUX>"@ =~= seq!['S', 'S', 'H', 'M', 'U', 'X', '>']);
    let ls = pty::plain_lines(pty::last_bytes(p.raw, 64));
    lemma_last_shown(ls);
    if let Some(x) = parse::last_shown(ls) {
        lemma_last_line_is_one(ls, l, x);
    }
    let ms = pty::plain_lines(pty::last_bytes(p.raw, 128));
    lemma_last_shown(ms);
    if let Some(x) = parse::last_shown(ms) {
        lemma_last_line_is_one(ms, m, x);
    }
}

/// Only the end of the output is looked at: output with the same end shows the same
/// prompt.
pub proof fn law_only_the_end_shows_a_prompt(p: PtyView, q: PtyView)
    requires
        p.raw.len() >= 128,
        q.raw.len() >= 128,
        p.raw.skip(p.raw.len() - 128) == q.raw.skip(q.raw.len() - 128),
    ensures
        sftp::at_sftp_prompt(p) == sftp::at_sftp_prompt(q),
        ssh::at_own_prompt(p) == ssh::at_own_prompt(q),
        ssh::at_shell_prompt(p) == ssh::at_shell_prompt(q),
{
    let a = p.raw.skip(p.raw.len() - 128);
    let b = q.raw.skip(q.raw.len() - 128);
    assert(pty::last_bytes(p.raw, 128) =~= a);
    assert(pty::last_bytes(q.raw, 128) =~= b);
    assert(a.skip(64) =~= p.raw.skip(p.raw.len() - 64));
    assert(b.skip(64) =~= q.raw.skip(q.raw.len() - 64));
}

/// A command has half a minute for its answer. Without a start it has forever.
pub proof fn law_commands_have_half_a_minute(start: u64, now: u64)
    requires
        start <= now,
    ensures
        sftp::timed_out(Some(start), now) <==> now - start >= 30 * 1000,
        !sftp::timed_out(None, now),
{
}

// ---------------------------------------------------------------------------
// Failures
// ---------------------------------------------------------------------------

/// Whether one of some lines shows `phrase`, in whatever case.
pub open spec fn some_line_says(ls: Seq<Seq<char>>, phrase: Seq<char>) -> bool {
    exists|i: int|
        0 <= i < ls.len() && text::has_part(#[trigger] text::unicode_lowercase(ls[i]), phrase)
}

proof fn lemma_shown(ls: Seq<Seq<char>>, messages: Seq<Seq<char>>, k: int)
    requires
        0 <= k < messages.len(),
    ensures
        some_line_says(ls, messages[k]) ==> parse::shows_any(ls, messages),
{
    if some_line_says(ls, messages[k]) {
        let i = choose|i: int|
            0 <= i < ls.len() && text::has_part(
                #[trigger] text::unicode_lowercase(ls[i]),
                messages[k],
            );
        assert(parse::line_shows(ls[i], messages));
    }
}

proof fn lemma_not_shown(ls: Seq<Seq<char>>, messages: Seq<Seq<char>>)
    ensures
        parse::shows_any(ls, messages) ==> exists|k: int|
            0 <= k < messages.len() && some_line_says(ls, #[trigger] messages[k]),
{
    if parse::shows_any(ls, messages) {
        let i = choose|i: int| 0 <= i < ls.len() && parse::line_shows(#[trigger] ls[i], messages);
        let k = choose|k: int|
            0 <= k < messages.len() && text::has_part(
                text::unicode_lowercase(ls[i]),
                #[trigger] messages[k],
            );
        assert(text::has_part(text::unicode_lowercase(ls[i]), messages[k]));
        assert(some_line_says(ls, messages[k]));
    }
}

/// A transfer has failed exactly where the answer says that something was denied,
/// missing or impossible.
pub proof fn law_transfer_fails_where_the_answer_says_so(ls: Seq<Seq<char>>)
    ensures
        parse::shows_any(ls, sftp::transfer_errors()) <==> {
            ||| some_line_says(ls, "permission denied"@)
            ||| some_line_says(ls, "no such file"@)
            ||| some_line_says(ls, "couldn't"@)
        },
{
    let m = sftp::transfer_errors();
    lemma_shown(ls, m, 0);
    lemma_shown(ls, m, 1);
    lemma_shown(ls, m, 2);
    lemma_not_shown(ls, m);
}

/// A deletion has failed exactly where the answer says so, in the words of `sftp` or
/// of `rm`.
pub proof fn law_deletion_fails_where_the_answer_says_so(ls: Seq<Seq<char>>)
    ensures
        parse::shows_any(ls, sftp::sftp_delete_errors()) <==> {
            ||| some_line_says(ls, "failure"@)
            ||| some_line_says(ls, "couldn't"@)
            ||| some_line_says(ls, "not empty"@)
            ||| some_line_says(ls, "permission denied"@)
        },
        parse::shows_any(ls, ssh::shell_delete_errors()) <==> {
            ||| some_line_says(ls, "cannot remove"@)
            ||| some_line_says(ls, "no such file"@)
            ||| some_line_says(ls, "permission denied"@)
            ||| some_line_says(ls, "not empty"@)
            ||| some_line_says(ls, "directory not empty"@)
        },
{
    let m = sftp::sftp_delete_errors();
    lemma_shown(ls, m, 0);
    lemma_shown(ls, m, 1);
    lemma_shown(ls, m, 2);
    lemma_shown(ls, m, 3);
    lemma_not_shown(ls, m);
    let n = ssh::shell_delete_errors();
    lemma_shown(ls, n, 0);
    lemma_shown(ls, n, 1);
    lemma_shown(ls, n, 2);
    lemma_shown(ls, n, 3);
    lemma_shown(ls, n, 4);
    lemma_not_shown(ls, n);
}

// ---------------------------------------------------------------------------
// Answers
// ---------------------------------------------------------------------------

/// A transfer that ended well says which way and what it was, and is counted; the
/// local directory is read again. A failed one says that, and nothing waits then.
pub proof fn law_ended_transfer_says_what_it_was(c: CoreView, failed: bool)
    requires
        c.transfer.last is Some,
        c.transfer.batch_done < usize::MAX,
    ensures
        ({
            let e = c.transfer_ended(failed);
            let t = c.transfer.last->0;
            &&& e.transfer.last is Some && e.transfer.last->0.done && e.transfer.last->0.progress
                == 100
            &&& e.transfer.current is None
            &&& e.transfer.batch_done == c.transfer.batch_done + 1
            &&& e.reload_local
            &&& failed ==> e.transfer.pending.len() == 0 && e.status_color == Color::Red
            &&& !failed ==> e.transfer.pending == c.transfer.pending && e.status_color
                == Color::Green
            &&& text::has_suffix(e.status_msg, t.filename)
            &&& failed ==> e.status_msg[0] == 'T'
            &&& !failed && t.direction is Download ==> e.status_msg[0] == 'D'
            &&& !failed && t.direction is Upload ==> e.status_msg[0] == 'U'
            &&& e.local == c.local && e.remote == c.remote && e.delete == c.delete
        }),
{
    reveal_strlit("Transfer failed");
    reveal_strlit("Downloaded");
    reveal_strlit("Uploaded");
    let e = c.transfer_ended(failed);
    let t = c.transfer.last->0;
    let m = e.status_msg;
    assert(m.subrange(m.len() - t.filename.len(), m.len() as int) =~= t.filename);
}

/// After a transfer that ended well the next one that waits begins at once, and in
/// the same direction. After the last one the directory is listed again.
pub proof fn law_next_transfer_follows(s: SftpView, now: u64)
    requires
        s.state is Transferring,
        !s.sftp.exited,
        s.watched(now).core.prompt_ready(),
        !parse::shows_any(s.sftp.lines(), sftp::transfer_errors()),
    ensures
        ({
            let n = s.ticked(now);
            let q = s.core.transfer.pending;
            &&& q.len() > 0 ==> n.state is Transferring && n.core.transfer.current == Some(q[0])
                && n.core.transfer.pending == q.skip(1) && n.core.last_direction()
                == s.core.pending_direction()
            &&& q.len() == 0 ==> n.state is WaitingLs && n.core.transfer.current is None
            &&& command_laws::one_more(s.sftp.outbox, n.sftp.outbox)
        }),
{
    reveal(SftpView::ticked);
    let n = s.ticked(now);
    assert(n.sftp.outbox.drop_last() =~= s.sftp.outbox);
}

/// After a deletion that ended well the next one that was confirmed follows: one
/// command for it, and the rest waits on. After the last one the directory is listed
/// again.
pub proof fn law_next_deletion_follows(s: SftpView, now: u64)
    requires
        s.state is WaitingDelete,
        !s.sftp.exited,
        !sftp::timed_out(s.core.cmd_start, now),
        s.watched(now).core.prompt_ready(),
        !parse::shows_any(s.sftp.lines(), sftp::sftp_delete_errors()),
        s.core.delete.pending_name is Some,
        s.core.delete.confirm is None,
        s.core.delete.pending.len() > 0 ==> s.core.delete.pending[0].location
            == DeleteLocation::Remote,
    ensures
        ({
            let n = s.ticked(now);
            let q = s.core.delete.pending;
            &&& q.len() > 0 ==> {
                &&& n.state is WaitingDelete
                &&& n.core.delete.pending == q.skip(1)
                &&& n.core.delete.pending_name == Some(q[0].path)
                &&& command_laws::one_more(s.sftp.outbox, n.sftp.outbox)
                &&& command_laws::is_command(
                    n.sftp.outbox.last(),
                    seq![
                        if q[0].kind is Dir {
                            "rmdir"@
                        } else {
                            "rm"@
                        },
                        q[0].path,
                    ],
                )
            }
            &&& q.len() == 0 ==> n.state is WaitingLs && text::has_suffix(
                n.core.status_msg,
                s.core.delete.pending_name->0,
            ) && n.core.status_color == Color::Green
        }),
{
    reveal(SftpView::ticked);
    let w = s.watched(now);
    let n = s.ticked(now);
    let q = s.core.delete.pending;
    assert(n == w.tick_deleted(now));
    let a = SftpView {
        core: w.core.delete_answered(false),
        sftp: w.sftp.drained(),
        ..w
    };
    if q.len() > 0 {
        let b = SftpView { core: a.core.next_delete_taken(), ..a };
        command_laws::law_sftp_deletes_what_the_question_named(b);
        assert(n.sftp == b.delete_confirmed().sftp);
    } else {
        let name = s.core.delete.pending_name->0;
        let m = n.core.status_msg;
        assert(m == "Deleted remote: "@ + name);
        assert(m.subrange(m.len() - name.len(), m.len() as int) =~= name);
    }
}

/// A listing replaces what the panel shows. The cursor stays in its row, or goes to
/// the last one where the listing is shorter.
pub proof fn law_cursor_stays_in_its_row(p: PanelView, listing: Seq<EntryView>, i: usize)
    requires
        p.sel.selected == Some(i),
        0 < listing.len() <= usize::MAX,
    ensures
        sftp::panel_listed(p, listing).entries == listing,
        sftp::panel_listed(p, listing).path == p.path,
        i < listing.len() ==> sftp::panel_listed(p, listing).sel.selected == Some(i),
        i >= listing.len() ==> sftp::panel_listed(p, listing).sel.selected == Some(
            (listing.len() - 1) as usize,
        ),
{
}

/// What `scp` was asked to do is under way once it runs, and is asked for no more.
pub proof fn law_running_scp_is_the_one_asked_for(s: SshView, now: u64)
    requires
        s.request is Some,
    ensures
        ({
            let n = s.scp_running(now);
            &&& n.state is Transferring
            &&& n.request is None
            &&& n.scp is Some && n.scp->0.outbox.len() == 0 && !n.scp->0.exited
            &&& n.core.transfer.last is Some
            &&& n.core.transfer.last->0.filename == s.request->0.name
            &&& n.core.transfer.last->0.is_dir == s.request->0.is_dir
            &&& n.core.last_direction() == s.request->0.direction
            &&& n.prompts == 0 && !n.asking
            &&& n.ssh == s.ssh
        }),
{
}

/// Once `scp` has ended, the transfer is done: it says which way and what it was, the
/// directories of both sides are read again, and the password is still known.
pub proof fn law_ended_scp_is_done(s: SshView, now: u64)
    requires
        s.state is Transferring,
        !s.asking,
        s.scp is Some,
        s.scp->0.exited,
        ssh::password_prompts(s.scp->0.lines()) <= s.prompts,
        s.core.transfer.last is Some,
    ensures
        ({
            let n = s.ticked(now);
            let t = s.core.transfer.last->0;
            &&& n.state is WaitingLs
            &&& n.scp is None
            &&& n.core.reload_local
            &&& n.core.transfer.last is Some && n.core.transfer.last->0.done
            &&& n.core.transfer.pending == s.core.transfer.pending
            &&& n.saved == s.saved
            &&& command_laws::one_more(s.ssh.outbox, n.ssh.outbox)
            &&& command_laws::is_command(
                n.ssh.outbox.last(),
                seq!["ls"@, "-la"@, s.core.remote.path],
            )
            &&& text::has_suffix(n.core.status_msg, t.filename)
            &&& t.direction is Download ==> n.core.status_msg[0] == 'D'
            &&& t.direction is Upload ==> n.core.status_msg[0] == 'U'
        }),
{
    reveal(SshView::ticked);
    reveal_strlit("Downloaded");
    reveal_strlit("Uploaded");
    let n = s.ticked(now);
    let t = s.core.transfer.last->0;
    let m = n.core.status_msg;
    assert(m.subrange(m.len() - t.filename.len(), m.len() as int) =~= t.filename);
    assert(n.ssh.outbox.drop_last() =~= s.ssh.outbox);
    command_laws::law_ls_is_read_back(s.core.remote.path);
}

/// The files that a directory transfer has come to are the lines that name one.
pub proof fn law_files_of_a_directory_are_counted(ls: Seq<Seq<char>>, line: Seq<char>)
    ensures
        sftp::files_named(ls.push(line), ls.len() as int + 1) == sftp::files_named(
            ls,
            ls.len() as int,
        ) + (if text::has_part(line, "Fetching "@) || text::has_part(line, "Uploading "@) {
            1nat
        } else {
            0
        }),
        sftp::files_named(ls, 0) == 0,
{
    lemma_files_before(ls, line, ls.len() as int);
    assert(ls.push(line)[ls.len() as int] == line);
}

proof fn lemma_files_before(ls: Seq<Seq<char>>, line: Seq<char>, n: int)
    requires
        0 <= n <= ls.len(),
    ensures
        sftp::files_named(ls.push(line), n) == sftp::files_named(ls, n),
    decreases n,
{
    if n > 0 {
        lemma_files_before(ls, line, n - 1);
        assert(ls.push(line)[n - 1] == ls[n - 1]);
    }
}

// ---------------------------------------------------------------------------
// What is shown of the work
// ---------------------------------------------------------------------------

/// The progress is shown in per cent, or as the number of files of a directory, and
/// not at all once the transfer is done.
pub proof fn law_progress_is_shown(s: SftpView, t: SshView, d: Seq<char>)
    requires
        s.core.transfer.last is Some,
        t.core.transfer == s.core.transfer,
        d == s.progress_text(),
    ensures
        ({
            let l = s.core.transfer.last->0;
            &&& l.done ==> d.len() == 0 && t.progress_text().len() == 0
            &&& !l.done && !l.is_dir ==> d.len() > 2 && d.last() == '%' && text::number_of(
                d.subrange(1, d.len() - 1),
                255,
            ) == Some(l.progress as nat) && t.progress_text() == d
            &&& !l.done && l.is_dir ==> d.len() > 9 && text::number_of(
                d.subrange(2, d.len() - 7),
                usize::MAX as nat,
            ) == Some(l.file_count as nat)
        }),
{
    reveal_strlit(" ");
    reveal_strlit("%");
    reveal_strlit(" (");
    reveal_strlit(" files)");
    let l = s.core.transfer.last->0;
    text::law_decimal_reads_back(l.progress as nat, 255);
    text::law_decimal_reads_back(l.file_count as nat, usize::MAX as nat);
    text::lemma_decimal(l.progress as nat);
    text::lemma_decimal(l.file_count as nat);
    if !l.done {
        if l.is_dir {
            assert(d.subrange(2, d.len() - 7) =~= text::decimal(l.file_count as nat));
        } else {
            assert(d.subrange(1, d.len() - 1) =~= text::decimal(l.progress as nat));
        }
    }
}

/// The label says whether the browser is idle, and that only an idle browser is;
/// transfers and deletions have labels of their own.
pub proof fn law_labels_tell_the_work(s: SftpView, t: SshView)
    ensures
        s.label().0 == seq!['i', 'd', 'l', 'e'] <==> s.state is Idle,
        s.label().0 == seq!['t', 'r', 'a', 'n', 's', 'f', 'e', 'r'] <==> s.state is Transferring,
        s.label().0 == seq!['d', 'e', 'l', 'e', 't', 'i', 'n', 'g'] <==> s.state is WaitingDelete,
        s.state is Idle ==> s.label().1 == s.core.status_color,
        t.label().0 == seq!['i', 'd', 'l', 'e'] <==> t.state is Idle,
        t.label().0 == seq!['t', 'r', 'a', 'n', 's', 'f', 'e', 'r'] <==> t.state is Transferring,
        t.label().0 == seq!['d', 'e', 'l', 'e', 't', 'i', 'n', 'g'] <==> t.state is WaitingDelete,
        t.state is Idle ==> t.label().1 == t.core.status_color,
        s.state is Connecting <==> s.label().0 == "connecting"@,
        t.state is Connecting || t.state is SettingPrompt <==> t.label().0 == "connecting"@,
{
    reveal_strlit("idle");
    reveal_strlit("transfer");
    reveal_strlit("deleting");
    reveal_strlit("loading");
    reveal_strlit("connecting");
    assert("idle"@ =~= seq!['i', 'd', 'l', 'e']);
    assert("transfer"@ =~= seq!['t', 'r', 'a', 'n', 's', 'f', 'e', 'r']);
    assert("deleting"@ =~= seq!['d', 'e', 'l', 'e', 't', 'i', 'n', 'g']);
    assert("loading"@.len() == 7);
    assert("connecting"@.len() == 10);
}

// ---------------------------------------------------------------------------
// Links
// ---------------------------------------------------------------------------

/// A link leads to a file where its listing is the file itself, is broken where it is
/// the link itself, and leads to a directory where it is anything else.
pub proof fn law_listing_tells_where_a_link_leads(e: EntryView, f: EntryView, link: Seq<char>)
    ensures
        e.name == link && e.is_link ==> sftp::probe_in(seq![parse::parent_entry(), e], link)
            is Broken,
        e.name == link && !e.is_link && !e.is_dir ==> sftp::probe_in(
            seq![parse::parent_entry(), e],
            link,
        ) is File,
        e.name == link && !e.is_link && e.is_dir ==> sftp::probe_in(
            seq![parse::parent_entry(), e],
            link,
        ) is Dir,
        e.name != link ==> sftp::probe_in(seq![parse::parent_entry(), e], link) is Dir,
        sftp::probe_in(seq![parse::parent_entry()], link) is Dir,
        sftp::probe_in(seq![parse::parent_entry(), e, f], link) is Dir,
{
}

/// Where a link that was entered turns out to be no directory, the panel is back in the
/// directory that the link lies in, and that is listed again. A link to a file is
/// queued for download.
pub proof fn law_entered_link_is_resolved(s: SftpView, now: u64, dir: Seq<char>, link: Seq<char>)
    requires
        s.state is WaitingLs,
        !s.sftp.exited,
        !sftp::timed_out(s.core.cmd_start, now),
        s.watched(now).core.prompt_ready(),
        s.core.link_probe == Some(link),
        dir.len() > 0,
        !link.contains('/'),
        s.core.remote.path == dir.push('/') + link,
    ensures
        ({
            let listing = parse::listing_of(parse::entries_in(s.sftp.lines()));
            let probe = sftp::probe_in(listing, link);
            let n = s.ticked(now);
            &&& n.core.link_probe is None
            &&& !(probe is Dir) ==> {
                &&& n.state is WaitingLs
                &&& n.core.remote.path == dir
                &&& command_laws::one_more(s.sftp.outbox, n.sftp.outbox)
                &&& command_laws::is_command(n.sftp.outbox.last(), seq!["ls"@, "-la"@, dir])
            }
            &&& probe is File ==> n.core.transfer.pending.last().name == link
                && n.core.transfer.pending.len() == s.core.transfer.pending.len() + 1
                && command_laws::lies_in(dir, link, n.core.transfer.pending.last().path)
            &&& probe is Broken ==> n.core.transfer.pending == s.core.transfer.pending
            &&& probe is Dir ==> n.core.remote.path == s.core.remote.path
        }),
{
    reveal(SftpView::ticked);
    let w = s.watched(now);
    let n = s.ticked(now);
    let listing = parse::listing_of(parse::entries_in(s.sftp.lines()));
    let probe = sftp::probe_in(listing, link);
    let c = CoreView { link_probe: None, ..w.core };
    place_laws::law_links_lead_where_they_point(c, dir, link);
    command_laws::law_ls_is_read_back(dir);
    if !(probe is Dir) {
        let p = c.link_probed(link, probe);
        assert(n == (SftpView { core: p, sftp: w.sftp.drained(), ..w }).listing_asked(now));
        assert(n.sftp.outbox.drop_last() =~= s.sftp.outbox);
    }
}

// ---------------------------------------------------------------------------
// Work under way
// ---------------------------------------------------------------------------

/// While a transfer runs, its progress is what the output says: the percentage of a
/// file, or the number of files of a directory. What was not said stays, and nothing is
/// sent.
pub proof fn law_progress_is_noted(s: SftpView, t: SshView)
    requires
        s.core.transfer.last is Some,
        t.core.transfer.last == s.core.transfer.last,
    ensures
        ({
            let l = s.core.transfer.last->0;
            let n = s.tick_progress();
            let m = n.core.transfer.last->0;
            let ls = s.sftp.lines();
            &&& n.core.transfer.last is Some
            &&& n.sftp.outbox == s.sftp.outbox && n.state == s.state
            &&& m.filename == l.filename && m.direction == l.direction && m.done == l.done
            &&& !l.is_dir && parse::progress_value(ls) is Some ==> m.progress
                == parse::progress_value(ls)->0 as u8
            &&& !l.is_dir && parse::progress_value(ls) is None ==> m.progress == l.progress
            &&& l.is_dir ==> m.file_count == sftp::files_named(ls, ls.len() as int) as usize
                || sftp::files_named(ls, ls.len() as int) == l.file_count
            &&& s.sftp.raw.len() <= 16384 ==> n.sftp.raw == s.sftp.raw
            &&& !l.is_dir && s.sftp.raw.len() > 16384 ==> n.sftp.raw == s.sftp.raw.skip(
                s.sftp.raw.len() - 1024,
            )
            &&& forall|p: nat|
                p <= 100 ==> (#[trigger] t.core.progressed(Some(p))).transfer.last->0.progress == p
            &&& t.core.progressed(None) == t.core
        }),
{
}

/// A listing that has arrived is shown, stops the clock, and what was said stays.
pub proof fn law_listing_stops_the_clock(c: CoreView, listing: Seq<EntryView>, now: u64, start: u64)
    requires
        c.cmd_start == Some(start),
        start <= now,
    ensures
        c.listed(listing, now).remote.entries == listing,
        c.listed(listing, now).remote.path == c.remote.path,
        c.listed(listing, now).cmd_start is None,
        c.listed(listing, now).last_duration == Some((now - start) as u64),
        c.listed(listing, now).status_msg == c.status_msg,
        c.listed(listing, now).raw_snapshot.len() == 0,
        c.listed(listing, now).local == c.local,
        c.listed(listing, now).transfer == c.transfer,
        c.listed(listing, now).delete == c.delete,
{
}

/// While a connection is being made, the output of the program is shown.
pub proof fn law_output_is_shown_while_connecting(s: SftpView, t: SshView, now: u64)
    ensures
        s.state is Connecting ==> s.watched(now).core.raw_snapshot == s.sftp.lines(),
        !(s.state is Connecting) ==> s.watched(now).core.raw_snapshot == s.core.raw_snapshot,
        t.state is Connecting || t.state is SettingPrompt ==> t.watched().core.raw_snapshot
            == t.ssh.lines(),
        s.watched(now).sftp == s.sftp,
        t.watched().ssh == t.ssh,
{
}

/// The shell repeats the command before it answers: that line is no answer.
pub proof fn law_echo_is_no_answer(echo: Seq<char>, ls: Seq<Seq<char>>)
    requires
        ls.len() > 0,
    ensures
        ssh::without_echo(seq![echo] + ls) == ls,
        ssh::without_echo(seq![echo]) == seq![echo],
{
    assert((seq![echo] + ls).skip(1) =~= ls);
}

/// The messages say what is done, and where or with what.
pub proof fn law_messages_name_what_is_done(c: CoreView, path: Seq<char>, s: SftpView, now: u64)
    requires
        c.delete.confirm is Some,
    ensures
        text::has_suffix(c.remote_going(path).status_msg, path),
        c.remote_going(path).remote.path == path,
        text::has_suffix(c.local_moved(path).status_msg, path),
        text::has_suffix(s.tick_connecting(now).core.status_msg, s.core.host),
        exists|k: int|
            0 <= k && k + c.delete.confirm->0.path.len() <= c.deleting().status_msg.len()
                && #[trigger] c.deleting().status_msg.subrange(
                k,
                k + c.delete.confirm->0.path.len(),
            ) == c.delete.confirm->0.path,
        c.deleting().delete.pending_name == Some(c.delete.confirm->0.path),
        c.deleting().delete.confirm is None,
{
    let a = c.remote_going(path).status_msg;
    assert(a.subrange(a.len() - path.len(), a.len() as int) =~= path);
    let b = c.local_moved(path).status_msg;
    assert(b.subrange(b.len() - path.len(), b.len() as int) =~= path);
    let d = s.tick_connecting(now).core.status_msg;
    assert(d.subrange(d.len() - s.core.host.len(), d.len() as int) =~= s.core.host);
    let p = c.delete.confirm->0.path;
    let e = c.deleting().status_msg;
    let k = "Deleting "@.len() as int;
    assert(e.subrange(k, k + p.len()) =~= p);
}

/// Of several local files that were confirmed together, the next one is removed right
/// after the one before it; after a failure none is.
pub proof fn law_next_local_removal_follows(s: SftpView, t: SshView, error: Option<Seq<char>>)
    requires
        s.core.confirms_local(),
        t.core == s.core,
        s.core.delete.pending.len() > 0,
        s.core.delete.pending[0].location == DeleteLocation::Local,
    ensures
        error is None ==> s.local_removed(error).core.delete.confirm == Some(
            s.core.delete.pending[0],
        ) && s.local_removed(error).core.delete.removing && s.local_removed(error).sftp == s.sftp,
        error is None ==> t.local_removed(error).core.delete.confirm == Some(
            s.core.delete.pending[0],
        ) && t.local_removed(error).core.delete.removing && t.local_removed(error).ssh == t.ssh,
        error is Some ==> s.local_removed(error).core.delete.confirm is None
            && !s.local_removed(error).core.delete.removing,
        error is Some ==> t.local_removed(error).core.delete.confirm is None
            && !t.local_removed(error).core.delete.removing,
{
}

/// A prompt counts once it has stood at the end of the same output for two looks behind
/// the first, and not before.
pub proof fn law_prompt_must_stand_for_two_looks(c: CoreView, len: usize)
    requires
        c.prev_raw_len != len,
    ensures
        ({
            let first = c.watched(len, true);
            let second = first.watched(len, true);
            let third = second.watched(len, true);
            &&& !first.prompt_ready()
            &&& !second.prompt_ready()
            &&& third.prompt_ready()
            &&& !second.watched(len, false).prompt_ready()
        }),
{
}

/// The shell is told to use the prompt by which it is recognised, with a blank behind
/// it.
pub proof fn law_own_prompt_is_the_recognised_one()
    ensures
        ({
            let c = ssh::prompt_command();
            &&& c.take(5) == seq!['P', 'S', '1', '=', '\'']
            &&& c.subrange(5, 13) == seq!['S', 'S', 'H', 'M', 'U', 'X', '>', ' ']
            &&& c[13] == '\''
            &&& c.skip(c.len() - 2) == seq!['\r', '\n']
        }),
{
    reveal_strlit("PS1='SSHMUX> '; PS2=''; unset PROMPT_COMMAND 2>/dev/null\r\n");
    let c = ssh::prompt_command();
    assert(c.take(5) =~= seq!['P', 'S', '1', '=', '\'']);
    assert(c.subrange(5, 13) =~= seq!['S', 'S', 'H', 'M', 'U', 'X', '>', ' ']);
    assert(c.skip(c.len() - 2) =~= seq!['\r', '\n']);
}

/// What went wrong is said in red: an `scp` that could not be started with its error, a
/// password that was wrong, and a command that took too long. A question for a password
/// is no failure.
pub proof fn law_trouble_is_said_in_red(s: SshView, error: Seq<char>, msg: Seq<char>)
    ensures
        s.request is Some ==> text::has_suffix(s.scp_refused(error).core.status_msg, error)
            && s.scp_refused(error).core.status_color == Color::Red,
        s.password_rejected().core.status_color == Color::Red,
        s.password_rejected().asking && s.password_rejected().saved is None
            && s.password_rejected().typed.len() == 0,
        s.core.gave_up().status_color == Color::Red,
        s.core.gave_up().cmd_start is None,
        s.password_asked(msg).core.status_color != Color::Red,
        s.password_asked(msg).core.status_msg == msg,
        s.password_asked(msg).asking && s.password_asked(msg).saved == s.saved,
{
    let m = s.scp_refused(error).core.status_msg;
    if s.request is Some {
        assert(m.subrange(m.len() - error.len(), m.len() as int) =~= error);
    }
}

/// Once the password was given, the message says again which way the transfer goes.
pub proof fn law_transfer_goes_on_after_the_password(c: CoreView)
    requires
        c.transfer.last is Some,
    ensures
        c.transfer.last->0.direction is Download ==> c.resumed().status_msg[0] == 'D',
        c.transfer.last->0.direction is Upload ==> c.resumed().status_msg[0] == 'U',
        c.resumed().transfer == c.transfer,
        c.resumed().local == c.local && c.resumed().remote == c.remote,
{
    reveal_strlit("Downloading");
    reveal_strlit("Uploading");
}

/// A new browser has the keyboard in the local panel, with the way up under the cursor,
/// nothing selected and nothing to do.
pub proof fn law_new_browser_is_empty(host: Seq<char>, start: Seq<char>)
    ensures
        ({
            let c = CoreView::opened(host, start);
            &&& c.host == host && c.local.path == start
            &&& c.focus is Local
            &&& c.local.entries.len() == 1 && c.local.entries[0].name == ".."@
            &&& c.local.entries[0].is_dir
            &&& c.local.sel.selected == Some(0usize)
            &&& c.remote.entries.len() == 0
            &&& c.selected == Set::<usize>::empty() && c.select_anchor is None
            &&& c.chosen().len() == 0
            &&& c.transfer.pending.len() == 0 && c.transfer.last is None
            &&& c.delete.confirm is None && c.delete.pending.len() == 0 && !c.delete.removing
            &&& c.drop_confirm is None && c.drag is None && c.drive_picker is None
            &&& c.paste_buf.len() == 0
            &&& c.exit_selection == 0
            &&& !c.prompt_ready()
        }),
{
}

} // verus!
