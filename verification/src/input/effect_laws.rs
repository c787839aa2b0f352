//! What keys, the mouse and pasted text set in motion.
use vstd::prelude::*;
use crate::app::AppView;
use crate::binding_laws;
use crate::browser::command_laws;
use crate::browser::common::{BrowserFocus, CoreView, DeleteLocation, TransferDirection};
use crate::browser::panel_laws;
use crate::browser::sftp::SftpView;
use crate::browser::ssh::SshView;
use crate::connect;
use crate::connect::{ConnectPaneView, EditorView, InputView, OverlayView};
use crate::event::{KeyCode, MouseButton, MouseEventKind};
use crate::geometry::Rect;
use crate::input;
use crate::keybindings::{BrowserBindings, KeyBinding};
use crate::pane::PaneView;
use crate::text;

verus! {

// ---------------------------------------------------------------------------
// Transfers
// ---------------------------------------------------------------------------

/// Whether one command was sent that gets `name` from the directory of the remote
/// panel into the directory of the local one.
pub open spec fn sends_get(s: SftpView, n: SftpView, name: Seq<char>, is_dir: bool) -> bool {
    &&& command_laws::one_more(s.sftp.outbox, n.sftp.outbox)
    &&& exists|from: Seq<char>, dir: Seq<char>| #[trigger]
        command_laws::lies_in(s.core.remote.path, name, from) && #[trigger]
        command_laws::slashes_turned(s.core.local.path, dir) && command_laws::is_command(
            n.sftp.outbox.last(),
            command_laws::transfer_words("get"@, is_dir, from, dir.push('/')),
        )
}

/// Whether one command was sent that puts `name` from the directory of the local panel
/// into the directory of the remote one.
pub open spec fn sends_put(s: SftpView, n: SftpView, name: Seq<char>, is_dir: bool) -> bool {
    &&& command_laws::one_more(s.sftp.outbox, n.sftp.outbox)
    &&& exists|from: Seq<char>, to: Seq<char>| #[trigger]
        command_laws::is_turned_child(s.core.local.path, name, from) && #[trigger]
        command_laws::closes_directory(s.core.remote.path, to) && command_laws::is_command(
            n.sftp.outbox.last(),
            command_laws::transfer_words("put"@, is_dir, from, to),
        )
}

/// Whether an `scp` is asked for that copies `name` from the directory of the remote
/// panel into the directory of the local one.
pub open spec fn asks_for_copy_here(s: SshView, n: SshView, name: Seq<char>, is_dir: bool) -> bool {
    &&& n.request is Some
    &&& command_laws::options_before(n.request->0.args, is_dir)
    &&& command_laws::slashes_turned(s.core.local.path, n.request->0.args.last())
    &&& exists|from: Seq<char>| #[trigger]
        command_laws::lies_in(s.core.remote.path, name, from) && command_laws::on_host(
            s.core.host,
            from,
            n.request->0.args[n.request->0.args.len() - 2],
        )
}

/// Whether an `scp` is asked for that copies `name` from the directory of the local
/// panel into the directory of the remote one.
pub open spec fn asks_for_copy_there(s: SshView, n: SshView, name: Seq<char>, is_dir: bool) -> bool {
    &&& n.request is Some
    &&& command_laws::options_before(n.request->0.args, is_dir)
    &&& command_laws::is_turned_child(
        s.core.local.path,
        name,
        n.request->0.args[n.request->0.args.len() - 2],
    )
    &&& exists|dir: Seq<char>| #[trigger]
        command_laws::closes_directory(s.core.remote.path, dir.push('/')) && command_laws::on_host(
            s.core.host,
            dir,
            n.request->0.args.last(),
        )
}

proof fn lemma_get(s: SftpView, c: CoreView, now: u64, i: int)
    requires
        s.state is Idle,
        c.remote == s.core.remote,
        c.local == s.core.local,
        c.transfer.pending.len() == 0,
        command_laws::row_to_take(s.core.remote) == Some(i),
    ensures
        ({
            let e = s.core.remote.entries[i];
            sends_get(
                s,
                (SftpView { core: c, ..s }).transfer_asked(TransferDirection::Download, now),
                e.name,
                e.is_dir,
            )
        }),
{
    let t = SftpView { core: c, ..s };
    command_laws::law_download_takes_what_is_under_the_cursor(c);
    command_laws::law_sftp_download_goes_where_the_panel_is(t, now);
    let p = c.source(TransferDirection::Download)->0;
    let n = t.transfer_asked(TransferDirection::Download, now);
    let dir = choose|dir: Seq<char>| #[trigger]
        command_laws::slashes_turned(c.local.path, dir) && command_laws::is_command(
            n.sftp.outbox.last(),
            command_laws::transfer_words("get"@, p.is_dir, p.path, dir.push('/')),
        );
    assert(command_laws::lies_in(s.core.remote.path, p.name, p.path));
    assert(command_laws::slashes_turned(s.core.local.path, dir));
}

proof fn lemma_put(s: SftpView, c: CoreView, now: u64, i: int)
    requires
        s.state is Idle,
        c.remote == s.core.remote,
        c.local == s.core.local,
        c.transfer.pending.len() == 0,
        command_laws::row_to_take(s.core.local) == Some(i),
        s.core.local.entries[i].name.len() == 0 || s.core.local.entries[i].name[0] != '/',
    ensures
        ({
            let e = s.core.local.entries[i];
            sends_put(
                s,
                (SftpView { core: c, ..s }).transfer_asked(TransferDirection::Upload, now),
                e.name,
                e.is_dir,
            )
        }),
{
    let t = SftpView { core: c, ..s };
    command_laws::law_upload_takes_what_is_under_the_cursor(c);
    command_laws::law_sftp_upload_goes_where_the_panel_is(t, now);
    let p = c.source(TransferDirection::Upload)->0;
    let n = t.transfer_asked(TransferDirection::Upload, now);
    let to = choose|to: Seq<char>| #[trigger]
        command_laws::closes_directory(c.remote.path, to) && command_laws::is_command(
            n.sftp.outbox.last(),
            command_laws::transfer_words("put"@, p.is_dir, p.path, to),
        );
    assert(command_laws::is_turned_child(s.core.local.path, p.name, p.path));
    assert(command_laws::closes_directory(s.core.remote.path, to));
}

proof fn lemma_copy_here(s: SshView, c: CoreView, i: int)
    requires
        s.free(),
        c.remote == s.core.remote,
        c.local == s.core.local,
        c.host == s.core.host,
        c.transfer.pending.len() == 0,
        command_laws::row_to_take(s.core.remote) == Some(i),
    ensures
        ({
            let e = s.core.remote.entries[i];
            asks_for_copy_here(
                s,
                (SshView { core: c, ..s }).transfer_asked(TransferDirection::Download),
                e.name,
                e.is_dir,
            )
        }),
{
    let t = SshView { core: c, ..s };
    command_laws::law_download_takes_what_is_under_the_cursor(c);
    command_laws::law_scp_download_copies_from_the_host(t);
    let p = c.source(TransferDirection::Download)->0;
    assert(command_laws::lies_in(s.core.remote.path, p.name, p.path));
}

proof fn lemma_copy_there(s: SshView, c: CoreView, i: int)
    requires
        s.free(),
        c.remote == s.core.remote,
        c.local == s.core.local,
        c.host == s.core.host,
        c.transfer.pending.len() == 0,
        command_laws::row_to_take(s.core.local) == Some(i),
        s.core.local.entries[i].name.len() == 0 || s.core.local.entries[i].name[0] != '/',
    ensures
        ({
            let e = s.core.local.entries[i];
            asks_for_copy_there(
                s,
                (SshView { core: c, ..s }).transfer_asked(TransferDirection::Upload),
                e.name,
                e.is_dir,
            )
        }),
{
    let t = SshView { core: c, ..s };
    command_laws::law_upload_takes_what_is_under_the_cursor(c);
    command_laws::law_scp_upload_copies_to_the_host(t);
    let p = c.source(TransferDirection::Upload)->0;
    let n = t.transfer_asked(TransferDirection::Upload);
    let dir = choose|dir: Seq<char>| #[trigger]
        command_laws::closes_directory(c.remote.path, dir.push('/')) && command_laws::on_host(
            c.host,
            dir,
            n.request->0.args.last(),
        );
    assert(command_laws::closes_directory(s.core.remote.path, dir.push('/')));
}

/// Whether a browser waits for nothing from the user: no question is open, and no text
/// is being pasted.
pub open spec fn takes_keys(c: CoreView) -> bool {
    &&& c.drop_confirm is None
    &&& c.paste_buf.len() == 0
    &&& c.delete.confirm is None
}

/// The key for transfers takes what is under the cursor across: from the remote panel
/// it is downloaded into the directory of the local panel, and from the local panel it
/// is uploaded into the directory of the remote one.
pub proof fn law_transfer_key_takes_the_file_across(
    s: SftpView,
    t: SshView,
    code: KeyCode,
    shift: bool,
    b: BrowserBindings,
    now: u64,
    dirs: Seq<bool>,
    i: int,
)
    requires
        t.core == s.core,
        s.state is Idle,
        t.free(),
        !t.asking,
        takes_keys(s.core),
        s.core.transfer.pending.len() == 0,
        s.core.chosen().len() <= 1,
        panel_laws::at_most_key(b, 7, code, false, false, shift),
        b.transfer.fits(code, false, false, shift),
        command_laws::row_to_take(s.core.focused_panel()) == Some(i),
        s.core.focus is Local ==> s.core.local.entries[i].name.len() == 0
            || s.core.local.entries[i].name[0] != '/',
    ensures
        ({
            let e = s.core.focused_panel().entries[i];
            let n = s.pressed(code, false, false, shift, b, now, dirs);
            let m = t.pressed(code, false, false, shift, b, now, dirs);
            &&& s.core.focus is Remote ==> sends_get(s, n, e.name, e.is_dir)
            &&& s.core.focus is Local ==> sends_put(s, n, e.name, e.is_dir)
            &&& s.core.focus is Remote ==> asks_for_copy_here(t, m, e.name, e.is_dir)
            &&& s.core.focus is Local ==> asks_for_copy_there(t, m, e.name, e.is_dir)
        }),
{
    reveal(SftpView::pressed);
    reveal(SshView::pressed);
    panel_laws::law_keys_ask_for_what_they_say(s.core, code, false, false, shift, b, now);
    match s.core.focus {
        BrowserFocus::Remote => {
            lemma_get(s, s.core, now, i);
            lemma_copy_here(t, t.core, i);
        },
        BrowserFocus::Local => {
            lemma_put(s, s.core, now, i);
            lemma_copy_there(t, t.core, i);
        },
    }
}

/// What is dragged over the other panel and let go there is taken across in the same
/// way.
pub proof fn law_drag_takes_the_file_across(
    s: SftpView,
    t: SshView,
    col: u16,
    row: u16,
    area: Rect,
    count: usize,
    now: u64,
    i: int,
)
    requires
        t.core == s.core,
        s.state is Idle,
        t.free(),
        s.core.drop_confirm is None,
        s.core.transfer.pending.len() == 0,
        s.core.chosen().len() <= 1,
        command_laws::row_to_take(s.core.focused_panel()) == Some(i),
        s.core.focus is Local ==> s.core.local.entries[i].name.len() == 0
            || s.core.local.entries[i].name[0] != '/',
    ensures
        ({
            let e = s.core.focused_panel().entries[i];
            let up = MouseEventKind::Up(MouseButton::Left);
            let n = s.moused(up, col, row, area, count, now);
            let m = t.moused(up, col, row, area, count);
            let over_remote = crate::browser::common::mouse::over_remote(col, area, count);
            &&& s.core.focus is Remote && !over_remote ==> sends_get(s, n, e.name, e.is_dir)
            &&& s.core.focus is Local && over_remote ==> sends_put(s, n, e.name, e.is_dir)
            &&& s.core.focus is Remote && !over_remote ==> asks_for_copy_here(
                t,
                m,
                e.name,
                e.is_dir,
            )
            &&& s.core.focus is Local && over_remote ==> asks_for_copy_there(
                t,
                m,
                e.name,
                e.is_dir,
            )
            &&& (s.core.focus is Remote) == over_remote ==> n.sftp == s.sftp && m.request
                == t.request && m.ssh == t.ssh
        }),
{
    reveal(SftpView::moused);
    reveal(SshView::moused);
    let up = MouseEventKind::Up(MouseButton::Left);
    let c = s.core.moused(up, col, row, area, count);
    let d = CoreView { drag: None, ..s.core };
    assert(d.chosen() == s.core.chosen());
    match s.core.focus {
        BrowserFocus::Remote => {
            lemma_get(s, c, now, i);
            lemma_copy_here(t, c, i);
        },
        BrowserFocus::Local => {
            lemma_put(s, c, now, i);
            lemma_copy_there(t, c, i);
        },
    }
}

/// To answer a question with `y` deletes what it named: one command is sent for it. No
/// other key deletes it.
pub proof fn law_y_deletes_what_was_asked(
    s: SftpView,
    code: KeyCode,
    b: BrowserBindings,
    now: u64,
    dirs: Seq<bool>,
)
    requires
        s.state is Idle,
        s.core.drop_confirm is None,
        s.core.paste_buf.len() == 0,
        !s.core.delete.removing,
        s.core.delete.confirm is Some,
        s.core.delete.confirm->0.location == DeleteLocation::Remote,
    ensures
        ({
            let t = s.core.delete.confirm->0;
            let n = s.pressed(code, false, false, false, b, now, dirs);
            &&& code == KeyCode::Char('y') ==> command_laws::one_more(
                s.sftp.outbox,
                n.sftp.outbox,
            ) && command_laws::is_command(
                n.sftp.outbox.last(),
                seq![
                    if t.kind is Dir {
                        "rmdir"@
                    } else {
                        "rm"@
                    },
                    t.path,
                ],
            )
            &&& code != KeyCode::Char('y') ==> n.sftp == s.sftp
        }),
{
    reveal(SftpView::pressed);
    command_laws::law_sftp_deletes_what_the_question_named(s);
    panel_laws::law_only_y_says_yes(s.core, code, false, false, false, b, now, dirs);
}

/// While the browser asks for a password, keys are for the password; while it connects,
/// they are for the program. The panels are not touched then.
pub proof fn law_keys_go_to_who_waits(
    s: SftpView,
    t: SshView,
    code: KeyCode,
    ctrl: bool,
    alt: bool,
    shift: bool,
    b: BrowserBindings,
    now: u64,
    dirs: Seq<bool>,
)
    ensures
        s.state is Connecting ==> s.pressed(code, ctrl, alt, shift, b, now, dirs)
            == s.connect_keyed(code),
        t.asking ==> t.pressed(code, ctrl, alt, shift, b, now, dirs) == t.password_keyed(code),
        !t.asking && (t.state is Connecting || t.state is SettingPrompt) ==> t.pressed(
            code,
            ctrl,
            alt,
            shift,
            b,
            now,
            dirs,
        ) == t.connect_keyed(code),
        s.connect_keyed(code).core == s.core,
        t.connect_keyed(code).core == t.core,
        t.password_keyed(code).core.local == t.core.local,
        t.password_keyed(code).core.remote == t.core.remote,
{
    reveal(SftpView::pressed);
    reveal(SshView::pressed);
}

// ---------------------------------------------------------------------------
// Pasting
// ---------------------------------------------------------------------------

/// A text without control characters that is pasted while a password is asked for is
/// part of the password; otherwise it is taken for names of files.
pub proof fn law_paste_goes_to_the_password(t: SshView, s: Seq<char>, now: u64)
    requires
        forall|i: int| 0 <= i < s.len() ==> !text::is_control(#[trigger] s[i]),
        now <= u64::MAX - 50,
    ensures
        ({
            let p = input::leaf_pasted(PaneView::SshBrowser { browser: t }, s, now);
            let n = p->SshBrowser_browser;
            &&& p is SshBrowser
            &&& t.asking ==> n.typed == t.typed + s && n.core.paste_buf == t.core.paste_buf
            &&& !t.asking ==> n.typed == t.typed && n.core.paste_buf == t.core.paste_buf + s
                && n.core.paste_deadline == Some((now + 50) as u64)
            &&& n.ssh == t.ssh && n.scp == t.scp
        }),
{
    lemma_typed(t, s, s.len() as int);
    assert(s.take(s.len() as int) =~= s);
}

proof fn lemma_typed(t: SshView, s: Seq<char>, n: int)
    requires
        0 <= n <= s.len(),
        forall|i: int| 0 <= i < s.len() ==> !text::is_control(#[trigger] s[i]),
    ensures
        t.password_pasted(s, n).typed == t.typed + s.take(n),
        t.password_pasted(s, n).ssh == t.ssh,
        t.password_pasted(s, n).scp == t.scp,
        t.password_pasted(s, n).core.paste_buf == t.core.paste_buf,
    decreases n,
{
    if n > 0 {
        lemma_typed(t, s, n - 1);
        assert(t.typed + s.take(n) =~= (t.typed + s.take(n - 1)).push(s[n - 1]));
    } else {
        assert(t.typed + s.take(0) =~= t.typed);
    }
}

// ---------------------------------------------------------------------------
// The key editor
// ---------------------------------------------------------------------------

/// The enter key in a row of the key editor waits for a key. The next key, with what is
/// held with it, becomes the combination of that row and of no other; only the escape
/// key leaves it as it is.
pub proof fn law_captured_key_is_bound(
    a: AppView,
    c: ConnectPaneView,
    e: EditorView,
    code: KeyCode,
    ctrl: bool,
    alt: bool,
    shift: bool,
    i: usize,
)
    requires
        !e.editing,
        connect::binding_in_row(connect::cursor_row(e.list_state)) == Some(i),
        i < a.keybindings.rows().len(),
    ensures
        ({
            let (d, r) = c.editor_keyed(e, KeyCode::Enter, false, false, false);
            let f = d.overlay->KeyEditor_0;
            let (g, q) = d.editor_keyed(f, code, ctrl, alt, shift);
            let b = a.requested(q);
            let k = KeyBinding { code, ctrl, alt, shift };
            &&& r is Nothing
            &&& d.overlay is KeyEditor && f.editing && d.capturing()
            &&& g.overlay is KeyEditor && !g.capturing()
            &&& code is Esc ==> q is Nothing && b == a
            &&& !(code is Esc) ==> b.save_keybindings && b.keybindings.rows()
                == a.keybindings.rows().update(
                i as int,
                crate::keybindings::RowView { binding: k, ..a.keybindings.rows()[i as int] },
            )
        }),
{
    let k = KeyBinding { code, ctrl, alt, shift };
    binding_laws::law_setting_changes_one_row(a.keybindings, i, k);
}

/// The escape key closes an overlay of the list of hosts, and asks for nothing.
pub proof fn law_escape_closes_the_overlay(
    c: ConnectPaneView,
    ctrl: bool,
    alt: bool,
    shift: bool,
    b: crate::keybindings::ConnectBindings,
)
    requires
        !(c.overlay is Closed),
        !c.capturing(),
    ensures
        c.keyed(KeyCode::Esc, ctrl, alt, shift, b).0 == (ConnectPaneView {
            overlay: OverlayView::Closed,
            ..c
        }),
        c.keyed(KeyCode::Esc, ctrl, alt, shift, b).1 is Nothing,
{
}

/// Control characters in a pasted text are left out of a password and of the input
/// field.
pub proof fn law_control_characters_are_not_pasted(
    t: SshView,
    i: InputView,
    s: Seq<char>,
    n: int,
)
    requires
        0 < n <= s.len(),
        text::is_control(s[n - 1]),
    ensures
        t.password_pasted(s, n) == t.password_pasted(s, n - 1),
        i.with_pasted(s, n) == i.with_pasted(s, n - 1),
{
}

/// In the pane for choosing a host a text is pasted into the input field where it is
/// open, and nowhere else.
pub proof fn law_paste_needs_the_input_field(c: ConnectPaneView, s: Seq<char>, now: u64)
    ensures
        ({
            let p = input::leaf_pasted(PaneView::Connect(c), s, now);
            &&& p is Connect
            &&& !(c.overlay is ConnectInput) ==> p->Connect_0 == c
            &&& c.overlay is ConnectInput ==> p->Connect_0.list_state == c.list_state
                && p->Connect_0.overlay == OverlayView::ConnectInput(
                c.overlay->ConnectInput_0.with_pasted(s, s.len() as int),
            )
        }),
{
}

} // verus!
