//! What the panels, their selection and their queues do with what the user chose.
use vstd::prelude::*;
use crate::browser;
use crate::browser::command_laws;
use crate::browser::common::delete;
use crate::browser::common::mouse;
use crate::browser::common::navigation;
use crate::browser::common::selection;
use crate::browser::common::transfer;
use crate::browser::common::{
    BrowserFocus, CoreView, DeleteLocation, DragAction, PanelView, TransferDirection,
};
use crate::browser::parse::EntryView;
use crate::browser::path;
use crate::browser::place_laws;
use crate::browser::sftp::SftpView;
use crate::browser::ssh::SshView;
use crate::event::{KeyCode, MouseButton, MouseEventKind};
use crate::geometry::Rect;
use crate::keybindings::BrowserBindings;
use crate::list_state::ListState;
use crate::text;

verus! {

// ---------------------------------------------------------------------------
// The selection
// ---------------------------------------------------------------------------

/// Exactly the rows from the anchor to the cursor are selected, whichever of them
/// comes first, but never the row of the parent directory.
pub proof fn law_selection_lies_between(c: CoreView, anchor: usize, cursor: usize, i: usize)
    requires
        c.select_anchor == Some(anchor),
        c.focused_panel().sel.selected == Some(cursor),
    ensures
        c.range_selected().selected.contains(i) == {
            &&& i != 0
            &&& anchor <= i || cursor <= i
            &&& i <= anchor || i <= cursor
        },
        c.range_selected().select_anchor == c.select_anchor,
        c.range_selected().local == c.local,
        c.range_selected().remote == c.remote,
{
}

/// Moving the cursor with the shift key selects the row that it leaves and the row
/// that it comes to. Moving it back leaves the first of them selected, and moving it
/// without the shift key leaves nothing selected.
pub proof fn law_shift_selects_what_the_cursor_passes(c: CoreView, i: usize)
    requires
        c.drive_picker is None,
        c.select_anchor is None,
        c.focused_panel().sel.selected == Some(i),
        0 < i < usize::MAX,
    ensures
        ({
            let down = c.navigated(true, true);
            let back = down.navigated(false, true);
            let up = c.navigated(false, true);
            &&& down.select_anchor == Some(i)
            &&& down.focused_panel().sel.selected == Some((i + 1) as usize)
            &&& down.selected == set![i, (i + 1) as usize]
            &&& back.focused_panel().sel.selected == Some(i)
            &&& back.selected == set![i]
            &&& up.focused_panel().sel.selected == Some((i - 1) as usize)
            &&& i > 1 ==> up.selected == set![(i - 1) as usize, i]
            &&& i == 1 ==> up.selected == set![i]
        }),
{
    let down = c.navigated(true, true);
    let up = c.navigated(false, true);
    assert(down.selected =~= set![i, (i + 1) as usize]);
    assert(down.navigated(false, true).selected =~= set![i]);
    if i > 1 {
        assert(up.selected =~= set![(i - 1) as usize, i]);
    } else {
        assert(up.selected =~= set![i]);
    }
}

/// Moving the cursor without the shift key moves it by one row, inside the panel
/// with the keyboard only, and leaves nothing selected.
pub proof fn law_plain_moves_select_nothing(c: CoreView, i: usize)
    requires
        c.drive_picker is None,
        c.focused_panel().sel.selected == Some(i),
        i < usize::MAX,
    ensures
        ({
            let down = c.navigated(true, false);
            let up = c.navigated(false, false);
            &&& down.selected == Set::<usize>::empty() && up.selected == Set::<usize>::empty()
            &&& down.select_anchor is None && up.select_anchor is None
            &&& down.focused_panel().sel.selected == Some((i + 1) as usize)
            &&& i > 0 ==> up.focused_panel().sel.selected == Some((i - 1) as usize)
            &&& i == 0 ==> up.focused_panel().sel.selected == Some(0usize)
            &&& down.focus == c.focus && up.focus == c.focus
            &&& c.focus is Local ==> down.remote == c.remote && up.remote == c.remote
            &&& c.focus is Remote ==> down.local == c.local && up.local == c.local
            &&& down.focused_panel().entries == c.focused_panel().entries
            &&& down.focused_panel().path == c.focused_panel().path
        }),
{
}

/// Where rows are selected, these are operated on, from top to bottom. Otherwise it
/// is the row under the cursor, unless that is the parent directory.
pub proof fn law_chosen_rows(c: CoreView, rows: Seq<usize>)
    requires
        forall|i: int, j: int| 0 <= i < j < rows.len() ==> rows[i] < rows[j],
        forall|r: usize| c.selected.contains(r) <==> #[trigger] rows.contains(r),
    ensures
        rows.len() > 0 ==> c.chosen() == rows,
        rows.len() == 0 && c.focused_panel().sel.selected is Some
            && c.focused_panel().sel.selected->0 > 0 ==> c.chosen() == seq![
            c.focused_panel().sel.selected->0,
        ],
        rows.len() == 0 && (c.focused_panel().sel.selected is None
            || c.focused_panel().sel.selected->0 == 0) ==> c.chosen().len() == 0,
{
    assert(rows.to_set() =~= c.selected) by {
        assert forall|r: usize| rows.to_set().contains(r) == c.selected.contains(r) by {
            assert(rows.contains(r) == c.selected.contains(r));
        }
    }
    if rows.len() > 0 {
        assert(rows.contains(rows[0]));
        assert(c.selected.contains(rows[0]));
        selection::law_ascending_is_unique(rows, rows, c.selected);
    } else {
        assert(c.selected =~= Set::empty());
    }
}

// ---------------------------------------------------------------------------
// Queues
// ---------------------------------------------------------------------------

/// Whether every row is in a panel and none leads to the parent directory.
pub open spec fn are_files(p: PanelView, rows: Seq<usize>) -> bool {
    forall|k: int|
        0 <= k < rows.len() ==> (#[trigger] rows[k]) < p.entries.len()
            && p.entries[rows[k] as int].name != ".."@
}

/// The rows that are queued wait in their order, each by its name and its full
/// path. From the remote panel they are downloaded, from the local one uploaded.
pub proof fn law_rows_are_queued_in_order(c: CoreView, rows: Seq<usize>)
    requires
        are_files(c.focused_panel(), rows),
    ensures
        ({
            let q = c.queued(rows);
            let entries = c.focused_panel().entries;
            &&& q.transfer.pending.len() == rows.len()
            &&& forall|k: int|
                0 <= k < rows.len() ==> {
                    let p = #[trigger] q.transfer.pending[k];
                    let e = entries[rows[k] as int];
                    &&& p.name == e.name
                    &&& p.is_dir == e.is_dir
                    &&& c.focus is Remote ==> command_laws::lies_in(c.remote.path, e.name, p.path)
                    &&& c.focus is Local && (e.name.len() == 0 || e.name[0] != '/')
                        ==> command_laws::is_turned_child(c.local.path, e.name, p.path)
                }
            &&& c.focus is Remote ==> q.pending_direction() is Download
            &&& c.focus is Local ==> q.pending_direction() is Upload
            &&& q.local == c.local && q.remote == c.remote
        }),
{
    lemma_queued(c, rows);
}

proof fn lemma_queued(c: CoreView, rows: Seq<usize>)
    requires
        are_files(c.focused_panel(), rows),
    ensures
        c.transfers_at(rows).len() == rows.len(),
        forall|k: int|
            0 <= k < rows.len() ==> {
                let p = #[trigger] c.transfers_at(rows)[k];
                let e = c.focused_panel().entries[rows[k] as int];
                &&& p.name == e.name
                &&& p.is_dir == e.is_dir
                &&& c.focus is Remote ==> command_laws::lies_in(c.remote.path, e.name, p.path)
                &&& c.focus is Local && (e.name.len() == 0 || e.name[0] != '/')
                    ==> command_laws::is_turned_child(c.local.path, e.name, p.path)
            },
    decreases rows.len(),
{
    if rows.len() > 0 {
        let before = rows.drop_last();
        assert forall|k: int| 0 <= k < before.len() implies (#[trigger] before[k])
            < c.focused_panel().entries.len() && c.focused_panel().entries[before[k] as int].name
            != ".."@ by {
            assert(before[k] == rows[k]);
        }
        lemma_queued(c, before);
        assert(rows.last() == rows[rows.len() - 1]);
        let e = c.focused_panel().entries[rows.last() as int];
        match c.focus {
            BrowserFocus::Remote => {
                command_laws::law_remote_children_lie_in_their_directory(c.remote.path, e.name);
            },
            BrowserFocus::Local => {
                let full = path::joined(c.local.path, e.name);
                command_laws::law_backslashes_become_slashes(full);
                if e.name.len() == 0 || e.name[0] != '/' {
                    command_laws::law_local_children_lie_in_their_directory(c.local.path, e.name);
                    assert(command_laws::lies_in_local(c.local.path, e.name, full));
                }
            },
        }
        assert(c.transfers_at(rows) == c.transfers_at(before).push(c.transfer_at(rows.last())->0));
    }
}

/// What is asked to be deleted are the chosen rows, in their order, each by its full
/// path: the first is asked about, and the others wait.
pub proof fn law_rows_are_deleted_in_order(c: CoreView, location: DeleteLocation, rows: Seq<usize>)
    requires
        c.chosen() == rows,
        rows.len() > 1,
        are_files(c.panel_at(location), rows),
    ensures
        ({
            let q = c.asked_to_delete_chosen(location);
            let p = c.panel_at(location);
            &&& q.delete.confirm is Some
            &&& q.delete.pending.len() == rows.len() - 1
            &&& !q.delete.removing
            &&& forall|k: int|
                0 <= k < rows.len() ==> {
                    let t = if k == 0 {
                        q.delete.confirm->0
                    } else {
                        q.delete.pending[k - 1]
                    };
                    let e = p.entries[(#[trigger] rows[k]) as int];
                    &&& t.location == location
                    &&& (t.kind is Dir) == e.is_dir
                    &&& location is Remote ==> command_laws::lies_in(p.path, e.name, t.path)
                    &&& location is Local && (e.name.len() == 0 || e.name[0] != '/')
                        ==> command_laws::lies_in_local(p.path, e.name, t.path)
                }
        }),
{
    lemma_targets(c.panel_at(location), location, rows);
}

proof fn lemma_targets(p: PanelView, location: DeleteLocation, rows: Seq<usize>)
    requires
        are_files(p, rows),
    ensures
        delete::targets_at(p, location, rows).len() == rows.len(),
        forall|k: int|
            0 <= k < rows.len() ==> {
                let t = #[trigger] delete::targets_at(p, location, rows)[k];
                let e = p.entries[rows[k] as int];
                &&& t.location == location
                &&& (t.kind is Dir) == e.is_dir
                &&& location is Remote ==> command_laws::lies_in(p.path, e.name, t.path)
                &&& location is Local && (e.name.len() == 0 || e.name[0] != '/')
                    ==> command_laws::lies_in_local(p.path, e.name, t.path)
            },
    decreases rows.len(),
{
    if rows.len() > 0 {
        let before = rows.drop_last();
        assert forall|k: int| 0 <= k < before.len() implies (#[trigger] before[k])
            < p.entries.len() && p.entries[before[k] as int].name != ".."@ by {
            assert(before[k] == rows[k]);
        }
        lemma_targets(p, location, before);
        assert(rows.last() == rows[rows.len() - 1]);
        let e = p.entries[rows.last() as int];
        match location {
            DeleteLocation::Remote => {
                command_laws::law_remote_children_lie_in_their_directory(p.path, e.name);
            },
            DeleteLocation::Local => {
                if e.name.len() == 0 || e.name[0] != '/' {
                    command_laws::law_local_children_lie_in_their_directory(p.path, e.name);
                }
            },
        }
        assert(delete::targets_at(p, location, rows) == delete::targets_at(
            p,
            location,
            before,
        ).push(delete::target_at(p, location, rows.last())->0));
    }
}

/// One answer is for one question: after a removal the next question is about what
/// waited first, and nothing that waited is lost. After a failure nothing waits.
pub proof fn law_questions_come_one_by_one(c: CoreView, error: Option<Seq<char>>)
    requires
        c.confirms_local(),
    ensures
        ({
            let d = c.local_delete_done(error);
            &&& !d.delete.removing
            &&& error is Some ==> d.delete.confirm is None && d.delete.pending.len() == 0
            &&& error is None && c.delete.pending.len() == 0 ==> d.delete.confirm is None
            &&& error is None && c.delete.pending.len() > 0 ==> d.delete.confirm == Some(
                c.delete.pending[0],
            ) && d.delete.pending == c.delete.pending.skip(1)
            &&& error is None ==> d.reload_local && text::has_suffix(
                d.status_msg,
                c.delete.confirm->0.path,
            )
            &&& error is Some ==> d.reload_local == c.reload_local && text::has_suffix(
                d.status_msg,
                error->0,
            )
            &&& d.transfer == c.transfer && d.local == c.local && d.remote == c.remote
        }),
{
    let d = c.local_delete_done(error);
    match error {
        Some(e) => {
            let head = "Delete failed: "@;
            assert(d.status_msg == head + e);
            assert((head + e).skip((head + e).len() - e.len()) =~= e);
        },
        None => {
            let head = "Deleted: "@;
            let e = c.delete.confirm->0.path;
            assert(d.status_msg == head + e);
            assert((head + e).skip((head + e).len() - e.len()) =~= e);
        },
    }
}

/// To answer no takes back the question and all that wait behind it, and removes
/// nothing.
pub proof fn law_refusing_takes_all_back(c: CoreView)
    ensures
        c.deletion_refused().delete.confirm is None,
        c.deletion_refused().delete.pending.len() == 0,
        !c.deletion_refused().delete.removing,
        c.deletion_refused().local == c.local,
        c.deletion_refused().remote == c.remote,
        c.deletion_refused().transfer == c.transfer,
{
}

/// The transfers of a batch are counted: the first of a batch finds how many there
/// are, those that wait and itself, and each that is done counts one.
pub proof fn law_transfers_are_counted(
    c: CoreView,
    name: Seq<char>,
    is_dir: bool,
    direction: TransferDirection,
    now: u64,
)
    requires
        c.transfer.pending.len() < usize::MAX,
    ensures
        ({
            let b = c.begun(name, is_dir, direction, now);
            &&& c.transfer.batch_done == 0 ==> b.transfer.batch_total == c.transfer.pending.len() + 1
            &&& c.transfer.batch_done > 0 ==> b.transfer.batch_total == c.transfer.batch_total
            &&& b.transfer.batch_done == c.transfer.batch_done
            &&& b.transfer.pending == c.transfer.pending
            &&& b.transfer.start == Some(now)
            &&& b.transfer.last is Some
            &&& b.transfer.last->0.filename == name
            &&& b.transfer.last->0.is_dir == is_dir
            &&& b.last_direction() == direction
            &&& !b.transfer.last->0.done && b.transfer.last->0.progress == 0
            &&& b.last_completed().transfer.last->0.done
            &&& b.last_completed().transfer.last->0.progress == 100
            &&& b.last_completed().transfer.last->0.filename == name
            &&& c.transfer.batch_done < usize::MAX ==> c.one_done().transfer.batch_done
                == c.transfer.batch_done + 1
            &&& c.one_done().transfer.pending == c.transfer.pending
            &&& c.batch_reset().transfer.batch_done == 0 && c.batch_reset().transfer.batch_total == 0
            &&& b.status_msg.len() > 0 && (b.status_msg[0] == 'D') == (direction is Download)
            &&& exists|k: int|
                0 <= k && k + name.len() <= b.status_msg.len() && #[trigger] b.status_msg.subrange(
                    k,
                    k + name.len(),
                ) == name
        }),
{
    reveal_strlit("Downloading ");
    reveal_strlit("Uploading ");
    let b = c.begun(name, is_dir, direction, now);
    let head = match direction {
        TransferDirection::Download => "Downloading "@,
        TransferDirection::Upload => "Uploading "@,
    };
    let k = head.len() as int;
    assert(b.status_msg.subrange(k, k + name.len()) =~= name);
}

// ---------------------------------------------------------------------------
// Keys
// ---------------------------------------------------------------------------

/// Whether the key belongs to none of the bindings of a browser but, at most, the
/// one with the number `n`.
pub open spec fn at_most_key(
    b: BrowserBindings,
    n: int,
    code: KeyCode,
    ctrl: bool,
    alt: bool,
    shift: bool,
) -> bool {
    &&& n != 0 ==> !b.toggle_focus.fits(code, ctrl, alt, shift)
    &&& n != 1 ==> !b.navigate_up.fits_any_shift(code, ctrl, alt)
    &&& n != 2 ==> !b.navigate_down.fits_any_shift(code, ctrl, alt)
    &&& n != 3 ==> !b.scroll_left.fits(code, ctrl, alt, shift)
    &&& n != 4 ==> !b.scroll_right.fits(code, ctrl, alt, shift)
    &&& n != 5 ==> !b.enter.fits(code, ctrl, alt, shift) && !b.enter_or_transfer.fits(
        code,
        ctrl,
        alt,
        shift,
    )
    &&& n != 6 ==> !b.go_up.fits(code, ctrl, alt, shift)
    &&& n != 7 ==> !b.transfer.fits(code, ctrl, alt, shift)
    &&& n != 8 ==> !b.delete.fits(code, ctrl, alt, shift)
    &&& code != KeyCode::Esc
}

/// The keys for the cursor and for the panels do what they are bound to: the other
/// panel gets the keyboard, the cursor moves up or down, the panel with the keyboard
/// is scrolled sideways. None of them asks anything of the connection.
pub proof fn law_keys_move_in_the_panels(
    c: CoreView,
    code: KeyCode,
    ctrl: bool,
    alt: bool,
    shift: bool,
    b: BrowserBindings,
    now: u64,
)
    ensures
        ({
            let (s, r) = c.plain_keyed(code, ctrl, alt, shift, b, now);
            let x = c.focused_panel().scroll_x;
            &&& at_most_key(b, 0, code, ctrl, alt, shift) && b.toggle_focus.fits(
                code,
                ctrl,
                alt,
                shift,
            ) ==> r is Handled && s.focus != c.focus && s.local == c.local && s.remote == c.remote
                && s.drive_picker is None && s.selected == Set::<usize>::empty()
            &&& at_most_key(b, 1, code, ctrl, alt, shift) && b.navigate_up.fits_any_shift(
                code,
                ctrl,
                alt,
            ) ==> r is Handled && s == c.navigated(false, shift)
            &&& at_most_key(b, 2, code, ctrl, alt, shift) && b.navigate_down.fits_any_shift(
                code,
                ctrl,
                alt,
            ) ==> r is Handled && s == c.navigated(true, shift)
            &&& at_most_key(b, 3, code, ctrl, alt, shift) && b.scroll_left.fits(
                code,
                ctrl,
                alt,
                shift,
            ) ==> r is Handled && s.focus == c.focus && (if x >= 4 {
                s.focused_panel().scroll_x == x - 4
            } else {
                s.focused_panel().scroll_x == 0
            })
            &&& at_most_key(b, 4, code, ctrl, alt, shift) && b.scroll_right.fits(
                code,
                ctrl,
                alt,
                shift,
            ) && x <= usize::MAX - 4 ==> r is Handled && s.focus == c.focus
                && s.focused_panel().scroll_x == x + 4
        }),
{
}

/// The keys that ask for something ask for what they are bound to: to go into what
/// is under the cursor, to go up, to transfer into the other panel, or to delete.
pub proof fn law_keys_ask_for_what_they_say(
    c: CoreView,
    code: KeyCode,
    ctrl: bool,
    alt: bool,
    shift: bool,
    b: BrowserBindings,
    now: u64,
)
    ensures
        ({
            let (s, r) = c.plain_keyed(code, ctrl, alt, shift, b, now);
            &&& at_most_key(b, 5, code, ctrl, alt, shift) && (b.enter.fits(
                code,
                ctrl,
                alt,
                shift,
            ) || b.enter_or_transfer.fits(code, ctrl, alt, shift)) ==> r is Enter && s.focus
                == c.focus && s.local == c.local && s.remote == c.remote
            &&& at_most_key(b, 6, code, ctrl, alt, shift) && b.go_up.fits(code, ctrl, alt, shift)
                ==> r is GoUp && s.focus == c.focus && s.local == c.local && s.remote == c.remote
            &&& at_most_key(b, 7, code, ctrl, alt, shift) && b.transfer.fits(
                code,
                ctrl,
                alt,
                shift,
            ) ==> {
                &&& c.focus is Remote ==> r is Download
                &&& c.focus is Local ==> r is Upload
                &&& c.chosen().len() > 1 ==> s.transfer == c.queued(c.chosen()).transfer
                &&& c.chosen().len() <= 1 ==> s == c
            }
            &&& at_most_key(b, 8, code, ctrl, alt, shift) && b.delete.fits(code, ctrl, alt, shift)
                ==> r is Delete && s == c
            &&& at_most_key(b, 9, code, ctrl, alt, shift) && code is Char ==> r is Handled
                && s.paste_buf == c.paste_buf.push(code->Char_0) && s.local == c.local && s.remote
                == c.remote
            &&& at_most_key(b, 9, code, ctrl, alt, shift) && !(code is Char) ==> r is Handled && s
                == c
        }),
{
}

/// While a question is open, only `y` says yes, and `n` and the escape key say no.
/// Every other key leaves the question open.
pub proof fn law_only_y_says_yes(
    c: CoreView,
    code: KeyCode,
    ctrl: bool,
    alt: bool,
    shift: bool,
    b: BrowserBindings,
    now: u64,
    dirs: Seq<bool>,
)
    requires
        c.delete.confirm is Some,
        !c.delete.removing,
        c.drop_confirm is None,
        c.paste_buf.len() == 0,
    ensures
        ({
            let (s, r) = c.keyed(code, ctrl, alt, shift, b, now, dirs);
            &&& r is ConfirmDeleteYes <==> code == KeyCode::Char('y')
            &&& s.delete.confirm is None <==> code == KeyCode::Char('n') || code == KeyCode::Esc
            &&& s.delete.confirm is Some ==> s == c
            &&& !(r is ConfirmDeleteYes) ==> r is Handled
        }),
{
}

/// Characters that no binding is for are gathered in the order in which they come.
/// A while after the last of them, and not before, the names among them are handed
/// out, and nothing is left of them.
pub proof fn law_pasted_characters_are_gathered(c: CoreView, x: char, now: u64, later: u64)
    requires
        now <= u64::MAX - 150,
        now <= later,
    ensures
        ({
            let s = c.pasted(x, now);
            let n = s.paste_checked(later);
            &&& s.paste_buf.drop_last() == c.paste_buf
            &&& s.paste_buf.last() == x
            &&& later < now + 150 ==> n == s
            &&& later >= now + 150 ==> n.paste_buf.len() == 0 && n.paste_deadline is None
                && n.dropped == Some(navigation::dropped_names(c.paste_buf.push(x)))
        }),
{
    assert(c.paste_buf.push(x).drop_last() =~= c.paste_buf);
}

/// The files that were dropped are uploaded when `y` confirms them: each of them, in
/// their order, by its path with slashes. Nothing else starts their upload.
pub proof fn law_dropped_files_are_uploaded(
    c: CoreView,
    paths: Seq<Seq<char>>,
    dirs: Seq<bool>,
    code: KeyCode,
    ctrl: bool,
    alt: bool,
    shift: bool,
    b: BrowserBindings,
    now: u64,
)
    requires
        c.drop_confirm == Some(paths),
        dirs.len() == paths.len(),
    ensures
        ({
            let (s, r) = c.keyed(code, ctrl, alt, shift, b, now, dirs);
            &&& code == KeyCode::Char('y') ==> {
                &&& r is Upload
                &&& s.drop_confirm is None
                &&& s.pending_direction() is Upload
                &&& s.transfer.pending.len() == paths.len()
                &&& forall|k: int|
                    0 <= k < paths.len() ==> command_laws::slashes_turned(
                        paths[k],
                        (#[trigger] s.transfer.pending[k]).path,
                    ) && s.transfer.pending[k].is_dir == dirs[k]
            }
            &&& code != KeyCode::Char('y') ==> r is Handled && s.transfer == c.transfer
            &&& code == KeyCode::Char('n') || code == KeyCode::Esc ==> s.drop_confirm is None
            &&& code != KeyCode::Char('y') && code != KeyCode::Char('n') && code != KeyCode::Esc
                ==> s.drop_confirm == c.drop_confirm
        }),
{
    let (s, r) = c.keyed(code, ctrl, alt, shift, b, now, dirs);
    if code == KeyCode::Char('y') {
        assert forall|k: int| 0 <= k < paths.len() implies command_laws::slashes_turned(
            paths[k],
            (#[trigger] s.transfer.pending[k]).path,
        ) by {
            command_laws::law_backslashes_become_slashes(paths[k]);
        }
    }
}

// ---------------------------------------------------------------------------
// The mouse
// ---------------------------------------------------------------------------

/// A press takes the entry that is shown in its row: the rows of a panel are shown
/// one below the other inside of its border, from the first that is in sight. The
/// panel under the mouse gets the keyboard, and the other panel stays as it is.
pub proof fn law_press_takes_the_entry_shown_there(
    c: CoreView,
    col: u16,
    row: u16,
    pane: Rect,
    n: usize,
    i: usize,
)
    requires
        c.drop_confirm is None,
        c.drive_picker is None,
        pane.on_screen(),
        pane.height > 0,
    ensures
        ({
            let s = c.moused(MouseEventKind::Down(MouseButton::Left), col, row, pane, n);
            let title = if n > 1 {
                1int
            } else {
                0
            };
            let l = browser::layout_of(
                Rect {
                    y: (pane.y + title) as u16,
                    height: (pane.height - title) as u16,
                    ..pane
                },
            );
            &&& col < l.remote_panel.x && c.local.sel.offset <= i < c.local.entries.len() && row
                == l.local_panel.y + 1 + (i - c.local.sel.offset) && row + 1 < l.local_panel.y
                + l.local_panel.height ==> s.focus is Local && s.local.sel.selected == Some(i)
                && s.remote == c.remote && s.local.entries == c.local.entries
            &&& col >= l.remote_panel.x && c.remote.sel.offset <= i < c.remote.entries.len() && row
                == l.remote_panel.y + 1 + (i - c.remote.sel.offset) && row + 1 < l.remote_panel.y
                + l.remote_panel.height ==> s.focus is Remote && s.remote.sel.selected == Some(i)
                && s.local == c.local && s.remote.entries == c.remote.entries
        }),
{
}

/// Letting go over the other panel transfers there: from the local panel to the
/// remote one, or from the remote panel to the local one. Over the same panel nothing
/// is transferred.
pub proof fn law_drag_transfers_to_the_other_panel(
    c: CoreView,
    col: u16,
    row: u16,
    pane: Rect,
    n: usize,
)
    requires
        c.drop_confirm is None,
    ensures
        ({
            let up = MouseEventKind::Up(MouseButton::Left);
            let r = c.mouse_action(up, col, pane, n);
            let s = c.moused(up, col, row, pane, n);
            let over_remote = col >= browser::layout_of(
                mouse::browser_area(pane, n),
            ).remote_panel.x;
            &&& c.focus is Local && over_remote ==> r == Some(DragAction::LocalToRemote)
            &&& c.focus is Remote && !over_remote ==> r == Some(DragAction::RemoteToLocal)
            &&& c.focus is Local && !over_remote ==> r is None
            &&& c.focus is Remote && over_remote ==> r is None
            &&& s.drag is None
            &&& r is None ==> s.transfer == c.transfer
            &&& (s.focus is Remote) == over_remote
        }),
{
}

/// Nothing but letting go asks for a transfer, and while files that were dropped are
/// up for confirmation the mouse does nothing.
pub proof fn law_only_release_transfers(
    c: CoreView,
    kind: MouseEventKind,
    col: u16,
    row: u16,
    pane: Rect,
    n: usize,
)
    ensures
        kind != MouseEventKind::Up(MouseButton::Left) ==> c.mouse_action(kind, col, pane, n)
            is None && c.moused(kind, col, row, pane, n).transfer == c.transfer,
        c.drop_confirm is Some ==> c.mouse_action(kind, col, pane, n) is None && c.moused(
            kind,
            col,
            row,
            pane,
            n,
        ) == c,
{
}

// ---------------------------------------------------------------------------
// What waits
// ---------------------------------------------------------------------------

/// The first that waits and is still listed is taken, by the first row with its name.
/// Those before it, which are gone, do not wait any more.
pub proof fn law_first_listed_is_taken(c: CoreView, k: int, row: int)
    requires
        0 <= k < c.transfer.pending.len(),
        0 <= row < c.focused_panel().entries.len() <= usize::MAX,
        c.focused_panel().entries[row].name == c.transfer.pending[k].name,
        forall|r: int|
            0 <= r < row ==> (#[trigger] c.focused_panel().entries[r]).name
                != c.transfer.pending[k].name,
        forall|j: int, r: int|
            0 <= j < k && 0 <= r < c.focused_panel().entries.len() ==> (
            #[trigger] c.focused_panel().entries[r]).name != (#[trigger] c.transfer.pending[j]).name,
    ensures
        c.listed_row(0) == Some(row as usize),
        c.listed_after(0) == k + 1,
{
    lemma_listed(c, k, row, 0);
}

proof fn lemma_listed(c: CoreView, k: int, row: int, i: int)
    requires
        0 <= i <= k < c.transfer.pending.len(),
        0 <= row < c.focused_panel().entries.len() <= usize::MAX,
        c.focused_panel().entries[row].name == c.transfer.pending[k].name,
        forall|r: int|
            0 <= r < row ==> (#[trigger] c.focused_panel().entries[r]).name
                != c.transfer.pending[k].name,
        forall|j: int, r: int|
            0 <= j < k && 0 <= r < c.focused_panel().entries.len() ==> (
            #[trigger] c.focused_panel().entries[r]).name != (#[trigger] c.transfer.pending[j]).name,
    ensures
        c.listed_row(i) == Some(row as usize),
        c.listed_after(i) == k + 1,
    decreases k - i,
{
    let entries = c.focused_panel().entries;
    if i < k {
        let name = c.transfer.pending[i].name;
        assert forall|r: int| 0 <= r < entries.len() implies (#[trigger] entries[r]).name
            != name by {
            assert(entries[r].name != c.transfer.pending[i].name);
        }
        lemma_not_named(entries, name, 0);
        lemma_listed(c, k, row, i + 1);
    } else {
        lemma_named(entries, c.transfer.pending[k].name, row, 0);
    }
}

proof fn lemma_named(entries: Seq<EntryView>, name: Seq<char>, row: int, i: int)
    requires
        0 <= i <= row < entries.len(),
        entries[row].name == name,
        forall|r: int| 0 <= r < row ==> (#[trigger] entries[r]).name != name,
    ensures
        transfer::entry_named(entries, name, i) == row,
    decreases row - i,
{
    if i < row {
        assert(entries[i].name != name);
        lemma_named(entries, name, row, i + 1);
    }
}

proof fn lemma_not_named(entries: Seq<EntryView>, name: Seq<char>, i: int)
    requires
        0 <= i <= entries.len(),
        forall|r: int| 0 <= r < entries.len() ==> (#[trigger] entries[r]).name != name,
    ensures
        transfer::entry_named(entries, name, i) == entries.len(),
    decreases entries.len() - i,
{
    if i < entries.len() {
        assert(entries[i].name != name);
        lemma_not_named(entries, name, i + 1);
    }
}

/// A press where no entry is shown takes the cursor away from the panel under the mouse,
/// and nothing stays selected.
pub proof fn law_press_beside_the_entries_takes_the_cursor_away(
    c: CoreView,
    col: u16,
    row: u16,
    pane: Rect,
)
    requires
        c.drop_confirm is None,
        c.drive_picker is None,
    ensures
        ({
            let s = c.moused(MouseEventKind::Down(MouseButton::Left), col, row, pane, 1);
            let l = browser::layout_of(pane);
            let missed_local = row < l.local_panel.y + 1 || row + 1 >= l.local_panel.y
                + l.local_panel.height || c.local.sel.offset + (row - l.local_panel.y - 1)
                >= c.local.entries.len();
            let missed_remote = row < l.remote_panel.y + 1 || row + 1 >= l.remote_panel.y
                + l.remote_panel.height || c.remote.sel.offset + (row - l.remote_panel.y - 1)
                >= c.remote.entries.len();
            &&& col < l.remote_panel.x && missed_local ==> s.local.sel.selected is None && s.focus
                is Local && s.selected == Set::<usize>::empty() && s.remote == c.remote
            &&& col >= l.remote_panel.x && missed_remote ==> s.remote.sel.selected is None
                && s.focus is Remote && s.selected == Set::<usize>::empty() && s.local == c.local
        }),
{
}

/// What is dragged is named: by its own name, or by the number of files where several
/// are selected. Without anything to drag there is no name.
pub proof fn law_drag_names_what_is_dragged(c: CoreView)
    ensures
        c.chosen().len() == 0 ==> c.label_to_drag() is None,
        c.chosen().len() == 1 && c.chosen()[0] < c.focused_panel().entries.len()
            ==> c.label_to_drag() == Some(
            c.focused_panel().entries[c.chosen()[0] as int].name,
        ),
        c.chosen().len() > 1 ==> c.label_to_drag() == Some(
            text::decimal(c.chosen().len()) + seq![' ', 'f', 'i', 'l', 'e', 's'],
        ),
{
    reveal_strlit(" files");
    assert(" files"@ =~= seq![' ', 'f', 'i', 'l', 'e', 's']);
}

/// What is dragged follows the mouse, and is let go with its button. It came from the
/// panel in which the button was pressed.
pub proof fn law_drag_follows_the_mouse(c: CoreView, col: u16, row: u16, pane: Rect, n: usize)
    requires
        c.drop_confirm is None,
    ensures
        ({
            let pressed = c.moused(MouseEventKind::Down(MouseButton::Left), col, row, pane, n);
            let moved = c.moused(MouseEventKind::Drag(MouseButton::Left), col, row, pane, n);
            let released = c.moused(MouseEventKind::Up(MouseButton::Left), col, row, pane, n);
            &&& pressed.label_to_drag() is Some ==> pressed.drag is Some && pressed.drag->0.origin
                == pressed.focus && pressed.drag->0.mouse_col == col && pressed.drag->0.mouse_row
                == row && pressed.drag->0.label == pressed.label_to_drag()->0
            &&& c.drag is Some ==> moved.drag is Some && moved.drag->0.mouse_col == col
                && moved.drag->0.mouse_row == row && moved.drag->0.label == c.drag->0.label
                && moved.drag->0.origin == c.drag->0.origin
            &&& c.drag is None ==> moved == c
            &&& released.drag is None
        }),
{
}

/// The key for deletions asks about the panel with the keyboard.
pub proof fn law_deletion_is_asked_for_the_focused_panel(s: SftpView, t: SshView)
    requires
        t.core == s.core,
        s.state is Idle,
        t.free(),
        s.core.chosen().len() <= 1,
        command_laws::row_to_take(s.core.focused_panel()) is Some,
    ensures
        ({
            let d = s.delete_asked().core.delete;
            let e = t.delete_asked().core.delete;
            &&& d.confirm is Some && e.confirm == d.confirm
            &&& s.core.focus is Local <==> d.confirm->0.location is Local
            &&& !d.removing
        }),
{
}

/// Above the root the roots to choose from are shown, and the one that is chosen is
/// entered.
pub proof fn law_root_is_chosen(c: CoreView, drives: Seq<Seq<char>>, sel: ListState, i: usize)
    requires
        c.drive_picker == Some((drives, sel)),
        sel.selected == Some(i),
        i < drives.len(),
    ensures
        c.local_entered().local.path == drives[i as int],
        c.local_entered().drive_picker is None,
        c.local_entered().reload_local,
        c.local_entered().remote == c.remote,
        c.picking_drive().drive_picker is Some,
        (c.picking_drive().drive_picker->0).0 == seq![seq!['/']],
        c.picker_dismissed().drive_picker is None,
        c.picker_dismissed().local == c.local,
{
    reveal_strlit("/");
    assert("/"@ =~= seq!['/']);
}

/// The names that were dropped and lead to files are up for confirmation, all of them,
/// with their number. Where none does, nothing is.
pub proof fn law_dropped_files_are_up_for_confirmation(c: CoreView, found: Seq<Seq<char>>)
    requires
        c.drop_confirm is None,
    ensures
        ({
            let s = c.drop_resolved(found);
            &&& s.dropped is None
            &&& found.len() > 0 ==> s.drop_confirm == Some(found) && s.drop_scroll_x == 0
                && s.drop_scroll_y == 0 && text::has_prefix(
                s.status_msg,
                text::decimal(found.len()).push(' '),
            )
            &&& found.len() == 0 ==> s.drop_confirm is None
            &&& s.transfer == c.transfer
        }),
{
    reveal_strlit(" file(s) ready to upload");
    let s = c.drop_resolved(found);
    let d = text::decimal(found.len()).push(' ');
    if found.len() > 0 {
        assert(s.status_msg.subrange(0, d.len() as int) =~= d);
    }
}

/// A dropped file is uploaded under its own name.
pub proof fn law_dropped_file_keeps_its_name(
    c: CoreView,
    paths: Seq<Seq<char>>,
    dirs: Seq<bool>,
    k: int,
    dir: Seq<char>,
    name: Seq<char>,
)
    requires
        0 <= k < paths.len(),
        place_laws::is_tidy(dir),
        place_laws::is_name(name),
        paths[k] == path::joined(dir, name),
    ensures
        c.drop_keyed(paths, KeyCode::Char('y'), dirs).transfer.pending[k].name == name,
{
    place_laws::law_going_up_undoes_entering(dir, name);
}

/// What waits keeps its direction; otherwise it is that of the last transfer, and an
/// upload before there was any.
pub proof fn law_direction_is_that_of_what_waits(c: CoreView)
    ensures
        c.transfer.pending_direction is Some ==> c.pending_direction()
            == c.transfer.pending_direction->0,
        c.transfer.pending_direction is None && c.transfer.last is Some ==> c.pending_direction()
            == c.transfer.last->0.direction,
        c.transfer.pending_direction is None && c.transfer.last is None ==> c.pending_direction()
            is Upload,
{
}

} // verus!
