//! What the pictures of the browsers and of the overlays show.
use vstd::prelude::*;
use crate::browser;
use crate::browser::common::{BrowserFocus, CoreView};
use crate::browser::parse::EntryView;
use crate::browser::sftp::SftpView;
use crate::browser::ssh::SshView;
use crate::connect;
use crate::connect::{EditorView, InputView, OverlayView};
use crate::event::KeyCode;
use crate::geometry::Rect;
use crate::keybindings::{BrowserBindings, KeyBindings};
use crate::style::Color;
use crate::text;
use crate::view;
use crate::view::panel;
use crate::view::status;
use crate::view::PieceView;

verus! {

/// The text of a line.
pub open spec fn line_text(l: Seq<PieceView>) -> Seq<char>
    decreases l.len(),
{
    if l.len() == 0 {
        Seq::empty()
    } else {
        line_text(l.drop_last()) + l.last().text
    }
}

proof fn lemma_one_piece(a: PieceView)
    ensures
        line_text(seq![a]) == a.text,
{
    assert(seq![a].drop_last() =~= Seq::empty());
    assert(line_text(Seq::empty()) == Seq::<char>::empty());
    assert(Seq::<char>::empty() + a.text =~= a.text);
}

proof fn lemma_two_pieces(a: PieceView, b: PieceView)
    ensures
        line_text(seq![a, b]) == a.text + b.text,
{
    assert(seq![a, b].drop_last() =~= seq![a]);
    lemma_one_piece(a);
}

// ---------------------------------------------------------------------------
// Panels
// ---------------------------------------------------------------------------

/// The line of an entry has its name at the left, with a slash for a directory, and at
/// the right its size, the time of its last change and its permissions, each in its
/// column.
pub proof fn law_line_has_its_columns(e: EntryView, width: int)
    requires
        panel::shown_name(e).len() + 37 <= width,
        e.size.len() <= 9,
        e.modified.len() <= 16,
        e.perms.len() <= 10,
    ensures
        ({
            let l = panel::full_line(e, width);
            let n = e.name.len() as int;
            &&& l.len() == width
            &&& l.take(n) == e.name
            &&& e.is_dir ==> l[n] == '/'
            &&& !e.is_dir && n + 37 < width ==> l[n] == ' '
            &&& l.subrange(width - 28 - e.size.len(), width - 28) == e.size
            &&& l.subrange(width - 27, width - 27 + e.modified.len()) == e.modified
            &&& l.subrange(width - 10, width - 10 + e.perms.len()) == e.perms
        }),
{
    reveal_strlit("/");
    reveal_strlit(" ");
    let l = panel::full_line(e, width);
    let n = e.name.len() as int;
    assert(l.len() == width);
    assert(l.take(n) =~= e.name);
    assert(l.subrange(width - 28 - e.size.len(), width - 28) =~= e.size);
    assert(l.subrange(width - 27, width - 27 + e.modified.len()) =~= e.modified);
    assert(l.subrange(width - 10, width - 10 + e.perms.len()) =~= e.perms);
}

/// A panel shows the part of a line that is scrolled to, and blanks behind its end.
pub proof fn law_scrolled_line_shows_a_part(line: Seq<char>, scroll: int, shown: int, i: int)
    requires
        0 <= scroll,
        0 <= i < shown,
    ensures
        panel::scrolled_line(line, scroll, shown).len() == shown,
        panel::scrolled_line(line, scroll, shown)[i] == if scroll + i < line.len() {
            line[scroll + i]
        } else {
            ' '
        },
{
}

/// The line of an entry in a panel is its line as far as it is scrolled to, whatever
/// its colours. Its name is cyan for a directory and white for a file, and all of it
/// is marked where it is selected.
pub proof fn law_entry_line_shows_the_entry(
    e: EntryView,
    width: int,
    scroll: int,
    shown: int,
    chosen: bool,
    active: bool,
)
    requires
        0 <= scroll,
        0 <= shown,
    ensures
        ({
            let l = panel::entry_line(e, width, scroll, shown, chosen, active);
            &&& line_text(l) == panel::scrolled_line(panel::full_line(e, width), scroll, shown)
            &&& l.len() > 0
            &&& chosen ==> forall|i: int|
                0 <= i < l.len() ==> (#[trigger] l[i]).style.bold && l[i].style.bg == (if active {
                    Color::Cyan
                } else {
                    Color::DarkGray
                })
            &&& !chosen ==> forall|i: int|
                0 <= i < l.len() ==> !(#[trigger] l[i]).style.bold && l[i].style.bg is Reset
            &&& !chosen && l.len() > 1 ==> l[0].style.fg == (if e.is_dir {
                Color::Cyan
            } else {
                Color::White
            })
        }),
{
    let l = panel::entry_line(e, width, scroll, shown, chosen, active);
    let line = panel::scrolled_line(panel::full_line(e, width), scroll, shown);
    let n = panel::name_in_sight(e, scroll, shown);
    if n == 0 {
        lemma_one_piece(l[0]);
        assert(l =~= seq![l[0]]);
    } else {
        lemma_two_pieces(l[0], l[1]);
        assert(l =~= seq![l[0], l[1]]);
        assert(line.take(n) + line.skip(n) =~= line);
    }
}

/// A panel lists its entries in their order. The rows that are selected are marked, in
/// the panel with the keyboard only.
pub proof fn law_panel_lists_its_entries(c: CoreView, inner: Rect, side: BrowserFocus, focused: bool)
    requires
        !(side is Local && c.drive_picker is Some),
        !(side is Remote && c.raw_snapshot.len() > 0),
    ensures
        ({
            let p = if side is Local {
                c.local
            } else {
                c.remote
            };
            let b = c.panel_body(inner, side, focused);
            &&& b is Entries
            &&& b->Entries_0.len() == p.entries.len()
            &&& forall|i: int|
                0 <= i < p.entries.len() ==> line_text(#[trigger] b->Entries_0[i])
                    == panel::scrolled_line(
                    panel::full_line(
                        p.entries[i],
                        panel::full_width(p.entries, inner.width as int),
                    ),
                    c.panel_scroll(side, inner.width as int),
                    inner.width as int,
                )
            &&& forall|i: int|
                0 <= i < p.entries.len() && i <= usize::MAX ==> (#[trigger] b->Entries_0[i]).len()
                    > 0 && b->Entries_0[i][0].style.bold == (c.focus == side && c.selected.contains(
                    i as usize,
                ))
        }),
{
    let p = if side is Local {
        c.local
    } else {
        c.remote
    };
    let b = c.panel_body(inner, side, focused);
    let w = panel::full_width(p.entries, inner.width as int);
    let s = c.panel_scroll(side, inner.width as int);
    assert forall|i: int| 0 <= i < p.entries.len() implies line_text(#[trigger] b->Entries_0[i])
        == panel::scrolled_line(panel::full_line(p.entries[i], w), s, inner.width as int)
        && b->Entries_0[i].len() > 0 && b->Entries_0[i][0].style.bold == (c.focus == side
        && c.selected.contains(i as usize)) by {
        law_entry_line_shows_the_entry(
            p.entries[i],
            w,
            s,
            inner.width as int,
            c.focus == side && c.selected.contains(i as usize),
            c.focus == side && focused,
        );
    }
}

/// The frame of a panel says which side it is and where it is. Only the panel with the
/// keyboard, in the pane with the focus, has a bright frame.
pub proof fn law_panel_says_where_it_is(c: CoreView, area: Rect, side: BrowserFocus, focused: bool)
    ensures
        ({
            let p = c.panel_plan(area, side, focused);
            let path = if side is Local {
                c.local.path
            } else {
                c.remote.path
            };
            &&& p.path == seq![' '] + path + seq![' ']
            &&& (p.border is Cyan) == (c.focus == side && focused)
            &&& side is Remote ==> text::trimmed(p.title) == "remote"@
            &&& side is Local && c.drive_picker is None ==> text::trimmed(p.title) == "local"@
        }),
{
    reveal_strlit(" ");
    reveal_strlit(" remote ");
    reveal_strlit(" local ");
    reveal_strlit("remote");
    reveal_strlit("local");
    assert(" "@ =~= seq![' ']);
    let p = c.panel_plan(area, side, focused);
    let w = seq![' ', ' '];
    if side is Remote {
        assert(p.title =~= w + "remote"@ + w);
        crate::browser::listing_laws::law_trimming(w, "remote"@, w);
    } else if c.drive_picker is None {
        assert(p.title =~= w + "local"@ + w);
        crate::browser::listing_laws::law_trimming(w, "local"@, w);
    }
}

/// The lines of a panel are wide enough for every name, and at least as wide as the
/// panel.
pub proof fn law_lines_have_room_for_every_name(s: Seq<EntryView>, shown: int, i: int)
    requires
        0 <= i < s.len(),
    ensures
        panel::full_width(s, shown) >= shown,
        panel::full_width(s, shown) < usize::MAX ==> panel::full_width(s, shown)
            >= panel::name_room(s[i]) + 1 + 37,
{
    lemma_widest(s, i, s.len() as int);
}

proof fn lemma_widest(s: Seq<EntryView>, i: int, n: int)
    requires
        0 <= i < n <= s.len(),
    ensures
        panel::widest_name(s, n) >= panel::name_room(s[i]),
    decreases n,
{
    if i < n - 1 {
        lemma_widest(s, i, n - 1);
    }
}

// ---------------------------------------------------------------------------
// The line at the bottom
// ---------------------------------------------------------------------------

/// The question about a deletion names the file by its path, in quotes, and says on
/// which side it is, how many more there are, and how to answer.
pub proof fn law_question_shows_the_path(c: CoreView)
    requires
        c.delete.confirm is Some,
    ensures
        ({
            let t = c.delete.confirm->0;
            let q = c.delete_question();
            let side = if t.location is Local {
                "  Delete local '"@
            } else {
                "  Delete remote '"@
            };
            &&& q is Some
            &&& text::has_prefix(q->0, side + t.path + seq!['\''])
            &&& text::has_suffix(q->0, "?  [y] Yes   [n] No"@)
            &&& c.delete.pending.len() > 0 ==> text::has_prefix(
                q->0,
                side + t.path + "' (+"@ + text::decimal(c.delete.pending.len()),
            )
            &&& c.delete.pending.len() == 0 ==> q->0 == side + t.path + "'?  [y] Yes   [n] No"@
        }),
{
    reveal_strlit("  Delete ");
    reveal_strlit("local");
    reveal_strlit("remote");
    reveal_strlit(" '");
    reveal_strlit("  Delete local '");
    reveal_strlit("  Delete remote '");
    reveal_strlit("' (+");
    reveal_strlit(" more)?  [y] Yes   [n] No");
    reveal_strlit("'?  [y] Yes   [n] No");
    reveal_strlit("?  [y] Yes   [n] No");
    let t = c.delete.confirm->0;
    let q = c.delete_question()->0;
    let side = if t.location is Local {
        "  Delete local '"@
    } else {
        "  Delete remote '"@
    };
    assert("  Delete "@ + "local"@ + " '"@ =~= "  Delete local '"@);
    assert("  Delete "@ + "remote"@ + " '"@ =~= "  Delete remote '"@);
    let a = side + t.path + seq!['\''];
    let end = "?  [y] Yes   [n] No"@;
    if c.delete.pending.len() > 0 {
        let d = text::decimal(c.delete.pending.len());
        let more = side + t.path + "' (+"@ + d;
        assert(q =~= more + " more)?  [y] Yes   [n] No"@);
        assert(q.subrange(0, more.len() as int) =~= more);
        assert(q.subrange(0, a.len() as int) =~= a);
        assert(q.subrange(q.len() - end.len(), q.len() - end.len() + end.len()) =~= end);
    } else {
        assert(q =~= side + t.path + "'?  [y] Yes   [n] No"@);
        assert(q.subrange(0, a.len() as int) =~= a);
        assert(q.subrange(q.len() - end.len(), q.len() - end.len() + end.len()) =~= end);
    }
}

/// Without a question the line at the bottom shows the state in brackets, the message
/// with the progress behind it, and how long the last command took.
pub proof fn law_status_shows_the_message(
    c: CoreView,
    label: Seq<char>,
    color: Color,
    progress: Seq<char>,
)
    ensures
        ({
            let l = c.status_line(label, color, progress);
            &&& l.len() == 3
            &&& l[0].text == seq!['['] + label + seq![']']
            &&& l[1].text == seq![' '] + c.status_msg + progress
            &&& l[0].style.fg == color && l[1].style.fg == color
            &&& c.last_duration is None ==> l[2].text.len() == 0
            &&& c.last_duration is Some ==> l[2].text == seq![' ', '(']
                + browser::common::navigation::duration_text(c.last_duration->0 as nat) + seq![')']
        }),
{
    reveal_strlit("[");
    reveal_strlit("]");
    reveal_strlit(" ");
    reveal_strlit(" (");
    reveal_strlit(")");
    assert("["@ =~= seq!['[']);
    assert("]"@ =~= seq![']']);
    assert(" "@ =~= seq![' ']);
    assert(" ("@ =~= seq![' ', '(']);
    assert(")"@ =~= seq![')']);
}

/// The hint at the bottom names the keys that are bound, each in brackets before what
/// it does, and stands at the right end of its line.
pub proof fn law_hint_names_the_keys(b: BrowserBindings, area: Rect)
    requires
        area.on_screen(),
    ensures
        status::help_text(b) == seq![' ', '['] + b.transfer.shown() + seq![
            ']',
            'x',
            'f',
            'e',
            'r',
            ' ',
            '[',
        ] + b.delete.shown() + seq![']', 'r', 'm', ' '],
        status::help_text(b).len() <= area.width ==> status::help_column(
            area,
            status::help_text(b).len() as int,
        ) + status::help_text(b).len() == area.x + area.width,
{
    reveal_strlit(" [");
    reveal_strlit("]xfer [");
    reveal_strlit("]rm ");
    assert(" ["@ =~= seq![' ', '[']);
    assert("]xfer ["@ =~= seq![']', 'x', 'f', 'e', 'r', ' ', '[']);
    assert("]rm "@ =~= seq![']', 'r', 'm', ' ']);
}

// ---------------------------------------------------------------------------
// Boxes
// ---------------------------------------------------------------------------

/// The box of a transfer shows which way it goes, the name of the file, how far it is
/// and how long it has taken.
pub proof fn law_transfer_box_shows_the_transfer(c: CoreView, inner: Rect, now: u64)
    requires
        c.transfer.start is Some,
        c.transfer.last is Some,
        c.transfer.start->0 <= now,
    ensures
        ({
            let t = c.transfer.last->0;
            let b = c.transfer_box(inner, now);
            &&& b is Some
            &&& b->0.percent == t.progress
            &&& b->0.name[0] == (if t.direction is Download {
                '↓'
            } else {
                '↑'
            })
            &&& text::has_suffix(b->0.name, t.filename)
            &&& b->0.time == browser::common::navigation::duration_text(
                (now - c.transfer.start->0) as nat,
            )
        }),
{
    reveal_strlit("↓");
    reveal_strlit("↑");
    reveal_strlit("  ");
    let t = c.transfer.last->0;
    let n = c.transfer_box(inner, now)->0.name;
    assert(n.subrange(n.len() - t.filename.len(), n.len() as int) =~= t.filename);
}

/// While something is dragged, arrows between the panels show which way it would go,
/// and its name follows the mouse.
pub proof fn law_arrows_show_the_way(c: CoreView, area: Rect)
    requires
        area.on_screen(),
        area.width > 1,
        area.height > 1,
    ensures
        c.drag is None ==> c.arrows(area, 1) is None && c.drag_ghost() is None,
        c.drag is Some ==> ({
            let a = c.arrows(area, 1);
            let l = browser::layout_of(area);
            let d = c.drag->0;
            &&& a is Some
            &&& a->0.glyph == (if d.origin is Local {
                '>'
            } else {
                '<'
            })
            &&& a->0.right_x == l.remote_panel.x
            &&& a->0.left_x + 1 == a->0.right_x
            &&& 0 < a->0.rows <= 3
            &&& area.y <= a->0.first_y
            &&& a->0.first_y + a->0.rows <= area.y + area.height
            &&& c.drag_ghost() == Some(
                (seq![' '] + d.label + seq![' '], d.mouse_col + 2, d.mouse_row as int),
            )
        }),
{
    reveal_strlit(" ");
    assert(" "@ =~= seq![' ']);
}

/// Of the choices after the end of a process exactly the chosen one is marked.
pub proof fn law_choice_is_marked(selection: u8)
    requires
        selection < 2,
    ensures
        ({
            let l = status::exit_line(selection);
            &&& l.len() == 3
            &&& l[0].text == "Reconnect"@
            &&& l[2].text == "Close pane"@
            &&& l[0].style.bold == (selection == 0)
            &&& l[2].style.bold == (selection == 1)
            &&& !l[1].style.bold
        }),
{
}

/// The files that were dropped are shown with their number, from the one that is
/// scrolled to on.
pub proof fn law_dropped_files_are_shown(c: CoreView, paths: Seq<Seq<char>>, inner: Rect, i: int)
    requires
        c.drop_scroll_x == 0,
        0 <= i < status::drops_in_sight(paths, c.drop_scroll_y as int, status::drop_rows(inner)),
    ensures
        ({
            let l = c.drop_lines(paths, inner);
            &&& i + 2 < l.len()
            &&& line_text(l[i + 2]) == seq![' ', ' '] + paths[c.drop_scroll_y + i]
            &&& line_text(l[0]) == seq![' ', 'U', 'p', 'l', 'o', 'a', 'd', ' '] + text::decimal(
                paths.len(),
            ) + " file(s)? "@
            &&& status::drops_in_sight(paths, c.drop_scroll_y as int, status::drop_rows(inner))
                <= 5
            &&& paths.len() - c.drop_scroll_y >= 5 && inner.height >= 11
                ==> status::drops_in_sight(
                paths,
                c.drop_scroll_y as int,
                status::drop_rows(inner),
            ) == 5
        }),
{
    reveal_strlit("  ");
    reveal_strlit(" Upload ");
    assert("  "@ =~= seq![' ', ' ']);
    assert(" Upload "@ =~= seq![' ', 'U', 'p', 'l', 'o', 'a', 'd', ' ']);
    let l = c.drop_lines(paths, inner);
    lemma_one_piece(l[0][0]);
    assert(l[0] =~= seq![l[0][0]]);
    lemma_one_piece(l[i + 2][0]);
    assert(l[i + 2] =~= seq![l[i + 2][0]]);
}

// ---------------------------------------------------------------------------
// The overlays of the list of hosts
// ---------------------------------------------------------------------------

/// The input field shows a part of its text with the cursor in it: what stands before
/// the cursor on the screen stands before it in the text.
pub proof fn law_input_field_shows_the_cursor(i: InputView, width: int)
    requires
        width > 0,
        i.cursor <= i.text.len(),
    ensures
        ({
            let s = i.shown(width);
            let k = i.cursor_column(width);
            &&& s.len() <= width
            &&& 0 <= k <= s.len()
            &&& k < width
            &&& s.take(k) == i.text.subrange(i.cursor - k, i.cursor as int)
            &&& s.skip(k) == i.text.subrange(i.cursor as int, i.cursor + (s.len() - k))
            &&& i.text.len() < width ==> s == i.text && k == i.cursor
        }),
{
    let s = i.shown(width);
    let k = i.cursor_column(width);
    assert(s.take(k) =~= i.text.subrange(i.cursor - k, i.cursor as int));
    assert(s.skip(k) =~= i.text.subrange(i.cursor as int, i.cursor + (s.len() - k)));
    if i.text.len() < width {
        assert(s =~= i.text);
    }
}

/// A row of the key editor shows its own combination and what it does. Where a new one
/// is awaited it says so instead.
pub proof fn law_editor_shows_the_combination(b: KeyBindings, e: EditorView, row: usize)
    requires
        connect::binding_in_row(row) is Some,
        connect::binding_in_row(row)->0 < b.rows().len(),
    ensures
        ({
            let r = view::connect::editor_row(b, e, row);
            let entry = b.rows()[connect::binding_in_row(row)->0 as int];
            let capturing = e.editing && row == connect::cursor_row(e.list_state);
            &&& r.len() == 2
            &&& r[1].text == entry.description
            &&& !capturing ==> text::has_prefix(r[0].text, seq![' '] + entry.binding.shown())
            &&& capturing ==> text::has_prefix(r[0].text, " [press key...]"@)
        }),
{
    reveal_strlit(" ");
    reveal_strlit("[press key...]");
    reveal_strlit(" [press key...]");
    assert(" "@ =~= seq![' ']);
    let t = view::connect::editor_row(b, e, row)[0].text;
    let entry = b.rows()[connect::binding_in_row(row)->0 as int];
    let capturing = e.editing && row == connect::cursor_row(e.list_state);
    if capturing {
        assert(t.subrange(0, " [press key...]"@.len() as int) =~= " [press key...]"@);
    } else {
        let p = seq![' '] + entry.binding.shown();
        assert(t.subrange(0, p.len() as int) =~= p);
    }
}

/// The headings of the key editor name the sections below them.
pub proof fn law_editor_headings_name_the_sections(b: KeyBindings, e: EditorView, row: usize)
    requires
        b.rows().len() == 28,
        connect::binding_in_row(row) is None,
        row + 1 < connect::EDITOR_ROW_COUNT,
    ensures
        ({
            let h = view::connect::editor_row(b, e, row);
            let below = connect::binding_in_row((row + 1) as usize);
            &&& h.len() == 1
            &&& below is Some
            &&& h[0].text[4] == (if below->0 < 12 {
                'G'
            } else if below->0 < 18 {
                'C'
            } else {
                'B'
            })
        }),
{
    reveal_strlit(" ── ");
    reveal_strlit("Global");
    reveal_strlit("Connect");
    reveal_strlit("Browser");
}

/// The overlay that is open is shown, and no other: the input field with its text and
/// its cursor, the editor with all of its rows.
pub proof fn law_open_overlay_is_shown(o: OverlayView, b: KeyBindings, inner: Rect)
    ensures
        ({
            let p = view::connect::overlay_plan(o, b, inner);
            &&& o is Closed <==> p is Closed
            &&& o is BrowserMenu <==> p is Menu
            &&& o is KeyEditor <==> p is Editor
            &&& o is ConnectInput <==> p is Input
            &&& o is KeyEditor ==> p->rows.len() == 31
            &&& o is KeyEditor && o->KeyEditor_0.status is Some && o->KeyEditor_0.status->0.len()
                > 0 ==> p->status is Some && (p->status->0).0 == o->KeyEditor_0.status->0
            &&& o is ConnectInput && inner.width >= 52 ==> p->text == o->ConnectInput_0.shown(48)
            &&& o is ConnectInput && inner.width >= 52 && inner.on_screen() && inner.height >= 4
                && o->ConnectInput_0.cursor <= o->ConnectInput_0.text.len() ==> {
                &&& p->cursor is Some
                &&& (p->cursor->0).0 == p->Input_area.x + 1 + o->ConnectInput_0.cursor_column(48)
                &&& (p->cursor->0).1 == p->Input_area.y + 1
            }
        }),
{
}

// ---------------------------------------------------------------------------
// Output and passwords
// ---------------------------------------------------------------------------

/// A password shows as one star for every byte of it and as nothing else of it.
pub proof fn law_password_shows_as_stars(bytes: int, width: int, i: int)
    requires
        0 <= bytes,
    ensures
        ({
            let l = status::password_line(bytes, width);
            &&& l.len() >= width
            &&& l.len() >= bytes + 13
            &&& 12 <= i < 12 + bytes ==> l[i] == '*'
            &&& l[12 + bytes] == '█'
            &&& 13 + bytes <= i < l.len() ==> l[i] == ' '
        }),
{
    reveal_strlit("  Password: ");
    reveal_strlit("█");
}

/// Of the output of a program the last lines that are not blank are shown, as many as
/// there is room for, in their order, each as far as it fits.
pub proof fn law_last_output_is_shown(s: Seq<Seq<char>>, width: int, height: int)
    requires
        0 <= width,
        0 <= height,
        forall|i: int| 0 <= i < s.len() ==> text::trimmed(#[trigger] s[i]).len() > 0,
    ensures
        ({
            let o = panel::last_output(s, width, height);
            let n = if s.len() <= height {
                s.len() as int
            } else {
                height
            };
            &&& o.len() == n
            &&& forall|i: int|
                0 <= i < n ==> {
                    let l = s[s.len() - n + i];
                    let shown = #[trigger] o[i];
                    &&& l.len() <= width ==> shown == l
                    &&& l.len() > width ==> shown == l.take(width)
                }
        }),
{
    lemma_not_blank(s, s.len() as int);
    assert(s.take(s.len() as int) =~= s);
    let o = panel::last_output(s, width, height);
    let n = if s.len() <= height {
        s.len() as int
    } else {
        height
    };
    assert forall|i: int| 0 <= i < n implies {
        let l = s[s.len() - n + i];
        let shown = #[trigger] o[i];
        &&& l.len() <= width ==> shown == l
        &&& l.len() > width ==> shown == l.take(width)
    } by {
        let l = s[s.len() - n + i];
        if l.len() <= width {
            assert(l.take(l.len() as int) =~= l);
        }
    }
}

proof fn lemma_not_blank(s: Seq<Seq<char>>, n: int)
    requires
        0 <= n <= s.len(),
        forall|i: int| 0 <= i < s.len() ==> text::trimmed(#[trigger] s[i]).len() > 0,
    ensures
        panel::not_blank(s, n) == s.take(n),
    decreases n,
{
    if n > 0 {
        lemma_not_blank(s, n - 1);
        assert(text::trimmed(s[n - 1]).len() > 0);
        assert(s.take(n) =~= s.take(n - 1).push(s[n - 1]));
    } else {
        assert(s.take(0) =~= Seq::empty());
    }
}

/// Blank lines of the output are not shown.
pub proof fn law_blank_output_is_not_shown(s: Seq<Seq<char>>, n: int)
    requires
        0 < n <= s.len(),
        text::trimmed(s[n - 1]).len() == 0,
    ensures
        panel::not_blank(s, n) == panel::not_blank(s, n - 1),
{
}

/// At the bottom a question comes first, then a password that is asked for, and only
/// then the state of the work.
pub proof fn law_question_comes_first(s: SftpView, t: SshView, at: Rect, b: BrowserBindings)
    ensures
        s.core.delete.confirm is Some ==> s.bottom(at, b) is Question && s.bottom(
            at,
            b,
        )->Question_0 == s.core.delete_question()->0,
        s.core.delete.confirm is None ==> s.bottom(at, b) is Normal,
        t.core.delete.confirm is Some ==> t.bottom(at, b) is Question,
        t.core.delete.confirm is None && t.asking ==> t.bottom(at, b) is Password,
        t.core.delete.confirm is None && !t.asking ==> t.bottom(at, b) is Normal,
        s.core.delete.confirm is None ==> s.bottom(at, b)->left == s.core.status_line(
            s.label().0,
            s.label().1,
            s.progress_text(),
        ),
{
}

// ---------------------------------------------------------------------------
// Room
// ---------------------------------------------------------------------------

/// A panel is scrolled sideways no further than its lines go.
pub proof fn law_scrolling_stops_at_the_end(c: CoreView, side: BrowserFocus, shown: int)
    requires
        0 <= shown,
    ensures
        ({
            let p = if side is Local {
                c.local
            } else {
                c.remote
            };
            let w = panel::full_width(p.entries, shown);
            let x = c.panel_scroll(side, shown);
            &&& 0 <= x
            &&& x + shown <= w || x == 0
            &&& x <= p.scroll_x
            &&& p.scroll_x + shown <= w ==> x == p.scroll_x
        }),
{
}

/// The boxes have the size that they are made for where there is room for it, and stand
/// in the middle.
pub proof fn law_boxes_have_their_size(inner: Rect, lines: int, has_status: bool)
    requires
        inner.on_screen(),
        inner.width >= 64,
        inner.height >= 40,
        0 <= lines <= 30,
    ensures
        status::exit_area(inner) == view::in_the_middle(inner, 34, 3),
        status::drop_area(inner, lines) == view::in_the_middle(inner, 60, (lines + 2) as u16),
        view::connect::editor_area(inner, has_status) == view::in_the_middle(
            inner,
            44,
            if has_status {
                34
            } else {
                33
            },
        ),
{
}

/// The list of dropped files is scrolled down while there are files below those in
/// sight, and up to its first.
pub proof fn law_dropped_files_are_scrolled(c: CoreView, paths: Seq<Seq<char>>, dirs: Seq<bool>)
    requires
        c.drop_confirm == Some(paths),
        c.last_inner.height >= 7,
        paths.len() <= usize::MAX,
        c.drop_scroll_y < usize::MAX,
    ensures
        ({
            let down = c.drop_keyed(paths, KeyCode::Down, dirs);
            let up = c.drop_keyed(paths, KeyCode::Up, dirs);
            let rows = status::drop_rows(c.last_inner);
            &&& c.drop_scroll_y + rows < paths.len() ==> down.drop_scroll_y == c.drop_scroll_y + 1
            &&& c.drop_scroll_y + rows >= paths.len() ==> down.drop_scroll_y == c.drop_scroll_y
            &&& c.drop_scroll_y > 0 ==> up.drop_scroll_y == c.drop_scroll_y - 1
            &&& c.drop_scroll_y == 0 ==> up.drop_scroll_y == 0
            &&& down.drop_confirm == c.drop_confirm && up.drop_confirm == c.drop_confirm
        }),
{
}

} // verus!
