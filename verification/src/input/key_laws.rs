//! What a program in a session makes of what is sent for keys.
use vstd::prelude::*;
use crate::app::AppView;
use crate::event::KeyCode;
use crate::input::session;
use crate::text;

verus! {

/// The place of an arrow key in the order up, down, right, left.
pub open spec fn arrow_place(code: KeyCode) -> Option<int> {
    match code {
        KeyCode::Up => Some(0),
        KeyCode::Down => Some(1),
        KeyCode::Right => Some(2),
        KeyCode::Left => Some(3),
        _ => None,
    }
}

/// The arrow keys send an escape, a bracket and one of the letters from `A` on, in
/// the order up, down, right and left. Where the program asked for application
/// sequences there is an `O` in place of the bracket; with the control key there
/// are parameters in front of the letter.
pub proof fn law_arrow_keys_send_their_letter(
    code: KeyCode,
    ctrl: bool,
    alt: bool,
    app_cursor: bool,
)
    requires
        arrow_place(code) is Some,
    ensures
        ({
            let s = session::key_sent(code, ctrl, alt, app_cursor);
            &&& s is Some
            &&& s->0[0] == '\x1b'
            &&& s->0.last() as int == 'A' as int + arrow_place(code)->0
            &&& if ctrl && !alt {
                s->0.len() == 6 && s->0[1] == '[' && s->0[2] == '1' && s->0[3] == ';' && s->0[4]
                    == '5'
            } else {
                s->0.len() == 3 && s->0[1] == (if app_cursor {
                    'O'
                } else {
                    '['
                })
            }
        }),
{
    reveal_strlit("\x1b[1;5A");
    reveal_strlit("\x1b[1;5B");
    reveal_strlit("\x1b[1;5C");
    reveal_strlit("\x1b[1;5D");
    reveal_strlit("\x1bOA");
    reveal_strlit("\x1bOB");
    reveal_strlit("\x1bOC");
    reveal_strlit("\x1bOD");
    reveal_strlit("\x1b[A");
    reveal_strlit("\x1b[B");
    reveal_strlit("\x1b[C");
    reveal_strlit("\x1b[D");
}

/// The number by which a terminal knows a key that it sends with a tilde: those of
/// the editing keys, and those of the function keys from the fifth on, which leave
/// one out after the fifth and after the tenth.
pub open spec fn tilde_number(code: KeyCode) -> Option<nat> {
    match code {
        KeyCode::Delete => Some(3),
        KeyCode::PageUp => Some(5),
        KeyCode::PageDown => Some(6),
        KeyCode::F(n) => if n == 5 {
            Some(15)
        } else if 6 <= n <= 10 {
            Some((n + 11) as nat)
        } else if 11 <= n <= 12 {
            Some((n + 12) as nat)
        } else {
            None
        },
        _ => None,
    }
}

/// Editing and function keys send an escape, a bracket, their number and a tilde.
pub proof fn law_numbered_keys_send_their_number(
    code: KeyCode,
    ctrl: bool,
    alt: bool,
    app_cursor: bool,
)
    requires
        tilde_number(code) is Some,
    ensures
        ({
            let s = session::key_sent(code, ctrl, alt, app_cursor);
            &&& s is Some
            &&& s->0.len() >= 4
            &&& s->0[0] == '\x1b'
            &&& s->0[1] == '['
            &&& s->0.last() == '~'
            &&& text::all_digits(s->0.subrange(2, s->0.len() - 1))
            &&& text::digits_value(s->0.subrange(2, s->0.len() - 1)) == tilde_number(code)->0
        }),
{
    reveal_with_fuel(text::digits_value, 3);
    reveal_strlit("\x1b[3~");
    reveal_strlit("\x1b[5~");
    reveal_strlit("\x1b[6~");
    reveal_strlit("\x1b[15~");
    reveal_strlit("\x1b[17~");
    reveal_strlit("\x1b[18~");
    reveal_strlit("\x1b[19~");
    reveal_strlit("\x1b[20~");
    reveal_strlit("\x1b[21~");
    reveal_strlit("\x1b[23~");
    reveal_strlit("\x1b[24~");
    let s = session::key_sent(code, ctrl, alt, app_cursor)->0;
    let d = s.subrange(2, s.len() - 1);
    assert(d[0] == s[2]);
    if d.len() == 1 {
        assert(d.drop_last() =~= Seq::empty());
    } else {
        assert(d[1] == s[3]);
        assert(d.drop_last().drop_last() =~= Seq::empty());
        assert(d.drop_last().last() == d[0]);
    }
}

/// The first four function keys send an escape, an `O` and one of the letters from
/// `P` on.
pub proof fn law_first_function_keys_send_their_letter(
    n: u8,
    ctrl: bool,
    alt: bool,
    app_cursor: bool,
)
    requires
        1 <= n <= 4,
    ensures
        ({
            let s = session::key_sent(KeyCode::F(n), ctrl, alt, app_cursor);
            &&& s is Some
            &&& s->0.len() == 3
            &&& s->0[0] == '\x1b'
            &&& s->0[1] == 'O'
            &&& s->0[2] as int == 'P' as int + n - 1
        }),
{
    reveal_strlit("\x1bOP");
    reveal_strlit("\x1bOQ");
    reveal_strlit("\x1bOR");
    reveal_strlit("\x1bOS");
}

/// Keys with a character of their own send that character: Enter a carriage
/// return, Tab a tab, Backspace a delete, and Esc an escape. Home, End and the tab
/// backwards send an escape, a bracket and their letter.
pub proof fn law_plain_keys_send_their_character(ctrl: bool, alt: bool, app_cursor: bool)
    ensures
        session::key_sent(KeyCode::Enter, ctrl, alt, app_cursor) == Some(seq!['\r']),
        session::key_sent(KeyCode::Tab, ctrl, alt, app_cursor) == Some(seq!['\t']),
        session::key_sent(KeyCode::Backspace, ctrl, alt, app_cursor) == Some(seq!['\x7f']),
        session::key_sent(KeyCode::Esc, ctrl, alt, app_cursor) == Some(seq!['\x1b']),
        session::key_sent(KeyCode::Home, ctrl, alt, app_cursor) == Some(seq!['\x1b', '[', 'H']),
        session::key_sent(KeyCode::End, ctrl, alt, app_cursor) == Some(seq!['\x1b', '[', 'F']),
        session::key_sent(KeyCode::BackTab, ctrl, alt, app_cursor) == Some(seq!['\x1b', '[', 'Z']),
{
    reveal_strlit("\r");
    reveal_strlit("\t");
    reveal_strlit("\x7f");
    reveal_strlit("\x1b");
    reveal_strlit("\x1b[H");
    reveal_strlit("\x1b[F");
    reveal_strlit("\x1b[Z");
    assert("\r"@ =~= seq!['\r']);
    assert("\t"@ =~= seq!['\t']);
    assert("\x7f"@ =~= seq!['\x7f']);
    assert("\x1b"@ =~= seq!['\x1b']);
    assert("\x1b[H"@ =~= seq!['\x1b', '[', 'H']);
    assert("\x1b[F"@ =~= seq!['\x1b', '[', 'F']);
    assert("\x1b[Z"@ =~= seq!['\x1b', '[', 'Z']);
}

/// Which family of keys something was sent for, and its number in that family.
spec fn family(code: KeyCode) -> Option<(int, int)> {
    if arrow_place(code) is Some {
        Some((0, arrow_place(code)->0))
    } else if tilde_number(code) is Some {
        Some((1, tilde_number(code)->0 as int))
    } else {
        match code {
            KeyCode::F(n) => if 1 <= n <= 4 {
                Some((2, n as int))
            } else {
                None
            },
            KeyCode::Enter => Some((3, 0)),
            KeyCode::Tab => Some((3, 1)),
            KeyCode::Backspace => Some((3, 2)),
            KeyCode::Esc => Some((3, 3)),
            KeyCode::Home => Some((3, 4)),
            KeyCode::End => Some((3, 5)),
            KeyCode::BackTab => Some((3, 6)),
            _ => None,
        }
    }
}

proof fn lemma_families(code: KeyCode, ctrl: bool, alt: bool, app_cursor: bool)
    requires
        !(code is Char),
    ensures
        session::key_sent(code, ctrl, alt, app_cursor) is Some == family(code) is Some,
        session::key_sent(code, ctrl, alt, app_cursor) matches Some(s) ==> {
            let f = family(code)->0;
            &&& f.0 == 0 ==> s.len() > 1 && s.last() as int == 'A' as int + f.1 && 0 <= f.1 < 4
                && s[0] == '\x1b'
            &&& f.0 == 1 ==> s.len() > 1 && s.last() == '~' && text::digits_value(
                s.subrange(2, s.len() - 1),
            ) == f.1
            &&& f.0 == 2 ==> s.len() == 3 && s.last() as int == 'P' as int + f.1 - 1 && 1 <= f.1
                <= 4
            &&& f.0 == 3 ==> (s.len() == 1 || s.last() == 'H' || s.last() == 'F' || s.last()
                == 'Z') && s.len() > 0
        },
{
    law_plain_keys_send_their_character(ctrl, alt, app_cursor);
    if arrow_place(code) is Some {
        law_arrow_keys_send_their_letter(code, ctrl, alt, app_cursor);
    } else if tilde_number(code) is Some {
        law_numbered_keys_send_their_number(code, ctrl, alt, app_cursor);
    } else if let KeyCode::F(n) = code {
        if 1 <= n <= 4 {
            law_first_function_keys_send_their_letter(n, ctrl, alt, app_cursor);
        }
    }
}

/// Two different keys that are not characters never send the same, with the same
/// modifiers.
pub proof fn law_keys_are_told_apart(
    a: KeyCode,
    b: KeyCode,
    ctrl: bool,
    alt: bool,
    app_cursor: bool,
)
    requires
        !(a is Char),
        !(b is Char),
        a != b,
        session::key_sent(a, ctrl, alt, app_cursor) is Some,
    ensures
        session::key_sent(a, ctrl, alt, app_cursor) != session::key_sent(b, ctrl, alt, app_cursor),
{
    lemma_families(a, ctrl, alt, app_cursor);
    lemma_families(b, ctrl, alt, app_cursor);
    law_plain_keys_send_their_character(ctrl, alt, app_cursor);
    let enter = seq!['\r'];
    let tab = seq!['\t'];
    let erase = seq!['\x7f'];
    let escape = seq!['\x1b'];
    let home = seq!['\x1b', '[', 'H'];
    let end = seq!['\x1b', '[', 'F'];
    let back = seq!['\x1b', '[', 'Z'];
    assert(enter[0] != tab[0] && enter[0] != erase[0] && enter[0] != escape[0]);
    assert(tab[0] != erase[0] && tab[0] != escape[0] && erase[0] != escape[0]);
    assert(home.last() == 'H' && end.last() == 'F' && back.last() == 'Z');
    assert(home.len() == 3 && end.len() == 3 && back.len() == 3);
    assert(enter.len() == 1 && tab.len() == 1 && erase.len() == 1 && escape.len() == 1);
}

/// A character without the control key is sent as it is, behind an escape where
/// the alt key is held. With both it is the character itself.
pub proof fn law_characters_are_sent_as_they_are(c: char, ctrl: bool, alt: bool, app_cursor: bool)
    requires
        ctrl ==> alt,
    ensures
        session::key_sent(KeyCode::Char(c), ctrl, alt, app_cursor) == Some(
            if alt && !ctrl {
                seq!['\x1b', c]
            } else {
                seq![c]
            },
        ),
{
    reveal_strlit("\x1b");
    assert("\x1b"@ + seq![c] =~= seq!['\x1b', c]);
}

/// With the control key a letter, small or capital, sends the control character of
/// its place in the alphabet, as do the other characters of that part of ASCII and
/// a blank. Control characters themselves are sent as they are. What has no such
/// character sends nothing.
pub proof fn law_control_keys_send_their_place(c: char, app_cursor: bool)
    ensures
        ({
            let s = session::key_sent(KeyCode::Char(c), true, false, app_cursor);
            let n = c as int;
            if n < 32 || n == 127 {
                s == Some(seq![c])
            } else if n == 63 {
                s == Some(seq!['\x7f'])
            } else if 64 <= n <= 95 {
                s is Some && s->0.len() == 1 && s->0[0] as int == n - 64
            } else if 97 <= n <= 122 {
                s is Some && s->0.len() == 1 && s->0[0] as int == n - 96
            } else if n == 32 {
                s is Some && s->0.len() == 1 && s->0[0] as int == 0
            } else {
                s is None
            }
        }),
{
}

/// A key of a session sends what it stands for to the session with the focus, as
/// one text behind what waits there already, and shows the latest output.
pub proof fn law_session_gets_what_is_typed(
    a: AppView,
    code: KeyCode,
    ctrl: bool,
    alt: bool,
    app_cursor: bool,
)
    requires
        a.focused() matches Some(p) && p is Session,
    ensures
        ({
            let t = a.focused()->0->terminal;
            let q = session::leaf_keyed(
                a.focused()->0,
                session::key_sent(code, ctrl, alt, app_cursor),
            );
            let u = q->terminal;
            &&& a.session_keyed(code, ctrl, alt, app_cursor) == a.with_focused(q)
            &&& q is Session
            &&& u.scroll == 0
            &&& u.id == t.id && u.rows == t.rows && u.cols == t.cols && u.exited == t.exited
            &&& match session::key_sent(code, ctrl, alt, app_cursor) {
                Some(s) => u.outbox.len() == t.outbox.len() + 1 && u.outbox.last() == s
                    && u.outbox.drop_last() == t.outbox,
                None => u.outbox == t.outbox,
            }
        }),
{
    let t = a.focused()->0->terminal;
    if let Some(s) = session::key_sent(code, ctrl, alt, app_cursor) {
        assert(t.outbox.push(s).drop_last() =~= t.outbox);
    }
}

} // verus!
