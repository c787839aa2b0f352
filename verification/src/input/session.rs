//! Keys for a session: what is sent for them.
use vstd::prelude::*;
use crate::app::{App, AppView};
use crate::event::KeyCode;
use crate::pane::{Pane, PaneView};
use crate::terminal::TermView;
use crate::text::cat;

verus! {

/// The control character that a key stands for when the control key is held.
/// Some terminals report the control character itself. Keys that stand for none
/// are dropped.
pub open spec fn control_char(c: char) -> Option<char> {
    if (c as int) < 32 || c as int == 127 {
        Some(c)
    } else if c == ' ' || c == '@' {
        Some('\0')
    } else if 'a' <= c && c <= 'z' {
        Some((c as int - 'a' as int + 1) as char)
    } else if 'A' <= c && c <= 'Z' {
        Some((c as int - 'A' as int + 1) as char)
    } else if c == '[' {
        Some('\x1b')
    } else if c == '\\' {
        Some('\x1c')
    } else if c == ']' {
        Some('\x1d')
    } else if c == '^' {
        Some('\x1e')
    } else if c == '_' {
        Some('\x1f')
    } else if c == '?' {
        Some('\x7f')
    } else {
        None
    }
}

/// The control character that a key stands for when the control key is held.
pub fn control_byte(c: char) -> (r: Option<char>)
    ensures
        r == control_char(c),
{
    let n: u32 = c as u32;
    if n < 32 || n == 127 {
        Some(c)
    } else if c == ' ' || c == '@' {
        Some('\0')
    } else if 'a' <= c && c <= 'z' {
        Some((n - 'a' as u32 + 1) as u8 as char)
    } else if 'A' <= c && c <= 'Z' {
        Some((n - 'A' as u32 + 1) as u8 as char)
    } else if c == '[' {
        Some('\x1b')
    } else if c == '\\' {
        Some('\x1c')
    } else if c == ']' {
        Some('\x1d')
    } else if c == '^' {
        Some('\x1e')
    } else if c == '_' {
        Some('\x1f')
    } else if c == '?' {
        Some('\x7f')
    } else {
        None
    }
}

/// What is sent for a function key.
pub open spec fn function_key(n: u8) -> Option<Seq<char>> {
    if n == 1 {
        Some("\x1bOP"@)
    } else if n == 2 {
        Some("\x1bOQ"@)
    } else if n == 3 {
        Some("\x1bOR"@)
    } else if n == 4 {
        Some("\x1bOS"@)
    } else if n == 5 {
        Some("\x1b[15~"@)
    } else if n == 6 {
        Some("\x1b[17~"@)
    } else if n == 7 {
        Some("\x1b[18~"@)
    } else if n == 8 {
        Some("\x1b[19~"@)
    } else if n == 9 {
        Some("\x1b[20~"@)
    } else if n == 10 {
        Some("\x1b[21~"@)
    } else if n == 11 {
        Some("\x1b[23~"@)
    } else if n == 12 {
        Some("\x1b[24~"@)
    } else {
        None
    }
}

fn function_sequence(n: u8) -> (r: Option<&'static str>)
    ensures
        (match r {
            Some(s) => Some(s@),
            None => None,
        }) == function_key(n),
{
    match n {
        1 => Some("\x1bOP"),
        2 => Some("\x1bOQ"),
        3 => Some("\x1bOR"),
        4 => Some("\x1bOS"),
        5 => Some("\x1b[15~"),
        6 => Some("\x1b[17~"),
        7 => Some("\x1b[18~"),
        8 => Some("\x1b[19~"),
        9 => Some("\x1b[20~"),
        10 => Some("\x1b[21~"),
        11 => Some("\x1b[23~"),
        12 => Some("\x1b[24~"),
        _ => None,
    }
}

/// What is sent for a key that is not a character. `ctrl` says whether the
/// control key is held, and not the alt key.
pub open spec fn named_key(code: KeyCode, ctrl: bool, app_cursor: bool) -> Option<Seq<char>> {
    match code {
        KeyCode::Left => Some(
            if ctrl {
                "\x1b[1;5D"@
            } else if app_cursor {
                "\x1bOD"@
            } else {
                "\x1b[D"@
            },
        ),
        KeyCode::Right => Some(
            if ctrl {
                "\x1b[1;5C"@
            } else if app_cursor {
                "\x1bOC"@
            } else {
                "\x1b[C"@
            },
        ),
        KeyCode::Up => Some(
            if ctrl {
                "\x1b[1;5A"@
            } else if app_cursor {
                "\x1bOA"@
            } else {
                "\x1b[A"@
            },
        ),
        KeyCode::Down => Some(
            if ctrl {
                "\x1b[1;5B"@
            } else if app_cursor {
                "\x1bOB"@
            } else {
                "\x1b[B"@
            },
        ),
        KeyCode::Enter => Some("\r"@),
        KeyCode::Backspace => Some("\x7f"@),
        KeyCode::Delete => Some("\x1b[3~"@),
        KeyCode::Tab => Some("\t"@),
        KeyCode::BackTab => Some("\x1b[Z"@),
        KeyCode::Home => Some("\x1b[H"@),
        KeyCode::End => Some("\x1b[F"@),
        KeyCode::Esc => Some("\x1b"@),
        KeyCode::PageUp => Some("\x1b[5~"@),
        KeyCode::PageDown => Some("\x1b[6~"@),
        KeyCode::F(n) => function_key(n),
        _ => None,
    }
}

fn named_sequence(code: KeyCode, ctrl: bool, app_cursor: bool) -> (r: Option<&'static str>)
    ensures
        (match r {
            Some(s) => Some(s@),
            None => None,
        }) == named_key(code, ctrl, app_cursor),
{
    match code {
        KeyCode::Left => Some(
            if ctrl {
                "\x1b[1;5D"
            } else if app_cursor {
                "\x1bOD"
            } else {
                "\x1b[D"
            },
        ),
        KeyCode::Right => Some(
            if ctrl {
                "\x1b[1;5C"
            } else if app_cursor {
                "\x1bOC"
            } else {
                "\x1b[C"
            },
        ),
        KeyCode::Up => Some(
            if ctrl {
                "\x1b[1;5A"
            } else if app_cursor {
                "\x1bOA"
            } else {
                "\x1b[A"
            },
        ),
        KeyCode::Down => Some(
            if ctrl {
                "\x1b[1;5B"
            } else if app_cursor {
                "\x1bOB"
            } else {
                "\x1b[B"
            },
        ),
        KeyCode::Enter => Some("\r"),
        KeyCode::Backspace => Some("\x7f"),
        KeyCode::Delete => Some("\x1b[3~"),
        KeyCode::Tab => Some("\t"),
        KeyCode::BackTab => Some("\x1b[Z"),
        KeyCode::Home => Some("\x1b[H"),
        KeyCode::End => Some("\x1b[F"),
        KeyCode::Esc => Some("\x1b"),
        KeyCode::PageUp => Some("\x1b[5~"),
        KeyCode::PageDown => Some("\x1b[6~"),
        KeyCode::F(n) => function_sequence(n),
        _ => None,
    }
}

/// What is sent to a session for a key. A character with the alt key comes
/// behind an escape; with both the control and the alt key it is the character
/// itself.
pub open spec fn key_sent(code: KeyCode, ctrl: bool, alt: bool, app_cursor: bool) -> Option<
    Seq<char>,
> {
    match code {
        KeyCode::Char(c) => if ctrl && !alt {
            match control_char(c) {
                Some(b) => Some(seq![b]),
                None => None,
            }
        } else if alt && !ctrl {
            Some("\x1b"@ + seq![c])
        } else {
            Some(seq![c])
        },
        _ => named_key(code, ctrl && !alt, app_cursor),
    }
}

/// What is sent to a session for a key.
pub fn key_sequence(code: KeyCode, ctrl: bool, alt: bool, app_cursor: bool) -> (r: Option<String>)
    ensures
        (match r {
            Some(s) => Some(s@),
            None => None,
        }) == key_sent(code, ctrl, alt, app_cursor),
{
    if let KeyCode::Char(c) = code {
        let mut s = String::new();
        if ctrl && !alt {
            return match control_byte(c) {
                Some(b) => {
                    s.push(b);
                    assert(s@ =~= seq![b]);
                    Some(s)
                },
                None => None,
            };
        }
        s.push(c);
        assert(s@ =~= seq![c]);
        if alt && !ctrl {
            return Some(cat("\x1b", s.as_str()));
        }
        return Some(s);
    }
    match named_sequence(code, ctrl && !alt, app_cursor) {
        Some(s) => Some(s.to_owned()),
        None => None,
    }
}

/// The leaf after a key, where it is a session: the latest output is shown, and
/// what the key stands for is sent.
pub open spec fn leaf_keyed(p: PaneView, s: Option<Seq<char>>) -> PaneView {
    match p {
        PaneView::Session { terminal, ssh_args, exit_selection } => {
            let shown = TermView { scroll: 0, ..terminal };
            PaneView::Session {
                terminal: match s {
                    Some(t) => shown.sent(t),
                    None => shown,
                },
                ssh_args,
                exit_selection,
            }
        },
        _ => p,
    }
}

fn key_on_leaf(pane: &mut Pane, s: Option<String>)
    ensures
        final(pane)@ == leaf_keyed(
            old(pane)@,
            match s {
                Some(t) => Some(t@),
                None => None,
            },
        ),
{
    if let Pane::Session { terminal, .. } = pane {
        terminal.reset_scroll();
        if let Some(t) = s {
            terminal.send_str(t.as_str());
        }
    }
}

impl AppView {
    /// The application after a key for the session with the focus.
    pub open spec fn session_keyed(
        self,
        code: KeyCode,
        ctrl: bool,
        alt: bool,
        app_cursor: bool,
    ) -> AppView {
        match self.focused() {
            Some(p) => self.with_focused(leaf_keyed(p, key_sent(code, ctrl, alt, app_cursor))),
            None => self,
        }
    }
}

/// Sends what a key stands for to the session with the focus, and shows its
/// latest output.
pub fn handle_session_key(app: &mut App, code: KeyCode, ctrl: bool, alt: bool, app_cursor: bool)
    requires
        old(app)@.valid(),
    ensures
        final(app)@ == old(app)@.session_keyed(code, ctrl, alt, app_cursor),
        final(app)@.valid(),
{
    let s = key_sequence(code, ctrl, alt, app_cursor);
    if let Some(pane) = app.focused_pane_mut() {
        key_on_leaf(pane, s);
    }
}

/// What a key with the control key sends is never more than one control
/// character.
pub proof fn law_control_keys_send_control_characters(c: char, app_cursor: bool)
    ensures
        match key_sent(KeyCode::Char(c), true, false, app_cursor) {
            Some(s) => s.len() == 1 && ((s[0] as int) < 32 || s[0] as int == 127),
            None => true,
        },
{
}

} // verus!
