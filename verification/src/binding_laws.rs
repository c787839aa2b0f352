//! What holds of the table of key combinations and of its text in the
//! configuration file.
use vstd::prelude::*;
use crate::event::KeyCode;
use crate::input::connect;
use crate::keybindings;
use crate::keybindings::{
    BrowserBindings, ConnectBindings, GlobalBindings, KeyBinding, KeyBindings, RowView,
};
use crate::text;

verus! {

/// Whether the configuration file has a name for a key that is read as that
/// key: every key with a name of its own, the function keys from 1 to 12, and
/// every character but white space other than a blank.
pub open spec fn has_name(code: KeyCode) -> bool {
    match code {
        KeyCode::Char(c) => c == ' ' || !text::is_white(c),
        KeyCode::F(n) => 1 <= n <= 12,
        KeyCode::Enter | KeyCode::Tab | KeyCode::BackTab | KeyCode::Backspace | KeyCode::Delete
        | KeyCode::Esc | KeyCode::Left | KeyCode::Right | KeyCode::Up | KeyCode::Down
        | KeyCode::Home | KeyCode::End | KeyCode::PageUp | KeyCode::PageDown
        | KeyCode::Insert => true,
        _ => false,
    }
}

/// Whether a combination has a text of its own: its key has a name, and it is
/// not one of shift with tab, which terminals report as a key of its own.
pub open spec fn has_text(k: KeyBinding) -> bool {
    has_name(k.code) && !(k.shift && (k.code is Tab || k.code is BackTab))
}

/// Whether two combinations fit the same key events.
pub open spec fn alike(a: KeyBinding, b: KeyBinding) -> bool {
    forall|code: KeyCode, ctrl: bool, alt: bool, shift: bool|
        #[trigger] a.fits(code, ctrl, alt, shift) == b.fits(code, ctrl, alt, shift)
}

proof fn lemma_no_plus(s: Seq<char>)
    requires
        forall|i: int| 0 <= i < s.len() ==> #[trigger] s[i] != '+',
    ensures
        text::parts_of(s, '+') == seq![s],
{
    text::lemma_find_from(s, '+', 0);
}

proof fn lemma_find_is(s: Seq<char>, c: char, at: int)
    requires
        0 <= at < s.len(),
        s[at] == c,
        forall|i: int| 0 <= i < at ==> #[trigger] s[i] != c,
    ensures
        text::find_from(s, c, 0) == at,
{
    text::lemma_find_from(s, c, 0);
    let f = text::find_from(s, c, 0);
    if f < at {
        assert(s[f] != c);
    }
    if f > at {
        assert(s[at] != c);
    }
}

/// The parts of a text that starts with a part and a plus sign.
proof fn lemma_first_part(m: Seq<char>, t: Seq<char>)
    requires
        forall|i: int| 0 <= i < m.len() ==> #[trigger] m[i] != '+',
    ensures
        text::parts_of(m + seq!['+'] + t, '+') == seq![m] + text::parts_of(t, '+'),
{
    let s = m + seq!['+'] + t;
    assert forall|i: int| 0 <= i < m.len() implies #[trigger] s[i] != '+' by {
        assert(s[i] == m[i]);
    }
    lemma_find_is(s, '+', m.len() as int);
    assert(s.take(m.len() as int) =~= m);
    assert(s.skip(m.len() as int + 1) =~= t);
}

/// A modifier key in front of a combination is held in addition.
pub proof fn lemma_modifier_in_front(m: Seq<char>, t: Seq<char>)
    requires
        t.len() > 0,
        forall|i: int| 0 <= i < m.len() ==> #[trigger] m[i] != '+',
    ensures
        keybindings::combination(m + seq!['+'] + t) == (
            seq![m] + keybindings::combination(t).0,
            keybindings::combination(t).1,
        ),
{
    lemma_first_part(m, t);
    text::lemma_find_from(t, '+', 0);
    let p = text::parts_of(t, '+');
    let q = text::parts_of(m + seq!['+'] + t, '+');
    assert(p.len() >= 1);
    assert(q.last() == p.last());
    if p.len() == 1 {
        let i = text::find_from(t, '+', 0);
        if i < t.len() {
            assert(text::parts_of(t.skip(i + 1), '+').len() >= 1);
        }
        assert(p =~= seq![t]);
        assert(p.last() == t);
    }
    if p.len() >= 2 && p.last().len() == 0 {
        assert(q.take(q.len() - 2) =~= seq![m] + p.take(p.len() - 2));
    } else {
        assert(q.take(q.len() - 1) =~= seq![m] + p.take(p.len() - 1));
    }
}

/// The names of the modifier keys, without the plus signs.
proof fn lemma_modifier_names()
    ensures
        "Ctrl+"@ == "Ctrl"@ + seq!['+'],
        "Alt+"@ == "Alt"@ + seq!['+'],
        "Shift+"@ == "Shift"@ + seq!['+'],
        forall|i: int| 0 <= i < "Ctrl"@.len() ==> #[trigger] "Ctrl"@[i] != '+',
        forall|i: int| 0 <= i < "Alt"@.len() ==> #[trigger] "Alt"@[i] != '+',
        forall|i: int| 0 <= i < "Shift"@.len() ==> #[trigger] "Shift"@[i] != '+',
        keybindings::names_ctrl("Ctrl"@) && !keybindings::names_alt("Ctrl"@)
            && !keybindings::names_shift("Ctrl"@),
        keybindings::names_alt("Alt"@) && !keybindings::names_ctrl("Alt"@)
            && !keybindings::names_shift("Alt"@),
        keybindings::names_shift("Shift"@) && !keybindings::names_ctrl("Shift"@)
            && !keybindings::names_alt("Shift"@),
{
    reveal_strlit("Ctrl+");
    reveal_strlit("Alt+");
    reveal_strlit("Shift+");
    reveal_strlit("Ctrl");
    reveal_strlit("Alt");
    reveal_strlit("Shift");
    reveal_strlit("ctrl");
    reveal_strlit("control");
    reveal_strlit("alt");
    reveal_strlit("shift");
    assert("Ctrl+"@ =~= "Ctrl"@ + seq!['+']);
    assert("Alt+"@ =~= "Alt"@ + seq!['+']);
    assert("Shift+"@ =~= "Shift"@ + seq!['+']);
    assert(text::ascii_lowered("Ctrl"@) =~= "ctrl"@);
    assert(text::ascii_lowered("Alt"@) =~= "alt"@);
    assert(text::ascii_lowered("Shift"@) =~= "shift"@);
    assert("ctrl"@.len() == 4 && "control"@.len() == 7 && "alt"@.len() == 3 && "shift"@.len()
        == 5);
}

/// A text that starts and ends with something else than white space is left
/// alone by trimming.
proof fn lemma_not_trimmed(s: Seq<char>)
    requires
        s.len() > 0,
        !text::is_white(s[0]),
        !text::is_white(s.last()),
    ensures
        text::trimmed(s) == s,
{
}

/// What a name in the configuration file says.
proof fn lemma_special_name(code: KeyCode)
    requires
        code is Enter || code is Tab || code is Backspace || code is Delete || code is Esc
            || code is Left || code is Right || code is Up || code is Down || code is Home
            || code is End || code is PageUp || code is PageDown || code is Insert || code
            == KeyCode::Char(' '),
    ensures
        keybindings::key_named(keybindings::key_text(code)) == Some(code),
        keybindings::key_text(code).len() > 0,
        !text::is_white(keybindings::key_text(code)[0]),
        !text::is_white(keybindings::key_text(code).last()),
        forall|i: int|
            0 <= i < keybindings::key_text(code).len() ==> #[trigger] keybindings::key_text(code)[i]
                != '+',
{
    reveal_strlit("enter");
    reveal_strlit("return");
    reveal_strlit("tab");
    reveal_strlit("backtab");
    reveal_strlit("backspace");
    reveal_strlit("delete");
    reveal_strlit("del");
    reveal_strlit("esc");
    reveal_strlit("escape");
    reveal_strlit("space");
    reveal_strlit("left");
    reveal_strlit("right");
    reveal_strlit("up");
    reveal_strlit("down");
    reveal_strlit("home");
    reveal_strlit("end");
    reveal_strlit("pageup");
    reveal_strlit("pagedown");
    reveal_strlit("insert");
    match code {
        KeyCode::Enter => {
            reveal_strlit("Enter");
            assert(text::ascii_lowered("Enter"@) =~= "enter"@);
        },
        KeyCode::Tab => {
            reveal_strlit("Tab");
            assert(text::ascii_lowered("Tab"@) =~= "tab"@);
        },
        KeyCode::Backspace => {
            reveal_strlit("Backspace");
            assert(text::ascii_lowered("Backspace"@) =~= "backspace"@);
        },
        KeyCode::Delete => {
            reveal_strlit("Delete");
            assert(text::ascii_lowered("Delete"@) =~= "delete"@);
        },
        KeyCode::Esc => {
            reveal_strlit("Esc");
            assert(text::ascii_lowered("Esc"@) =~= "esc"@);
        },
        KeyCode::Left => {
            reveal_strlit("Left");
            assert(text::ascii_lowered("Left"@) =~= "left"@);
        },
        KeyCode::Right => {
            reveal_strlit("Right");
            assert(text::ascii_lowered("Right"@) =~= "right"@);
        },
        KeyCode::Up => {
            reveal_strlit("Up");
            assert(text::ascii_lowered("Up"@) =~= "up"@);
        },
        KeyCode::Down => {
            reveal_strlit("Down");
            assert(text::ascii_lowered("Down"@) =~= "down"@);
        },
        KeyCode::Home => {
            reveal_strlit("Home");
            assert(text::ascii_lowered("Home"@) =~= "home"@);
        },
        KeyCode::End => {
            reveal_strlit("End");
            assert(text::ascii_lowered("End"@) =~= "end"@);
        },
        KeyCode::PageUp => {
            reveal_strlit("PageUp");
            assert(text::ascii_lowered("PageUp"@) =~= "pageup"@);
        },
        KeyCode::PageDown => {
            reveal_strlit("PageDown");
            assert(text::ascii_lowered("PageDown"@) =~= "pagedown"@);
        },
        KeyCode::Insert => {
            reveal_strlit("Insert");
            assert(text::ascii_lowered("Insert"@) =~= "insert"@);
        },
        KeyCode::Char(_) => {
            reveal_strlit("Space");
            assert(text::ascii_lowered("Space"@) =~= "space"@);
        },
        _ => {},
    }
}

proof fn lemma_character_name(c: char)
    requires
        !text::is_white(c),
    ensures
        keybindings::key_text(KeyCode::Char(c)) == seq![text::ascii_upper(c)],
        keybindings::key_named(seq![text::ascii_upper(c)]) == Some(
            KeyCode::Char(text::ascii_upper(c)),
        ),
        text::ascii_lower(text::ascii_upper(c)) == text::ascii_lower(c),
        !text::is_white(text::ascii_upper(c)),
        text::ascii_upper(c) == '+' <==> c == '+',
{
    reveal_strlit("enter");
    reveal_strlit("return");
    reveal_strlit("tab");
    reveal_strlit("backtab");
    reveal_strlit("backspace");
    reveal_strlit("delete");
    reveal_strlit("del");
    reveal_strlit("esc");
    reveal_strlit("escape");
    reveal_strlit("space");
    reveal_strlit("left");
    reveal_strlit("right");
    reveal_strlit("up");
    reveal_strlit("down");
    reveal_strlit("home");
    reveal_strlit("end");
    reveal_strlit("pageup");
    reveal_strlit("pagedown");
    reveal_strlit("insert");
    assert(text::ascii_lowered(seq![text::ascii_upper(c)]).len() == 1);
}

proof fn lemma_function_name(n: u8)
    requires
        1 <= n <= 12,
    ensures
        keybindings::key_named(keybindings::key_text(KeyCode::F(n))) == Some(KeyCode::F(n)),
        keybindings::key_text(KeyCode::F(n)).len() > 0,
        !text::is_white(keybindings::key_text(KeyCode::F(n))[0]),
        !text::is_white(keybindings::key_text(KeyCode::F(n)).last()),
        forall|i: int|
            0 <= i < keybindings::key_text(KeyCode::F(n)).len() ==> #[trigger] keybindings::key_text(
                KeyCode::F(n),
            )[i] != '+',
{
    reveal_strlit("F");
    reveal_strlit("enter");
    reveal_strlit("return");
    reveal_strlit("tab");
    reveal_strlit("backtab");
    reveal_strlit("backspace");
    reveal_strlit("delete");
    reveal_strlit("del");
    reveal_strlit("esc");
    reveal_strlit("escape");
    reveal_strlit("space");
    reveal_strlit("left");
    reveal_strlit("right");
    reveal_strlit("up");
    reveal_strlit("down");
    reveal_strlit("home");
    reveal_strlit("end");
    reveal_strlit("pageup");
    reveal_strlit("pagedown");
    reveal_strlit("insert");
    let d = text::decimal(n as nat);
    let t = keybindings::key_text(KeyCode::F(n));
    text::law_decimal_reads_back(n as nat, u8::MAX as nat);
    text::lemma_decimal(n as nat);
    assert(t =~= "F"@ + d);
    let lower = text::ascii_lowered(t);
    assert(lower[0] == 'f');
    assert forall|i: int| 0 <= i < d.len() implies #[trigger] lower.skip(1)[i] == d[i] by {
        assert(text::is_digit(d[i]));
        assert(t[i + 1] == d[i]);
    }
    assert(lower.skip(1) =~= d);
    assert(keybindings::named_key(lower) is None);
    assert forall|i: int| 0 <= i < t.len() implies #[trigger] t[i] != '+' && !text::is_white(
        t[i],
    ) by {
        if i > 0 {
            assert(text::is_digit(d[i - 1]));
            assert(t[i] == d[i - 1]);
        }
    }
}

/// How the name of a key is read where nothing is held.
proof fn lemma_key_alone(code: KeyCode)
    requires
        has_name(code),
    ensures
        ({
            let t = keybindings::key_text(code);
            let (mods, name) = keybindings::combination(t);
            &&& t.len() > 0 && !text::is_white(t[0]) && !text::is_white(t.last())
            &&& code is BackTab ==> mods == seq!["Shift"@] && keybindings::key_named(name) == Some(
                KeyCode::Tab,
            )
            &&& !(code is BackTab) ==> mods.len() == 0 && (keybindings::key_named(name) matches Some(
                k,
            ) && keybindings::same_key(k, code) && (k is Tab <==> code is Tab))
        }),
{
    let t = keybindings::key_text(code);
    match code {
        KeyCode::BackTab => {
            lemma_modifier_names();
            lemma_special_name(KeyCode::Tab);
            reveal_strlit("Shift+Tab");
            reveal_strlit("Shift");
            reveal_strlit("Tab");
            assert(t =~= "Shift"@ + seq!['+'] + "Tab"@);
            lemma_no_plus("Tab"@);
            lemma_modifier_in_front("Shift"@, "Tab"@);
            assert(keybindings::combination(t).0 =~= seq!["Shift"@]);
        },
        KeyCode::Char(c) => {
            if c == ' ' {
                lemma_special_name(code);
                lemma_no_plus(t);
            } else {
                lemma_character_name(c);
                if c == '+' {
                    assert(t =~= Seq::<char>::empty() + seq!['+'] + Seq::<char>::empty());
                    lemma_first_part(Seq::empty(), Seq::empty());
                    lemma_no_plus(Seq::empty());
                } else {
                    lemma_no_plus(t);
                }
            }
        },
        KeyCode::F(n) => {
            lemma_function_name(n);
            lemma_no_plus(t);
        },
        _ => {
            lemma_special_name(code);
            lemma_no_plus(t);
        },
    }
}

/// What is written for a combination is read as the same combination, but for
/// the case of a letter.
pub proof fn law_written_combination_is_read_back(k: KeyBinding)
    requires
        has_text(k),
    ensures
        keybindings::binding_of(k.written()) matches Ok(b) && alike(b, k),
{
    lemma_modifier_names();
    lemma_key_alone(k.code);
    let t = keybindings::key_text(k.code);
    let (mods0, name) = keybindings::combination(t);
    let plus = seq!['+'];
    let t1 = if k.shift {
        "Shift"@ + plus + t
    } else {
        t
    };
    let t2 = if k.alt {
        "Alt"@ + plus + t1
    } else {
        t1
    };
    let t3 = if k.ctrl {
        "Ctrl"@ + plus + t2
    } else {
        t2
    };
    if k.shift {
        lemma_modifier_in_front("Shift"@, t);
    }
    if k.alt {
        lemma_modifier_in_front("Alt"@, t1);
    }
    if k.ctrl {
        lemma_modifier_in_front("Ctrl"@, t2);
    }
    assert(k.written() =~= t3);
    reveal_strlit("Ctrl");
    reveal_strlit("Alt");
    reveal_strlit("Shift");
    assert(t3.last() == t.last());
    assert(!text::is_white(t3[0]));
    lemma_not_trimmed(t3);
    let mods = keybindings::combination(t3).0;
    let held = (if k.ctrl {
        seq!["Ctrl"@]
    } else {
        Seq::empty()
    }) + (if k.alt {
        seq!["Alt"@]
    } else {
        Seq::empty()
    }) + (if k.shift {
        seq!["Shift"@]
    } else {
        Seq::empty()
    });
    assert(mods =~= held + mods0);
    lemma_held(k, mods, mods0);
    let b = keybindings::binding_of(k.written())->Ok_0;
    assert(keybindings::binding_of(k.written()) is Ok);
    assert(b.ctrl == k.ctrl && b.alt == k.alt && b.shift == k.shift);
    assert(keybindings::same_key(b.code, k.code));
    assert forall|code: KeyCode, ctrl: bool, alt: bool, shift: bool| #[trigger]
        b.fits(code, ctrl, alt, shift) == k.fits(code, ctrl, alt, shift) by {}
}

/// Which modifier keys the names in front of a key stand for.
proof fn lemma_held(k: KeyBinding, mods: Seq<Seq<char>>, more: Seq<Seq<char>>)
    requires
        more.len() == 0 || (more == seq!["Shift"@] && !k.shift),
        mods == (if k.ctrl {
            seq!["Ctrl"@]
        } else {
            Seq::empty()
        }) + (if k.alt {
            seq!["Alt"@]
        } else {
            Seq::empty()
        }) + (if k.shift {
            seq!["Shift"@]
        } else {
            Seq::empty()
        }) + more,
    ensures
        keybindings::unknown_modifier(mods, 0) == mods.len(),
        (exists|i: int| 0 <= i < mods.len() && keybindings::names_ctrl(#[trigger] mods[i]))
            == k.ctrl,
        (exists|i: int| 0 <= i < mods.len() && keybindings::names_alt(#[trigger] mods[i])) == k.alt,
        (exists|i: int| 0 <= i < mods.len() && keybindings::names_shift(#[trigger] mods[i])) == (
        k.shift || more.len() > 0),
{
    lemma_modifier_names();
    reveal_with_fuel(keybindings::unknown_modifier, 5);
    let c: int = if k.ctrl {
        1
    } else {
        0
    };
    let a: int = if k.alt {
        c + 1
    } else {
        c
    };
    if k.ctrl {
        assert(mods[0] == "Ctrl"@);
    }
    if k.alt {
        assert(mods[c] == "Alt"@);
    }
    if k.shift || more.len() > 0 {
        assert(mods[a] == "Shift"@);
    }
}

/// A combination that was saved in the configuration file is the one that is
/// in use after the file has been read, whatever was in use before.
pub proof fn law_saved_combination_is_used(k: KeyBinding, saved: Option<String>, before: KeyBinding)
    requires
        has_text(k),
        saved matches Some(s) && s@ == k.written(),
    ensures
        alike(keybindings::configured(saved, before), k),
{
    law_written_combination_is_read_back(k);
}

/// The rows of the table with another combination in one of them.
pub open spec fn row_set(rows: Seq<RowView>, i: int, k: KeyBinding) -> Seq<RowView> {
    rows.update(i, RowView { binding: k, ..rows[i] })
}

proof fn lemma_set_global(b: KeyBindings, i: usize, k: KeyBinding)
    requires
        0 <= i < 12,
    ensures
        connect::with_row(b, i, k).rows() == row_set(b.rows(), i as int, k),
{
    reveal_strlit("global");
    reveal_strlit("connect");
    reveal_strlit("browser");
    reveal_strlit("quit");
    reveal_strlit("new_tab");
    reveal_strlit("close");
    reveal_strlit("split_horizontal");
    reveal_strlit("split_vertical");
    reveal_strlit("focus_left");
    reveal_strlit("focus_right");
    reveal_strlit("focus_up");
    reveal_strlit("focus_down");
    reveal_strlit("zoom");
    reveal_strlit("prev_tab");
    reveal_strlit("next_tab");
    assert("global"@.len() == 6);
    assert("connect"@.len() == 7);
    assert("browser"@.len() == 7);
    assert("connect"@[0] != "browser"@[0]);
    assert("quit"@.len() == 4);
    assert("new_tab"@.len() == 7);
    assert("close"@.len() == 5);
    assert("split_horizontal"@.len() == 16);
    assert("split_vertical"@.len() == 14);
    assert("focus_left"@.len() == 10);
    assert("focus_right"@.len() == 11);
    assert("focus_up"@.len() == 8);
    assert("focus_down"@.len() == 10);
    assert("zoom"@.len() == 4);
    assert("prev_tab"@.len() == 8);
    assert("next_tab"@.len() == 8);
    assert("focus_left"@[6] != "focus_down"@[6]);
    assert("quit"@[0] != "zoom"@[0]);
    assert("focus_up"@[0] != "prev_tab"@[0]);
    assert("focus_up"@[0] != "next_tab"@[0]);
    assert("prev_tab"@[0] != "next_tab"@[0]);
    if i == 0 {
        let n = KeyBindings { global: GlobalBindings { quit: k, ..b.global }, ..b };
        assert(b.rows()[i as int].group == "global"@ && b.rows()[i as int].field == "quit"@);
        assert(connect::with_row(b, i, k) == n);
        assert(n.rows() =~= row_set(b.rows(), i as int, k));
    } else if i == 1 {
        let n = KeyBindings { global: GlobalBindings { new_tab: k, ..b.global }, ..b };
        assert(b.rows()[i as int].group == "global"@ && b.rows()[i as int].field == "new_tab"@);
        assert(connect::with_row(b, i, k) == n);
        assert(n.rows() =~= row_set(b.rows(), i as int, k));
    } else if i == 2 {
        let n = KeyBindings { global: GlobalBindings { close: k, ..b.global }, ..b };
        assert(b.rows()[i as int].group == "global"@ && b.rows()[i as int].field == "close"@);
        assert(connect::with_row(b, i, k) == n);
        assert(n.rows() =~= row_set(b.rows(), i as int, k));
    } else if i == 3 {
        let n = KeyBindings { global: GlobalBindings { split_horizontal: k, ..b.global }, ..b };
        assert(b.rows()[i as int].group == "global"@ && b.rows()[i as int].field == "split_horizontal"@);
        assert(connect::with_row(b, i, k) == n);
        assert(n.rows() =~= row_set(b.rows(), i as int, k));
    } else if i == 4 {
        let n = KeyBindings { global: GlobalBindings { split_vertical: k, ..b.global }, ..b };
        assert(b.rows()[i as int].group == "global"@ && b.rows()[i as int].field == "split_vertical"@);
        assert(connect::with_row(b, i, k) == n);
        assert(n.rows() =~= row_set(b.rows(), i as int, k));
    } else if i == 5 {
        let n = KeyBindings { global: GlobalBindings { focus_left: k, ..b.global }, ..b };
        assert(b.rows()[i as int].group == "global"@ && b.rows()[i as int].field == "focus_left"@);
        assert(connect::with_row(b, i, k) == n);
        assert(n.rows() =~= row_set(b.rows(), i as int, k));
    } else if i == 6 {
        let n = KeyBindings { global: GlobalBindings { focus_right: k, ..b.global }, ..b };
        assert(b.rows()[i as int].group == "global"@ && b.rows()[i as int].field == "focus_right"@);
        assert(connect::with_row(b, i, k) == n);
        assert(n.rows() =~= row_set(b.rows(), i as int, k));
    } else if i == 7 {
        let n = KeyBindings { global: GlobalBindings { focus_up: k, ..b.global }, ..b };
        assert(b.rows()[i as int].group == "global"@ && b.rows()[i as int].field == "focus_up"@);
        assert(connect::with_row(b, i, k) == n);
        assert(n.rows() =~= row_set(b.rows(), i as int, k));
    } else if i == 8 {
        let n = KeyBindings { global: GlobalBindings { focus_down: k, ..b.global }, ..b };
        assert(b.rows()[i as int].group == "global"@ && b.rows()[i as int].field == "focus_down"@);
        assert(connect::with_row(b, i, k) == n);
        assert(n.rows() =~= row_set(b.rows(), i as int, k));
    } else if i == 9 {
        let n = KeyBindings { global: GlobalBindings { zoom: k, ..b.global }, ..b };
        assert(b.rows()[i as int].group == "global"@ && b.rows()[i as int].field == "zoom"@);
        assert(connect::with_row(b, i, k) == n);
        assert(n.rows() =~= row_set(b.rows(), i as int, k));
    } else if i == 10 {
        let n = KeyBindings { global: GlobalBindings { prev_tab: k, ..b.global }, ..b };
        assert(b.rows()[i as int].group == "global"@ && b.rows()[i as int].field == "prev_tab"@);
        assert(connect::with_row(b, i, k) == n);
        assert(n.rows() =~= row_set(b.rows(), i as int, k));
    } else if i == 11 {
        let n = KeyBindings { global: GlobalBindings { next_tab: k, ..b.global }, ..b };
        assert(b.rows()[i as int].group == "global"@ && b.rows()[i as int].field == "next_tab"@);
        assert(connect::with_row(b, i, k) == n);
        assert(n.rows() =~= row_set(b.rows(), i as int, k));
    }
}

proof fn lemma_set_connect(b: KeyBindings, i: usize, k: KeyBinding)
    requires
        12 <= i < 18,
    ensures
        connect::with_row(b, i, k).rows() == row_set(b.rows(), i as int, k),
{
    reveal_strlit("global");
    reveal_strlit("connect");
    reveal_strlit("browser");
    reveal_strlit("select_prev");
    reveal_strlit("select_next");
    reveal_strlit("browser_menu");
    reveal_strlit("manual_connect");
    reveal_strlit("help");
    assert("global"@.len() == 6);
    assert("connect"@.len() == 7);
    assert("browser"@.len() == 7);
    assert("connect"@[0] != "browser"@[0]);
    assert("select_prev"@.len() == 11);
    assert("select_next"@.len() == 11);
    assert("browser_menu"@.len() == 12);
    assert("manual_connect"@.len() == 14);
    assert("help"@.len() == 4);
    assert("select_prev"@[7] != "select_next"@[7]);
    if i == 12 {
        let n = KeyBindings { connect: ConnectBindings { select_prev: k, ..b.connect }, ..b };
        assert(b.rows()[i as int].group == "connect"@ && b.rows()[i as int].field == "select_prev"@);
        assert(connect::with_row(b, i, k) == n);
        assert(n.rows() =~= row_set(b.rows(), i as int, k));
    } else if i == 13 {
        let n = KeyBindings { connect: ConnectBindings { select_next: k, ..b.connect }, ..b };
        assert(b.rows()[i as int].group == "connect"@ && b.rows()[i as int].field == "select_next"@);
        assert(connect::with_row(b, i, k) == n);
        assert(n.rows() =~= row_set(b.rows(), i as int, k));
    } else if i == 14 {
        let n = KeyBindings { connect: ConnectBindings { connect: k, ..b.connect }, ..b };
        assert(b.rows()[i as int].group == "connect"@ && b.rows()[i as int].field == "connect"@);
        assert(connect::with_row(b, i, k) == n);
        assert(n.rows() =~= row_set(b.rows(), i as int, k));
    } else if i == 15 {
        let n = KeyBindings { connect: ConnectBindings { browser_menu: k, ..b.connect }, ..b };
        assert(b.rows()[i as int].group == "connect"@ && b.rows()[i as int].field == "browser_menu"@);
        assert(connect::with_row(b, i, k) == n);
        assert(n.rows() =~= row_set(b.rows(), i as int, k));
    } else if i == 16 {
        let n = KeyBindings { connect: ConnectBindings { manual_connect: k, ..b.connect }, ..b };
        assert(b.rows()[i as int].group == "connect"@ && b.rows()[i as int].field == "manual_connect"@);
        assert(connect::with_row(b, i, k) == n);
        assert(n.rows() =~= row_set(b.rows(), i as int, k));
    } else if i == 17 {
        let n = KeyBindings { connect: ConnectBindings { help: k, ..b.connect }, ..b };
        assert(b.rows()[i as int].group == "connect"@ && b.rows()[i as int].field == "help"@);
        assert(connect::with_row(b, i, k) == n);
        assert(n.rows() =~= row_set(b.rows(), i as int, k));
    }
}

proof fn lemma_set_browser(b: KeyBindings, i: usize, k: KeyBinding)
    requires
        18 <= i < 28,
    ensures
        connect::with_row(b, i, k).rows() == row_set(b.rows(), i as int, k),
{
    reveal_strlit("global");
    reveal_strlit("connect");
    reveal_strlit("browser");
    reveal_strlit("toggle_focus");
    reveal_strlit("navigate_up");
    reveal_strlit("navigate_down");
    reveal_strlit("scroll_left");
    reveal_strlit("scroll_right");
    reveal_strlit("enter");
    reveal_strlit("enter_or_transfer");
    reveal_strlit("go_up");
    reveal_strlit("transfer");
    reveal_strlit("delete");
    assert("global"@.len() == 6);
    assert("connect"@.len() == 7);
    assert("browser"@.len() == 7);
    assert("connect"@[0] != "browser"@[0]);
    assert("toggle_focus"@.len() == 12);
    assert("navigate_up"@.len() == 11);
    assert("navigate_down"@.len() == 13);
    assert("scroll_left"@.len() == 11);
    assert("scroll_right"@.len() == 12);
    assert("enter"@.len() == 5);
    assert("enter_or_transfer"@.len() == 17);
    assert("go_up"@.len() == 5);
    assert("transfer"@.len() == 8);
    assert("delete"@.len() == 6);
    assert("navigate_up"@[0] != "scroll_left"@[0]);
    assert("toggle_focus"@[0] != "scroll_right"@[0]);
    assert("enter"@[0] != "go_up"@[0]);
    if i == 18 {
        let n = KeyBindings { browser: BrowserBindings { toggle_focus: k, ..b.browser }, ..b };
        assert(b.rows()[i as int].group == "browser"@ && b.rows()[i as int].field == "toggle_focus"@);
        assert(connect::with_row(b, i, k) == n);
        assert(n.rows() =~= row_set(b.rows(), i as int, k));
    } else if i == 19 {
        let n = KeyBindings { browser: BrowserBindings { navigate_up: k, ..b.browser }, ..b };
        assert(b.rows()[i as int].group == "browser"@ && b.rows()[i as int].field == "navigate_up"@);
        assert(connect::with_row(b, i, k) == n);
        assert(n.rows() =~= row_set(b.rows(), i as int, k));
    } else if i == 20 {
        let n = KeyBindings { browser: BrowserBindings { navigate_down: k, ..b.browser }, ..b };
        assert(b.rows()[i as int].group == "browser"@ && b.rows()[i as int].field == "navigate_down"@);
        assert(connect::with_row(b, i, k) == n);
        assert(n.rows() =~= row_set(b.rows(), i as int, k));
    } else if i == 21 {
        let n = KeyBindings { browser: BrowserBindings { scroll_left: k, ..b.browser }, ..b };
        assert(b.rows()[i as int].group == "browser"@ && b.rows()[i as int].field == "scroll_left"@);
        assert(connect::with_row(b, i, k) == n);
        assert(n.rows() =~= row_set(b.rows(), i as int, k));
    } else if i == 22 {
        let n = KeyBindings { browser: BrowserBindings { scroll_right: k, ..b.browser }, ..b };
        assert(b.rows()[i as int].group == "browser"@ && b.rows()[i as int].field == "scroll_right"@);
        assert(connect::with_row(b, i, k) == n);
        assert(n.rows() =~= row_set(b.rows(), i as int, k));
    } else if i == 23 {
        let n = KeyBindings { browser: BrowserBindings { enter: k, ..b.browser }, ..b };
        assert(b.rows()[i as int].group == "browser"@ && b.rows()[i as int].field == "enter"@);
        assert(connect::with_row(b, i, k) == n);
        assert(n.rows() =~= row_set(b.rows(), i as int, k));
    } else if i == 24 {
        let n = KeyBindings { browser: BrowserBindings { enter_or_transfer: k, ..b.browser }, ..b };
        assert(b.rows()[i as int].group == "browser"@ && b.rows()[i as int].field == "enter_or_transfer"@);
        assert(connect::with_row(b, i, k) == n);
        assert(n.rows() =~= row_set(b.rows(), i as int, k));
    } else if i == 25 {
        let n = KeyBindings { browser: BrowserBindings { go_up: k, ..b.browser }, ..b };
        assert(b.rows()[i as int].group == "browser"@ && b.rows()[i as int].field == "go_up"@);
        assert(connect::with_row(b, i, k) == n);
        assert(n.rows() =~= row_set(b.rows(), i as int, k));
    } else if i == 26 {
        let n = KeyBindings { browser: BrowserBindings { transfer: k, ..b.browser }, ..b };
        assert(b.rows()[i as int].group == "browser"@ && b.rows()[i as int].field == "transfer"@);
        assert(connect::with_row(b, i, k) == n);
        assert(n.rows() =~= row_set(b.rows(), i as int, k));
    } else if i == 27 {
        let n = KeyBindings { browser: BrowserBindings { delete: k, ..b.browser }, ..b };
        assert(b.rows()[i as int].group == "browser"@ && b.rows()[i as int].field == "delete"@);
        assert(connect::with_row(b, i, k) == n);
        assert(n.rows() =~= row_set(b.rows(), i as int, k));
    }
}

/// Setting the binding that a row of the table names changes that row and no
/// other. So no two rows name the same binding, and every row names one.
pub proof fn law_setting_changes_one_row(b: KeyBindings, i: usize, k: KeyBinding)
    requires
        0 <= i < b.rows().len(),
    ensures
        connect::with_row(b, i, k).rows() == row_set(b.rows(), i as int, k),
{
    if i < 12 {
        lemma_set_global(b, i, k);
    } else if i < 18 {
        lemma_set_connect(b, i, k);
    } else {
        lemma_set_browser(b, i, k);
    }
}

/// A configuration file that gives no text, or one that stands for no
/// combination, leaves a binding as it is.
pub proof fn law_bad_text_changes_nothing(given: Option<String>, before: KeyBinding)
    requires
        given matches Some(s) ==> keybindings::binding_of(s@) is Err,
    ensures
        keybindings::configured(given, before) == before,
{
}

/// An empty configuration file leaves every binding as it is.
pub proof fn law_empty_configuration_changes_nothing(d: KeyBindings)
    ensures
        keybindings::global_configured(None, d.global) == d.global,
        keybindings::connect_configured(None, d.connect) == d.connect,
        keybindings::browser_configured(None, d.browser) == d.browser,
{
}

} // verus!
