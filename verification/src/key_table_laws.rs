//! What the names of keys and the rows of the table of combinations stand for.
use vstd::prelude::*;
use crate::binding_laws;
use crate::event::KeyCode;
use crate::keybindings;
use crate::keybindings::{
    BrowserBindings, ConnectBindings, GlobalBindings, KeyBinding, KeyBindings, RawBrowser,
    RawConnect, RawGlobal, RowView,
};
use crate::text;

verus! {

// ---------------------------------------------------------------------------
// Names
// ---------------------------------------------------------------------------

/// The name of a key, in whatever case, stands for the key that it names.
pub proof fn law_names_stand_for_their_keys(s: Seq<char>)
    ensures
        text::ascii_lowered(s) == "enter"@ ==> keybindings::key_named(s) == Some(KeyCode::Enter),
        text::ascii_lowered(s) == "return"@ ==> keybindings::key_named(s) == Some(KeyCode::Enter),
        text::ascii_lowered(s) == "tab"@ ==> keybindings::key_named(s) == Some(KeyCode::Tab),
        text::ascii_lowered(s) == "backtab"@ ==> keybindings::key_named(s) == Some(KeyCode::BackTab),
        text::ascii_lowered(s) == "backspace"@ ==> keybindings::key_named(s) == Some(KeyCode::Backspace),
        text::ascii_lowered(s) == "delete"@ ==> keybindings::key_named(s) == Some(KeyCode::Delete),
        text::ascii_lowered(s) == "del"@ ==> keybindings::key_named(s) == Some(KeyCode::Delete),
        text::ascii_lowered(s) == "esc"@ ==> keybindings::key_named(s) == Some(KeyCode::Esc),
        text::ascii_lowered(s) == "escape"@ ==> keybindings::key_named(s) == Some(KeyCode::Esc),
        text::ascii_lowered(s) == "left"@ ==> keybindings::key_named(s) == Some(KeyCode::Left),
        text::ascii_lowered(s) == "right"@ ==> keybindings::key_named(s) == Some(KeyCode::Right),
        text::ascii_lowered(s) == "up"@ ==> keybindings::key_named(s) == Some(KeyCode::Up),
        text::ascii_lowered(s) == "down"@ ==> keybindings::key_named(s) == Some(KeyCode::Down),
        text::ascii_lowered(s) == "home"@ ==> keybindings::key_named(s) == Some(KeyCode::Home),
        text::ascii_lowered(s) == "end"@ ==> keybindings::key_named(s) == Some(KeyCode::End),
        text::ascii_lowered(s) == "pageup"@ ==> keybindings::key_named(s) == Some(KeyCode::PageUp),
        text::ascii_lowered(s) == "pagedown"@ ==> keybindings::key_named(s) == Some(KeyCode::PageDown),
        text::ascii_lowered(s) == "insert"@ ==> keybindings::key_named(s) == Some(KeyCode::Insert),
        text::ascii_lowered(s) == "space"@ ==> keybindings::key_named(s) == Some(KeyCode::Char(' ')),
{
    reveal_strlit("enter");
    reveal_strlit("return");
    reveal_strlit("tab");
    reveal_strlit("backtab");
    reveal_strlit("backspace");
    reveal_strlit("delete");
    reveal_strlit("del");
    reveal_strlit("esc");
    reveal_strlit("escape");
    reveal_strlit("left");
    reveal_strlit("right");
    reveal_strlit("up");
    reveal_strlit("down");
    reveal_strlit("home");
    reveal_strlit("end");
    reveal_strlit("pageup");
    reveal_strlit("pagedown");
    reveal_strlit("insert");
    reveal_strlit("space");
}

/// The function keys are named by their number.
pub proof fn law_function_keys_are_named_by_number(n: nat)
    requires
        1 <= n <= 12,
    ensures
        keybindings::key_named(seq!['F'] + text::decimal(n)) == Some(KeyCode::F(n as u8)),
        keybindings::key_named(seq!['f'] + text::decimal(n)) == Some(KeyCode::F(n as u8)),
        keybindings::key_text(KeyCode::F(n as u8)) == seq!['F'] + text::decimal(n),
{
    reveal_strlit("F");
    assert("F"@ =~= seq!['F']);
    assert((seq!['F'] + text::decimal(n)).skip(1) =~= text::decimal(n));
    assert((seq!['f'] + text::decimal(n)).skip(1) =~= text::decimal(n));
    lemma_function_name(seq!['F'] + text::decimal(n), n);
    lemma_function_name(seq!['f'] + text::decimal(n), n);
}

proof fn lemma_function_name(s: Seq<char>, n: nat)
    requires
        1 <= n <= 12,
        s.len() > 0,
        s[0] == 'F' || s[0] == 'f',
        s.skip(1) == text::decimal(n),
    ensures
        keybindings::key_named(s) == Some(KeyCode::F(n as u8)),
{
    reveal_strlit("enter");
    reveal_strlit("return");
    reveal_strlit("tab");
    reveal_strlit("backtab");
    reveal_strlit("backspace");
    reveal_strlit("delete");
    reveal_strlit("del");
    reveal_strlit("esc");
    reveal_strlit("escape");
    reveal_strlit("left");
    reveal_strlit("right");
    reveal_strlit("up");
    reveal_strlit("down");
    reveal_strlit("home");
    reveal_strlit("end");
    reveal_strlit("pageup");
    reveal_strlit("pagedown");
    reveal_strlit("insert");
    reveal_strlit("space");
    let d = text::decimal(n);
    let lower = text::ascii_lowered(s);
    text::lemma_decimal(n);
    text::law_decimal_reads_back(n, u8::MAX as nat);
    assert forall|i: int| 0 <= i < d.len() implies lower[i + 1] == d[i] by {
        assert(s[i + 1] == s.skip(1)[i]);
        assert(text::is_digit(d[i]));
    }
    assert(lower.skip(1) =~= d);
    assert(lower[0] == 'f');
    assert(text::is_digit(lower[1])) by {
        assert(text::is_digit(d[0]));
    }
}

/// A single character stands for itself.
pub proof fn law_characters_stand_for_themselves(c: char)
    ensures
        keybindings::key_named(seq![c]) == Some(KeyCode::Char(c)),
{
    reveal_strlit("enter");
    reveal_strlit("return");
    reveal_strlit("tab");
    reveal_strlit("backtab");
    reveal_strlit("backspace");
    reveal_strlit("delete");
    reveal_strlit("del");
    reveal_strlit("esc");
    reveal_strlit("escape");
    reveal_strlit("left");
    reveal_strlit("right");
    reveal_strlit("up");
    reveal_strlit("down");
    reveal_strlit("home");
    reveal_strlit("end");
    reveal_strlit("pageup");
    reveal_strlit("pagedown");
    reveal_strlit("insert");
    reveal_strlit("space");
    assert(text::ascii_lowered(seq![c]).len() == 1);
}

/// The arrow keys are shown as arrows, and every other key as it is written.
pub proof fn law_arrow_keys_are_shown_as_arrows(k: KeyBinding)
    ensures
        k.code is Left ==> k.shown().last() == '\u{2190}',
        k.code is Up ==> k.shown().last() == '\u{2191}',
        k.code is Right ==> k.shown().last() == '\u{2192}',
        k.code is Down ==> k.shown().last() == '\u{2193}',
        !(k.code is Left || k.code is Up || k.code is Right || k.code is Down) ==> k.shown()
            == k.written(),
{
    reveal_strlit("\u{2190}");
    reveal_strlit("\u{2191}");
    reveal_strlit("\u{2192}");
    reveal_strlit("\u{2193}");
}

// ---------------------------------------------------------------------------
// Modifier keys
// ---------------------------------------------------------------------------

/// The combination that a text stands for, with more modifier keys held.
pub open spec fn held_too(k: KeyBinding, ctrl: bool, alt: bool, shift: bool) -> KeyBinding {
    let all = KeyBinding {
        code: k.code,
        ctrl: k.ctrl || ctrl,
        alt: k.alt || alt,
        shift: k.shift || shift,
    };
    if shift && k.code is Tab {
        KeyBinding { code: KeyCode::BackTab, shift: false, ..all }
    } else {
        all
    }
}

/// The name of a modifier key and a plus sign in front of a combination say that it is
/// held in addition. With shift the tab key is the key for going back.
pub proof fn law_modifiers_are_held(m: Seq<char>, t: Seq<char>, k: KeyBinding)
    requires
        t.len() > 0,
        !text::is_white(t[0]),
        !text::is_white(t.last()),
        keybindings::binding_of(t) == Ok::<KeyBinding, Seq<char>>(k),
        !(k.code is BackTab),
    ensures
        text::ascii_lowered(m) == "ctrl"@ ==> keybindings::binding_of(m + seq!['+'] + t) == Ok::<
            KeyBinding,
            Seq<char>,
        >(held_too(k, true, false, false)),
        text::ascii_lowered(m) == "control"@ ==> keybindings::binding_of(m + seq!['+'] + t) == Ok::<
            KeyBinding,
            Seq<char>,
        >(held_too(k, true, false, false)),
        text::ascii_lowered(m) == "alt"@ ==> keybindings::binding_of(m + seq!['+'] + t) == Ok::<
            KeyBinding,
            Seq<char>,
        >(held_too(k, false, true, false)),
        text::ascii_lowered(m) == "shift"@ ==> keybindings::binding_of(m + seq!['+'] + t) == Ok::<
            KeyBinding,
            Seq<char>,
        >(held_too(k, false, false, true)),
{
    reveal_strlit("ctrl");
    reveal_strlit("control");
    reveal_strlit("alt");
    reveal_strlit("shift");
    let l = text::ascii_lowered(m);
    assert("ctrl"@.len() == 4 && "control"@.len() == 7 && "alt"@.len() == 3 && "shift"@.len() == 5);
    if l == "ctrl"@ || l == "control"@ || l == "alt"@ || l == "shift"@ {
        lemma_held(m, t, k);
    }
}

proof fn lemma_held(m: Seq<char>, t: Seq<char>, k: KeyBinding)
    requires
        t.len() > 0,
        !text::is_white(t[0]),
        !text::is_white(t.last()),
        keybindings::binding_of(t) == Ok::<KeyBinding, Seq<char>>(k),
        !(k.code is BackTab),
        keybindings::names_ctrl(m) || keybindings::names_alt(m) || keybindings::names_shift(m),
    ensures
        keybindings::binding_of(m + seq!['+'] + t) == Ok::<KeyBinding, Seq<char>>(
            held_too(
                k,
                keybindings::names_ctrl(m),
                keybindings::names_alt(m),
                keybindings::names_shift(m),
            ),
        ),
{
    reveal_strlit("ctrl");
    reveal_strlit("control");
    reveal_strlit("alt");
    reveal_strlit("shift");
    let s = m + seq!['+'] + t;
    let l = text::ascii_lowered(m);
    assert(m.len() == l.len());
    assert forall|i: int| 0 <= i < m.len() implies #[trigger] m[i] != '+' && !text::is_white(
        m[i],
    ) by {
        assert(l[i] == text::ascii_lower(m[i]));
        assert('a' <= l[i] <= 'z');
    }
    assert(s[0] == m[0]);
    assert(s.last() == t.last());
    assert(text::trimmed(s) == s);
    assert(text::trimmed(t) == t);
    binding_laws::lemma_modifier_in_front(m, t);
    let (mods, name) = keybindings::combination(t);
    let all = keybindings::combination(s).0;
    assert(all == seq![m] + mods);
    assert(all[0] == m);
    assert forall|i: int| 0 <= i < mods.len() implies #[trigger] all[i + 1] == mods[i] by {}
    lemma_all_known(mods, 0);
    lemma_known_too(all, m, mods, 0);
    lemma_any(all, m, mods);
}

proof fn lemma_all_known(mods: Seq<Seq<char>>, i: int)
    requires
        0 <= i <= mods.len(),
        keybindings::unknown_modifier(mods, i) >= mods.len(),
    ensures
        forall|j: int|
            i <= j < mods.len() ==> keybindings::names_ctrl(#[trigger] mods[j])
                || keybindings::names_alt(mods[j]) || keybindings::names_shift(mods[j]),
    decreases mods.len() - i,
{
    if i < mods.len() {
        lemma_all_known(mods, i + 1);
    }
}

proof fn lemma_known_too(all: Seq<Seq<char>>, m: Seq<char>, mods: Seq<Seq<char>>, i: int)
    requires
        all == seq![m] + mods,
        0 <= i <= all.len(),
        keybindings::names_ctrl(m) || keybindings::names_alt(m) || keybindings::names_shift(m),
        forall|j: int|
            0 <= j < mods.len() ==> keybindings::names_ctrl(#[trigger] mods[j])
                || keybindings::names_alt(mods[j]) || keybindings::names_shift(mods[j]),
    ensures
        keybindings::unknown_modifier(all, i) == all.len(),
    decreases all.len() - i,
{
    if i < all.len() {
        if i > 0 {
            assert(all[i] == mods[i - 1]);
        }
        lemma_known_too(all, m, mods, i + 1);
    }
}

proof fn lemma_any(all: Seq<Seq<char>>, m: Seq<char>, mods: Seq<Seq<char>>)
    requires
        all == seq![m] + mods,
    ensures
        (exists|i: int| 0 <= i < all.len() && keybindings::names_ctrl(#[trigger] all[i])) == (
        keybindings::names_ctrl(m) || exists|i: int|
            0 <= i < mods.len() && keybindings::names_ctrl(#[trigger] mods[i])),
        (exists|i: int| 0 <= i < all.len() && keybindings::names_alt(#[trigger] all[i])) == (
        keybindings::names_alt(m) || exists|i: int|
            0 <= i < mods.len() && keybindings::names_alt(#[trigger] mods[i])),
        (exists|i: int| 0 <= i < all.len() && keybindings::names_shift(#[trigger] all[i])) == (
        keybindings::names_shift(m) || exists|i: int|
            0 <= i < mods.len() && keybindings::names_shift(#[trigger] mods[i])),
{
    assert(all[0] == m);
    assert forall|i: int| 0 < i < all.len() implies #[trigger] all[i] == mods[i - 1] by {}
    assert forall|i: int| 0 <= i < mods.len() implies #[trigger] mods[i] == all[i + 1] by {}
}

// ---------------------------------------------------------------------------
// The table
// ---------------------------------------------------------------------------

/// Whether a row of the table is about a combination by its name, in its section.
pub open spec fn is_row(r: RowView, group: Seq<char>, field: Seq<char>, k: KeyBinding) -> bool {
    r.group == group && r.field == field && r.binding == k
}

/// Every combination has a row with its own name, in the section that it belongs to.
pub proof fn law_rows_name_their_combinations(b: KeyBindings)
    ensures
        is_row(b.rows()[0], "global"@, "quit"@, b.global.quit),
        is_row(b.rows()[1], "global"@, "new_tab"@, b.global.new_tab),
        is_row(b.rows()[2], "global"@, "close"@, b.global.close),
        is_row(b.rows()[3], "global"@, "split_horizontal"@, b.global.split_horizontal),
        is_row(b.rows()[4], "global"@, "split_vertical"@, b.global.split_vertical),
        is_row(b.rows()[5], "global"@, "focus_left"@, b.global.focus_left),
        is_row(b.rows()[6], "global"@, "focus_right"@, b.global.focus_right),
        is_row(b.rows()[7], "global"@, "focus_up"@, b.global.focus_up),
        is_row(b.rows()[8], "global"@, "focus_down"@, b.global.focus_down),
        is_row(b.rows()[9], "global"@, "zoom"@, b.global.zoom),
        is_row(b.rows()[10], "global"@, "prev_tab"@, b.global.prev_tab),
        is_row(b.rows()[11], "global"@, "next_tab"@, b.global.next_tab),
        is_row(b.rows()[12], "connect"@, "select_prev"@, b.connect.select_prev),
        is_row(b.rows()[13], "connect"@, "select_next"@, b.connect.select_next),
        is_row(b.rows()[14], "connect"@, "connect"@, b.connect.connect),
        is_row(b.rows()[15], "connect"@, "browser_menu"@, b.connect.browser_menu),
        is_row(b.rows()[16], "connect"@, "manual_connect"@, b.connect.manual_connect),
        is_row(b.rows()[17], "connect"@, "help"@, b.connect.help),
        is_row(b.rows()[18], "browser"@, "toggle_focus"@, b.browser.toggle_focus),
        is_row(b.rows()[19], "browser"@, "navigate_up"@, b.browser.navigate_up),
        is_row(b.rows()[20], "browser"@, "navigate_down"@, b.browser.navigate_down),
        is_row(b.rows()[21], "browser"@, "scroll_left"@, b.browser.scroll_left),
        is_row(b.rows()[22], "browser"@, "scroll_right"@, b.browser.scroll_right),
        is_row(b.rows()[23], "browser"@, "enter"@, b.browser.enter),
        is_row(b.rows()[24], "browser"@, "enter_or_transfer"@, b.browser.enter_or_transfer),
        is_row(b.rows()[25], "browser"@, "go_up"@, b.browser.go_up),
        is_row(b.rows()[26], "browser"@, "transfer"@, b.browser.transfer),
        is_row(b.rows()[27], "browser"@, "delete"@, b.browser.delete),
        b.rows().len() == 28,
{
}

/// A combination of the section `global` is the one that the configuration file gives for
/// its name; without a text for it, or with one that stands for none, it is as before.
pub proof fn law_global_section_is_read(r: RawGlobal, d: GlobalBindings)
    ensures
        ({
            let c = keybindings::global_configured(Some(r), d);
            &&& is_configured(r.quit, d.quit, c.quit)
            &&& is_configured(r.new_tab, d.new_tab, c.new_tab)
            &&& is_configured(r.close, d.close, c.close)
            &&& is_configured(r.split_horizontal, d.split_horizontal, c.split_horizontal)
            &&& is_configured(r.split_vertical, d.split_vertical, c.split_vertical)
            &&& is_configured(r.focus_left, d.focus_left, c.focus_left)
            &&& is_configured(r.focus_right, d.focus_right, c.focus_right)
            &&& is_configured(r.focus_up, d.focus_up, c.focus_up)
            &&& is_configured(r.focus_down, d.focus_down, c.focus_down)
            &&& is_configured(r.zoom, d.zoom, c.zoom)
            &&& is_configured(r.prev_tab, d.prev_tab, c.prev_tab)
            &&& is_configured(r.next_tab, d.next_tab, c.next_tab)
        }),
{
}

/// A combination of the section `connect` is the one that the configuration file gives for
/// its name; without a text for it, or with one that stands for none, it is as before.
pub proof fn law_connect_section_is_read(r: RawConnect, d: ConnectBindings)
    ensures
        ({
            let c = keybindings::connect_configured(Some(r), d);
            &&& is_configured(r.select_prev, d.select_prev, c.select_prev)
            &&& is_configured(r.select_next, d.select_next, c.select_next)
            &&& is_configured(r.connect, d.connect, c.connect)
            &&& is_configured(r.browser_menu, d.browser_menu, c.browser_menu)
            &&& is_configured(r.manual_connect, d.manual_connect, c.manual_connect)
            &&& is_configured(r.help, d.help, c.help)
        }),
{
}

/// A combination of the section `browser` is the one that the configuration file gives for
/// its name; without a text for it, or with one that stands for none, it is as before.
pub proof fn law_browser_section_is_read(r: RawBrowser, d: BrowserBindings)
    ensures
        ({
            let c = keybindings::browser_configured(Some(r), d);
            &&& is_configured(r.toggle_focus, d.toggle_focus, c.toggle_focus)
            &&& is_configured(r.navigate_up, d.navigate_up, c.navigate_up)
            &&& is_configured(r.navigate_down, d.navigate_down, c.navigate_down)
            &&& is_configured(r.scroll_left, d.scroll_left, c.scroll_left)
            &&& is_configured(r.scroll_right, d.scroll_right, c.scroll_right)
            &&& is_configured(r.enter, d.enter, c.enter)
            &&& is_configured(r.enter_or_transfer, d.enter_or_transfer, c.enter_or_transfer)
            &&& is_configured(r.go_up, d.go_up, c.go_up)
            &&& is_configured(r.transfer, d.transfer, c.transfer)
            &&& is_configured(r.delete, d.delete, c.delete)
        }),
{
}

/// Whether a combination is the one that a text stands for, or else the one before.
pub open spec fn is_configured(given: Option<String>, before: KeyBinding, now: KeyBinding) -> bool {
    match given {
        Some(s) => match keybindings::binding_of(s@) {
            Ok(k) => now == k,
            Err(_) => now == before,
        },
        None => now == before,
    }
}

/// The line of a combination in the configuration file is its name and, in quotes, its
/// text. The lines of a section follow its heading.
pub proof fn law_configuration_has_a_line_for_each(rows: Seq<RowView>, n: int)
    requires
        0 <= n < rows.len(),
    ensures
        ({
            let before = keybindings::config_text(rows, n);
            let all = keybindings::config_text(rows, n + 1);
            let line = rows[n].field + seq![' ', '=', ' ', '"'] + rows[n].binding.written() + seq![
                '"',
                '\n',
            ];
            let heading = seq!['['] + rows[n].group + seq![']', '\n'];
            &&& n == 0 ==> all == heading + line
            &&& n > 0 && rows[n].group == rows[n - 1].group ==> all == before + line
            &&& n > 0 && rows[n].group != rows[n - 1].group ==> all == before + seq!['\n'] + heading
                + line
        }),
{
    reveal_strlit(" = \"");
    reveal_strlit("\"\n");
    reveal_strlit("[");
    reveal_strlit("]\n");
    reveal_strlit("\n[");
    let before = keybindings::config_text(rows, n);
    let all = keybindings::config_text(rows, n + 1);
    let line = rows[n].field + seq![' ', '=', ' ', '"'] + rows[n].binding.written() + seq![
        '"',
        '\n',
    ];
    let heading = seq!['['] + rows[n].group + seq![']', '\n'];
    assert(" = \""@ =~= seq![' ', '=', ' ', '"']);
    assert("\"\n"@ =~= seq!['"', '\n']);
    assert(line == rows[n].field + " = \""@ + rows[n].binding.written() + "\"\n"@);
    if n == 0 {
        assert(keybindings::heading_text(rows, 0) =~= heading);
        assert(keybindings::config_text(rows, 0) =~= Seq::empty());
        assert(all =~= heading + line);
    } else if rows[n].group == rows[n - 1].group {
        assert(keybindings::heading_text(rows, n) =~= Seq::empty());
        assert(all =~= before + line);
    } else {
        assert(keybindings::heading_text(rows, n) =~= seq!['\n'] + heading);
        assert(all =~= before + seq!['\n'] + heading + line);
    }
}

// ---------------------------------------------------------------------------
// What is bound at first
// ---------------------------------------------------------------------------

/// Whether a combination is that of a key with the alt key held.
pub open spec fn is_alt(k: KeyBinding, code: KeyCode) -> bool {
    k.code == code && k.alt && !k.ctrl && !k.shift
}

/// Whether a combination is that of a key alone.
pub open spec fn is_alone(k: KeyBinding, code: KeyCode) -> bool {
    k.code == code && !k.alt && !k.ctrl && !k.shift
}

/// Without a configuration, the keys for the whole application are letters, signs and
/// arrows with the alt key, and those of the panes are keys alone. The arrow keys go to
/// the sides that they show.
pub proof fn law_standard_keys()
    ensures
        ({
            let b = KeyBindings::standard();
            &&& is_alt(b.global.quit, KeyCode::Char('q'))
            &&& is_alt(b.global.new_tab, KeyCode::Char('t'))
            &&& is_alt(b.global.close, KeyCode::Char('w'))
            &&& is_alt(b.global.split_horizontal, KeyCode::Char('-'))
            &&& is_alt(b.global.split_vertical, KeyCode::Char('+'))
            &&& is_alt(b.global.focus_left, KeyCode::Left)
            &&& is_alt(b.global.focus_right, KeyCode::Right)
            &&& is_alt(b.global.focus_up, KeyCode::Up)
            &&& is_alt(b.global.focus_down, KeyCode::Down)
            &&& is_alt(b.global.zoom, KeyCode::Char('z'))
            &&& is_alt(b.global.prev_tab, KeyCode::Char('j'))
            &&& is_alt(b.global.next_tab, KeyCode::Char('k'))
            &&& is_alone(b.connect.select_prev, KeyCode::Up)
            &&& is_alone(b.connect.select_next, KeyCode::Down)
            &&& is_alone(b.connect.connect, KeyCode::Enter)
            &&& is_alone(b.connect.browser_menu, KeyCode::Char('b'))
            &&& is_alone(b.connect.manual_connect, KeyCode::Char('c'))
            &&& is_alone(b.connect.help, KeyCode::Char('h'))
            &&& is_alone(b.browser.toggle_focus, KeyCode::Tab)
            &&& is_alone(b.browser.navigate_up, KeyCode::Up)
            &&& is_alone(b.browser.navigate_down, KeyCode::Down)
            &&& is_alone(b.browser.scroll_left, KeyCode::Left)
            &&& is_alone(b.browser.scroll_right, KeyCode::Right)
            &&& is_alone(b.browser.enter, KeyCode::Enter)
            &&& is_alone(b.browser.enter_or_transfer, KeyCode::Char(' '))
            &&& is_alone(b.browser.go_up, KeyCode::Backspace)
            &&& is_alone(b.browser.transfer, KeyCode::Char('t'))
            &&& is_alone(b.browser.delete, KeyCode::Delete)
        }),
{
}

/// No two combinations of the same section are for the same key at first.
pub proof fn law_standard_keys_do_not_clash(code: KeyCode, ctrl: bool, alt: bool, shift: bool)
    ensures
        ({
            let rows = KeyBindings::standard().rows();
            forall|i: int, j: int|
                0 <= i < j < rows.len() && (#[trigger] rows[i]).group == (#[trigger] rows[j]).group
                    ==> !(rows[i].binding.fits(code, ctrl, alt, shift) && rows[j].binding.fits(
                    code,
                    ctrl,
                    alt,
                    shift,
                ))
        }),
{
    reveal_strlit("global");
    reveal_strlit("connect");
    reveal_strlit("browser");
    assert("global"@[0] == 'g' && "connect"@[0] == 'c' && "browser"@[0] == 'b');
}

} // verus!
