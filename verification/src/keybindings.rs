//! Key combinations, the table of what they do, and their text in the
//! configuration file.
use vstd::prelude::*;
use crate::event;
use crate::text;
use vstd::slice::slice_subrange;
use crate::event::{media_key_name, modifier_key_name, KeyCode};
use crate::text::{
    cat, cat3, cat4, chars_of, decimal_of, is_str, lower, lower_ascii, parse_number, same,
    split_at_char, string_of, trim, upper,
};

verus! {

// ---------------------------------------------------------------------------
// A single key combination
// ---------------------------------------------------------------------------

/// A key together with the modifier keys that are held.
#[derive(Clone, Copy, Debug, PartialEq, Eq, Structural)]
pub struct KeyBinding {
    pub code: KeyCode,
    pub ctrl: bool,
    pub alt: bool,
    pub shift: bool,
}

/// Whether two keys are the same, but for the case of ASCII letters.
pub open spec fn same_key(a: KeyCode, b: KeyCode) -> bool {
    match (a, b) {
        (KeyCode::Char(x), KeyCode::Char(y)) => text::ascii_lower(x) == text::ascii_lower(y),
        _ => a == b,
    }
}

fn same_key_code(a: KeyCode, b: KeyCode) -> (r: bool)
    ensures
        r == same_key(a, b),
{
    if let KeyCode::Char(x) = a {
        if let KeyCode::Char(y) = b {
            return lower(x) == lower(y);
        }
    }
    a == b
}

/// What is held with a key and which key it is, of a text in which they are
/// joined by plus signs. A text that ends in a plus sign means that key.
pub open spec fn combination(t: Seq<char>) -> (Seq<Seq<char>>, Seq<char>) {
    let parts = text::parts_of(t, '+');
    if parts.len() >= 2 && parts.last().len() == 0 {
        (parts.take(parts.len() - 2), seq!['+'])
    } else {
        (parts.take(parts.len() - 1), parts.last())
    }
}

/// Whether `m` names the control key.
pub open spec fn names_ctrl(m: Seq<char>) -> bool {
    text::ascii_lowered(m) == "ctrl"@ || text::ascii_lowered(m) == "control"@
}

/// Whether `m` names the alt key.
pub open spec fn names_alt(m: Seq<char>) -> bool {
    text::ascii_lowered(m) == "alt"@
}

/// Whether `m` names the shift key.
pub open spec fn names_shift(m: Seq<char>) -> bool {
    text::ascii_lowered(m) == "shift"@
}

/// The first name from `i` on that is not one of a modifier key, or the length.
pub open spec fn unknown_modifier(mods: Seq<Seq<char>>, i: int) -> int
    decreases mods.len() - i,
{
    if i >= mods.len() {
        mods.len() as int
    } else if names_ctrl(mods[i]) || names_alt(mods[i]) || names_shift(mods[i]) {
        unknown_modifier(mods, i + 1)
    } else {
        i
    }
}

/// The key with a name of its own that a small-letter text names.
pub open spec fn named_key(lower: Seq<char>) -> Option<KeyCode> {
    if lower == "enter"@ {
        Some(KeyCode::Enter)
    } else if lower == "return"@ {
        Some(KeyCode::Enter)
    } else if lower == "tab"@ {
        Some(KeyCode::Tab)
    } else if lower == "backtab"@ {
        Some(KeyCode::BackTab)
    } else if lower == "backspace"@ {
        Some(KeyCode::Backspace)
    } else if lower == "delete"@ {
        Some(KeyCode::Delete)
    } else if lower == "del"@ {
        Some(KeyCode::Delete)
    } else if lower == "esc"@ {
        Some(KeyCode::Esc)
    } else if lower == "escape"@ {
        Some(KeyCode::Esc)
    } else if lower == "space"@ {
        Some(KeyCode::Char(' '))
    } else if lower == "left"@ {
        Some(KeyCode::Left)
    } else if lower == "right"@ {
        Some(KeyCode::Right)
    } else if lower == "up"@ {
        Some(KeyCode::Up)
    } else if lower == "down"@ {
        Some(KeyCode::Down)
    } else if lower == "home"@ {
        Some(KeyCode::Home)
    } else if lower == "end"@ {
        Some(KeyCode::End)
    } else if lower == "pageup"@ {
        Some(KeyCode::PageUp)
    } else if lower == "pagedown"@ {
        Some(KeyCode::PageDown)
    } else if lower == "insert"@ {
        Some(KeyCode::Insert)
    } else {
        None
    }
}

/// The function key that a small-letter text names.
pub open spec fn function_key(lower: Seq<char>) -> Option<KeyCode> {
    if lower.len() >= 2 && lower[0] == 'f' {
        match text::number_of(lower.skip(1), u8::MAX as nat) {
            Some(n) => if 1 <= n <= 12 {
                Some(KeyCode::F(n as u8))
            } else {
                None
            },
            None => None,
        }
    } else {
        None
    }
}

/// The key that a text names: one with a name of its own, a function key, or
/// the key of a single character.
pub open spec fn key_named(name: Seq<char>) -> Option<KeyCode> {
    let lower = text::ascii_lowered(name);
    match named_key(lower) {
        Some(k) => Some(k),
        None => match function_key(lower) {
            Some(k) => Some(k),
            None => if name.len() == 1 {
                Some(KeyCode::Char(name[0]))
            } else {
                None
            },
        },
    }
}

/// The combination that a text stands for, or why it stands for none. Terminals
/// report shift and tab as a key of its own.
pub open spec fn binding_of(s: Seq<char>) -> Result<KeyBinding, Seq<char>> {
    let t = text::trimmed(s);
    if t.len() == 0 {
        Err("empty key string"@)
    } else {
        let (mods, name) = combination(t);
        let u = unknown_modifier(mods, 0);
        if u < mods.len() {
            Err("unknown modifier '"@ + text::ascii_lowered(mods[u]) + "'"@)
        } else {
            match key_named(name) {
                None => Err("unknown key '"@ + name + "'"@),
                Some(code) => {
                    let ctrl = exists|i: int| 0 <= i < mods.len() && names_ctrl(#[trigger] mods[i]);
                    let alt = exists|i: int| 0 <= i < mods.len() && names_alt(#[trigger] mods[i]);
                    let shift = exists|i: int|
                        0 <= i < mods.len() && names_shift(#[trigger] mods[i]);
                    if shift && code == KeyCode::Tab {
                        Ok(KeyBinding { code: KeyCode::BackTab, ctrl, alt, shift: false })
                    } else {
                        Ok(KeyBinding { code, ctrl, alt, shift })
                    }
                },
            }
        }
    }
}

/// The name of a key in the configuration file.
pub open spec fn key_text(code: KeyCode) -> Seq<char> {
    match code {
        KeyCode::Char(c) => if c == ' ' {
            "Space"@
        } else {
            seq![text::ascii_upper(c)]
        },
        KeyCode::BackTab => "Shift+Tab"@,
        KeyCode::Enter => "Enter"@,
        KeyCode::Tab => "Tab"@,
        KeyCode::Backspace => "Backspace"@,
        KeyCode::Delete => "Delete"@,
        KeyCode::Esc => "Esc"@,
        KeyCode::Left => "Left"@,
        KeyCode::Right => "Right"@,
        KeyCode::Up => "Up"@,
        KeyCode::Down => "Down"@,
        KeyCode::Home => "Home"@,
        KeyCode::End => "End"@,
        KeyCode::PageUp => "PageUp"@,
        KeyCode::PageDown => "PageDown"@,
        KeyCode::Insert => "Insert"@,
        KeyCode::Null => "Null"@,
        KeyCode::CapsLock => "CapsLock"@,
        KeyCode::ScrollLock => "ScrollLock"@,
        KeyCode::NumLock => "NumLock"@,
        KeyCode::PrintScreen => "PrintScreen"@,
        KeyCode::Pause => "Pause"@,
        KeyCode::Menu => "Menu"@,
        KeyCode::KeypadBegin => "KeypadBegin"@,
        KeyCode::F(n) => "F"@ + text::decimal(n as nat),
        KeyCode::Media(m) => "Media("@ + event::media_name(m) + ")"@,
        KeyCode::Modifier(m) => "Modifier("@ + event::modifier_name(m) + ")"@,
    }
}

/// The name of a key on the screen: arrow keys are shown as arrows.
pub open spec fn key_text_pretty(code: KeyCode) -> Seq<char> {
    match code {
        KeyCode::Left => "\u{2190}"@,
        KeyCode::Right => "\u{2192}"@,
        KeyCode::Up => "\u{2191}"@,
        KeyCode::Down => "\u{2193}"@,
        _ => key_text(code),
    }
}

/// The names of the modifier keys of a combination, each with a plus sign.
pub open spec fn modifiers_text(k: KeyBinding) -> Seq<char> {
    (if k.ctrl {
        "Ctrl+"@
    } else {
        Seq::empty()
    }) + (if k.alt {
        "Alt+"@
    } else {
        Seq::empty()
    }) + (if k.shift {
        "Shift+"@
    } else {
        Seq::empty()
    })
}

fn key_code_display(code: KeyCode) -> (r: String)
    ensures
        r@ == key_text(code),
{
    match code {
        KeyCode::Char(c) => {
            if c == ' ' {
                "Space".to_owned()
            } else {
                let mut s = String::new();
                s.push(upper(c));
                assert(s@ =~= seq![text::ascii_upper(c)]);
                s
            }
        },
        KeyCode::BackTab => "Shift+Tab".to_owned(),
        KeyCode::Enter => "Enter".to_owned(),
        KeyCode::Tab => "Tab".to_owned(),
        KeyCode::Backspace => "Backspace".to_owned(),
        KeyCode::Delete => "Delete".to_owned(),
        KeyCode::Esc => "Esc".to_owned(),
        KeyCode::Left => "Left".to_owned(),
        KeyCode::Right => "Right".to_owned(),
        KeyCode::Up => "Up".to_owned(),
        KeyCode::Down => "Down".to_owned(),
        KeyCode::Home => "Home".to_owned(),
        KeyCode::End => "End".to_owned(),
        KeyCode::PageUp => "PageUp".to_owned(),
        KeyCode::PageDown => "PageDown".to_owned(),
        KeyCode::Insert => "Insert".to_owned(),
        KeyCode::Null => "Null".to_owned(),
        KeyCode::CapsLock => "CapsLock".to_owned(),
        KeyCode::ScrollLock => "ScrollLock".to_owned(),
        KeyCode::NumLock => "NumLock".to_owned(),
        KeyCode::PrintScreen => "PrintScreen".to_owned(),
        KeyCode::Pause => "Pause".to_owned(),
        KeyCode::Menu => "Menu".to_owned(),
        KeyCode::KeypadBegin => "KeypadBegin".to_owned(),
        KeyCode::F(n) => cat("F", decimal_of(n as u64).as_str()),
        KeyCode::Media(m) => cat3("Media(", media_key_name(m), ")"),
        KeyCode::Modifier(m) => cat3("Modifier(", modifier_key_name(m), ")"),
    }
}

fn key_code_display_pretty(code: KeyCode) -> (r: String)
    ensures
        r@ == key_text_pretty(code),
{
    match code {
        KeyCode::Left => "\u{2190}".to_owned(),
        KeyCode::Right => "\u{2192}".to_owned(),
        KeyCode::Up => "\u{2191}".to_owned(),
        KeyCode::Down => "\u{2193}".to_owned(),
        _ => key_code_display(code),
    }
}

fn parse_key_name(name: &[char]) -> (r: Option<KeyCode>)
    ensures
        r == key_named(name@),
{
    let v = lower_ascii(name);
    let lower = v.as_slice();
    if is_str(lower, "enter") {
        return Some(KeyCode::Enter);
    } else if is_str(lower, "return") {
        return Some(KeyCode::Enter);
    } else if is_str(lower, "tab") {
        return Some(KeyCode::Tab);
    } else if is_str(lower, "backtab") {
        return Some(KeyCode::BackTab);
    } else if is_str(lower, "backspace") {
        return Some(KeyCode::Backspace);
    } else if is_str(lower, "delete") {
        return Some(KeyCode::Delete);
    } else if is_str(lower, "del") {
        return Some(KeyCode::Delete);
    } else if is_str(lower, "esc") {
        return Some(KeyCode::Esc);
    } else if is_str(lower, "escape") {
        return Some(KeyCode::Esc);
    } else if is_str(lower, "space") {
        return Some(KeyCode::Char(' '));
    } else if is_str(lower, "left") {
        return Some(KeyCode::Left);
    } else if is_str(lower, "right") {
        return Some(KeyCode::Right);
    } else if is_str(lower, "up") {
        return Some(KeyCode::Up);
    } else if is_str(lower, "down") {
        return Some(KeyCode::Down);
    } else if is_str(lower, "home") {
        return Some(KeyCode::Home);
    } else if is_str(lower, "end") {
        return Some(KeyCode::End);
    } else if is_str(lower, "pageup") {
        return Some(KeyCode::PageUp);
    } else if is_str(lower, "pagedown") {
        return Some(KeyCode::PageDown);
    } else if is_str(lower, "insert") {
        return Some(KeyCode::Insert);
    }
    assert(named_key(lower@) is None);
    if lower.len() >= 2 && lower[0] == 'f' {
        let digits = slice_subrange(lower, 1, lower.len());
        assert(digits@ =~= lower@.skip(1));
        if let Some(n) = parse_number(digits, u8::MAX as u64) {
            if 1 <= n && n <= 12 {
                return Some(KeyCode::F(n as u8));
            }
        }
    }
    if name.len() == 1 {
        Some(KeyCode::Char(name[0]))
    } else {
        None
    }
}

impl KeyBinding {
    /// A combination.
    pub fn new(code: KeyCode, ctrl: bool, alt: bool, shift: bool) -> (r: KeyBinding)
        ensures
            r == (KeyBinding { code, ctrl, alt, shift }),
    {
        KeyBinding { code, ctrl, alt, shift }
    }

    /// Whether this is the combination of a key event.
    pub open spec fn fits(self, code: KeyCode, ctrl: bool, alt: bool, shift: bool) -> bool {
        self.ctrl == ctrl && self.alt == alt && self.shift == shift && same_key(self.code, code)
    }

    /// Whether this is the combination of a key event.
    pub fn matches(&self, code: KeyCode, ctrl: bool, alt: bool, shift: bool) -> (r: bool)
        ensures
            r == self.fits(code, ctrl, alt, shift),
    {
        self.ctrl == ctrl && self.alt == alt && self.shift == shift && same_key_code(
            self.code,
            code,
        )
    }

    /// Whether this is the combination of a key event, whether or not shift is
    /// held. With navigation keys shift extends the selection.
    pub open spec fn fits_any_shift(self, code: KeyCode, ctrl: bool, alt: bool) -> bool {
        self.ctrl == ctrl && self.alt == alt && same_key(self.code, code)
    }

    /// Whether this is the combination of a key event, whether or not shift is
    /// held.
    pub fn matches_ignore_shift(&self, code: KeyCode, ctrl: bool, alt: bool) -> (r: bool)
        ensures
            r == self.fits_any_shift(code, ctrl, alt),
    {
        self.ctrl == ctrl && self.alt == alt && same_key_code(self.code, code)
    }

    /// Parses a text like `Alt+Q`, `Ctrl+Shift+F1` or `Enter`.
    pub fn parse(s: &str) -> (r: Result<KeyBinding, String>)
        ensures
            match r {
                Ok(k) => binding_of(s@) == Ok::<KeyBinding, Seq<char>>(k),
                Err(e) => binding_of(s@) == Err::<KeyBinding, Seq<char>>(e@),
            },
    {
        let all = chars_of(s);
        let t = trim(all.as_slice());
        if t.len() == 0 {
            return Err("empty key string".to_owned());
        }
        let parts = split_at_char(t, '+');
        let ghost ps = text::parts_of(t@, '+');
        let n: usize = parts.len();
        assert(ps.len() == n);
        assert(forall|k: int| 0 <= k < n ==> #[trigger] ps[k] == parts@[k]@);
        let plus = chars_of("+");
        proof {
            reveal_strlit("+");
            assert(plus@ =~= seq!['+']);
        }
        let at_plus = n >= 2 && parts[n - 1].len() == 0;
        let count: usize = if at_plus {
            n - 2
        } else {
            n - 1
        };
        let name: &[char] = if at_plus {
            plus.as_slice()
        } else {
            parts[n - 1]
        };
        let ghost mods = ps.take(count as int);
        assert(combination(t@) == (mods, name@));
        let mut ctrl = false;
        let mut alt = false;
        let mut shift = false;
        let mut i: usize = 0;
        while i < count
            invariant
                i <= count <= n == parts@.len(),
                text::slices(parts@) == ps,
                mods == ps.take(count as int),
                text::trimmed(s@).len() > 0,
                combination(text::trimmed(s@)) == (mods, name@),
                unknown_modifier(mods, i as int) == unknown_modifier(mods, 0),
                ctrl == exists|k: int| 0 <= k < i && names_ctrl(#[trigger] mods[k]),
                alt == exists|k: int| 0 <= k < i && names_alt(#[trigger] mods[k]),
                shift == exists|k: int| 0 <= k < i && names_shift(#[trigger] mods[k]),
            decreases count - i,
        {
            let m = lower_ascii(parts[i]);
            assert(mods[i as int] == parts@[i as int]@);
            proof {
                reveal_strlit("ctrl");
                reveal_strlit("control");
                reveal_strlit("alt");
                reveal_strlit("shift");
                assert("ctrl"@.len() == 4 && "control"@.len() == 7 && "alt"@.len() == 3
                    && "shift"@.len() == 5);
            }
            assert(m@ == text::ascii_lowered(mods[i as int]));
            if is_str(m.as_slice(), "ctrl") || is_str(m.as_slice(), "control") {
                assert(names_ctrl(mods[i as int]) && !names_alt(mods[i as int]) && !names_shift(
                    mods[i as int],
                ));
                ctrl = true;
            } else if is_str(m.as_slice(), "alt") {
                assert(names_alt(mods[i as int]) && !names_shift(mods[i as int]));
                alt = true;
            } else if is_str(m.as_slice(), "shift") {
                assert(names_shift(mods[i as int]));
                shift = true;
            } else {
                let text = string_of(m.as_slice());
                return Err(cat3("unknown modifier '", text.as_str(), "'"));
            }
            i += 1;
        }
        match parse_key_name(name) {
            None => Err(cat3("unknown key '", string_of(name).as_str(), "'")),
            Some(code) => {
                if shift && code == KeyCode::Tab {
                    Ok(KeyBinding { code: KeyCode::BackTab, ctrl, alt, shift: false })
                } else {
                    Ok(KeyBinding { code, ctrl, alt, shift })
                }
            },
        }
    }

    /// The text of the combination on the screen.
    pub open spec fn shown(self) -> Seq<char> {
        modifiers_text(self) + key_text_pretty(self.code)
    }

    /// The text of the combination in the configuration file.
    pub open spec fn written(self) -> Seq<char> {
        modifiers_text(self) + key_text(self.code)
    }

    fn modifiers(&self) -> (r: String)
        ensures
            r@ == modifiers_text(*self),
    {
        let ctrl = if self.ctrl {
            "Ctrl+".to_owned()
        } else {
            String::new()
        };
        let alt = if self.alt {
            "Alt+".to_owned()
        } else {
            String::new()
        };
        let shift = if self.shift {
            "Shift+".to_owned()
        } else {
            String::new()
        };
        cat3(ctrl.as_str(), alt.as_str(), shift.as_str())
    }

    /// Writes the combination for the screen, with arrows for arrow keys.
    pub fn to_display_string(&self) -> (r: String)
        ensures
            r@ == self.shown(),
    {
        cat(self.modifiers().as_str(), key_code_display_pretty(self.code).as_str())
    }

    /// Writes the combination for the configuration file.
    pub fn to_config_string(&self) -> (r: String)
        ensures
            r@ == self.written(),
    {
        cat(self.modifiers().as_str(), key_code_display(self.code).as_str())
    }
}

// ---------------------------------------------------------------------------
// The table of bindings
// ---------------------------------------------------------------------------

/// One row of the table of bindings.
#[derive(Debug)]
pub struct BindingEntry<'a> {
    pub group: &'static str,
    pub field: &'static str,
    pub description: &'static str,
    pub binding: &'a KeyBinding,
}

/// What a row of the table of bindings says.
#[verifier::ext_equal]
pub struct RowView {
    pub group: Seq<char>,
    pub field: Seq<char>,
    pub description: Seq<char>,
    pub binding: KeyBinding,
}

impl<'a> View for BindingEntry<'a> {
    type V = RowView;

    open spec fn view(&self) -> RowView {
        RowView {
            group: self.group@,
            field: self.field@,
            description: self.description@,
            binding: *self.binding,
        }
    }
}

/// What the rows of the table say.
pub open spec fn rows_view<'a>(v: Seq<BindingEntry<'a>>) -> Seq<RowView> {
    v.map_values(|e: BindingEntry<'a>| e@)
}

/// The combinations of the group `global`.
#[derive(Clone, Copy, Debug, PartialEq, Eq, Structural)]
pub struct GlobalBindings {
    pub quit: KeyBinding,
    pub new_tab: KeyBinding,
    pub close: KeyBinding,
    pub split_horizontal: KeyBinding,
    pub split_vertical: KeyBinding,
    pub focus_left: KeyBinding,
    pub focus_right: KeyBinding,
    pub focus_up: KeyBinding,
    pub focus_down: KeyBinding,
    pub zoom: KeyBinding,
    pub prev_tab: KeyBinding,
    pub next_tab: KeyBinding,
}

impl GlobalBindings {
    /// The combinations that are used without a configuration file.
    pub open spec fn standard() -> GlobalBindings {
        GlobalBindings {
            quit: KeyBinding { code: KeyCode::Char('q'), ctrl: false, alt: true, shift: false },
            new_tab: KeyBinding { code: KeyCode::Char('t'), ctrl: false, alt: true, shift: false },
            close: KeyBinding { code: KeyCode::Char('w'), ctrl: false, alt: true, shift: false },
            split_horizontal: KeyBinding { code: KeyCode::Char('-'), ctrl: false, alt: true, shift: false },
            split_vertical: KeyBinding { code: KeyCode::Char('+'), ctrl: false, alt: true, shift: false },
            focus_left: KeyBinding { code: KeyCode::Left, ctrl: false, alt: true, shift: false },
            focus_right: KeyBinding { code: KeyCode::Right, ctrl: false, alt: true, shift: false },
            focus_up: KeyBinding { code: KeyCode::Up, ctrl: false, alt: true, shift: false },
            focus_down: KeyBinding { code: KeyCode::Down, ctrl: false, alt: true, shift: false },
            zoom: KeyBinding { code: KeyCode::Char('z'), ctrl: false, alt: true, shift: false },
            prev_tab: KeyBinding { code: KeyCode::Char('j'), ctrl: false, alt: true, shift: false },
            next_tab: KeyBinding { code: KeyCode::Char('k'), ctrl: false, alt: true, shift: false },
        }
    }
}

impl Default for GlobalBindings {
    fn default() -> (r: GlobalBindings)
        ensures
            r == GlobalBindings::standard(),
    {
        GlobalBindings {
            quit: KeyBinding::new(KeyCode::Char('q'), false, true, false),
            new_tab: KeyBinding::new(KeyCode::Char('t'), false, true, false),
            close: KeyBinding::new(KeyCode::Char('w'), false, true, false),
            split_horizontal: KeyBinding::new(KeyCode::Char('-'), false, true, false),
            split_vertical: KeyBinding::new(KeyCode::Char('+'), false, true, false),
            focus_left: KeyBinding::new(KeyCode::Left, false, true, false),
            focus_right: KeyBinding::new(KeyCode::Right, false, true, false),
            focus_up: KeyBinding::new(KeyCode::Up, false, true, false),
            focus_down: KeyBinding::new(KeyCode::Down, false, true, false),
            zoom: KeyBinding::new(KeyCode::Char('z'), false, true, false),
            prev_tab: KeyBinding::new(KeyCode::Char('j'), false, true, false),
            next_tab: KeyBinding::new(KeyCode::Char('k'), false, true, false),
        }
    }
}

/// The group `global` of a configuration file: the texts that it gives.
#[derive(Debug)]
pub struct RawGlobal {
    pub quit: Option<String>,
    pub new_tab: Option<String>,
    pub close: Option<String>,
    pub split_horizontal: Option<String>,
    pub split_vertical: Option<String>,
    pub focus_left: Option<String>,
    pub focus_right: Option<String>,
    pub focus_up: Option<String>,
    pub focus_down: Option<String>,
    pub zoom: Option<String>,
    pub prev_tab: Option<String>,
    pub next_tab: Option<String>,
}

impl Default for RawGlobal {
    fn default() -> (r: RawGlobal)
        ensures
            r.quit is None,
            r.new_tab is None,
            r.close is None,
            r.split_horizontal is None,
            r.split_vertical is None,
            r.focus_left is None,
            r.focus_right is None,
            r.focus_up is None,
            r.focus_down is None,
            r.zoom is None,
            r.prev_tab is None,
            r.next_tab is None,
    {
        RawGlobal {
            quit: None,
            new_tab: None,
            close: None,
            split_horizontal: None,
            split_vertical: None,
            focus_left: None,
            focus_right: None,
            focus_up: None,
            focus_down: None,
            zoom: None,
            prev_tab: None,
            next_tab: None,
        }
    }
}

/// The combinations of the group `connect`.
#[derive(Clone, Copy, Debug, PartialEq, Eq, Structural)]
pub struct ConnectBindings {
    pub select_prev: KeyBinding,
    pub select_next: KeyBinding,
    pub connect: KeyBinding,
    pub browser_menu: KeyBinding,
    pub manual_connect: KeyBinding,
    pub help: KeyBinding,
}

impl ConnectBindings {
    /// The combinations that are used without a configuration file.
    pub open spec fn standard() -> ConnectBindings {
        ConnectBindings {
            select_prev: KeyBinding { code: KeyCode::Up, ctrl: false, alt: false, shift: false },
            select_next: KeyBinding { code: KeyCode::Down, ctrl: false, alt: false, shift: false },
            connect: KeyBinding { code: KeyCode::Enter, ctrl: false, alt: false, shift: false },
            browser_menu: KeyBinding { code: KeyCode::Char('b'), ctrl: false, alt: false, shift: false },
            manual_connect: KeyBinding { code: KeyCode::Char('c'), ctrl: false, alt: false, shift: false },
            help: KeyBinding { code: KeyCode::Char('h'), ctrl: false, alt: false, shift: false },
        }
    }
}

impl Default for ConnectBindings {
    fn default() -> (r: ConnectBindings)
        ensures
            r == ConnectBindings::standard(),
    {
        ConnectBindings {
            select_prev: KeyBinding::new(KeyCode::Up, false, false, false),
            select_next: KeyBinding::new(KeyCode::Down, false, false, false),
            connect: KeyBinding::new(KeyCode::Enter, false, false, false),
            browser_menu: KeyBinding::new(KeyCode::Char('b'), false, false, false),
            manual_connect: KeyBinding::new(KeyCode::Char('c'), false, false, false),
            help: KeyBinding::new(KeyCode::Char('h'), false, false, false),
        }
    }
}

/// The group `connect` of a configuration file: the texts that it gives.
#[derive(Debug)]
pub struct RawConnect {
    pub select_prev: Option<String>,
    pub select_next: Option<String>,
    pub connect: Option<String>,
    pub browser_menu: Option<String>,
    pub manual_connect: Option<String>,
    pub help: Option<String>,
}

impl Default for RawConnect {
    fn default() -> (r: RawConnect)
        ensures
            r.select_prev is None,
            r.select_next is None,
            r.connect is None,
            r.browser_menu is None,
            r.manual_connect is None,
            r.help is None,
    {
        RawConnect {
            select_prev: None,
            select_next: None,
            connect: None,
            browser_menu: None,
            manual_connect: None,
            help: None,
        }
    }
}

/// The combinations of the group `browser`.
#[derive(Clone, Copy, Debug, PartialEq, Eq, Structural)]
pub struct BrowserBindings {
    pub toggle_focus: KeyBinding,
    pub navigate_up: KeyBinding,
    pub navigate_down: KeyBinding,
    pub scroll_left: KeyBinding,
    pub scroll_right: KeyBinding,
    pub enter: KeyBinding,
    pub enter_or_transfer: KeyBinding,
    pub go_up: KeyBinding,
    pub transfer: KeyBinding,
    pub delete: KeyBinding,
}

impl BrowserBindings {
    /// The combinations that are used without a configuration file.
    pub open spec fn standard() -> BrowserBindings {
        BrowserBindings {
            toggle_focus: KeyBinding { code: KeyCode::Tab, ctrl: false, alt: false, shift: false },
            navigate_up: KeyBinding { code: KeyCode::Up, ctrl: false, alt: false, shift: false },
            navigate_down: KeyBinding { code: KeyCode::Down, ctrl: false, alt: false, shift: false },
            scroll_left: KeyBinding { code: KeyCode::Left, ctrl: false, alt: false, shift: false },
            scroll_right: KeyBinding { code: KeyCode::Right, ctrl: false, alt: false, shift: false },
            enter: KeyBinding { code: KeyCode::Enter, ctrl: false, alt: false, shift: false },
            enter_or_transfer: KeyBinding { code: KeyCode::Char(' '), ctrl: false, alt: false, shift: false },
            go_up: KeyBinding { code: KeyCode::Backspace, ctrl: false, alt: false, shift: false },
            transfer: KeyBinding { code: KeyCode::Char('t'), ctrl: false, alt: false, shift: false },
            delete: KeyBinding { code: KeyCode::Delete, ctrl: false, alt: false, shift: false },
        }
    }
}

impl Default for BrowserBindings {
    fn default() -> (r: BrowserBindings)
        ensures
            r == BrowserBindings::standard(),
    {
        BrowserBindings {
            toggle_focus: KeyBinding::new(KeyCode::Tab, false, false, false),
            navigate_up: KeyBinding::new(KeyCode::Up, false, false, false),
            navigate_down: KeyBinding::new(KeyCode::Down, false, false, false),
            scroll_left: KeyBinding::new(KeyCode::Left, false, false, false),
            scroll_right: KeyBinding::new(KeyCode::Right, false, false, false),
            enter: KeyBinding::new(KeyCode::Enter, false, false, false),
            enter_or_transfer: KeyBinding::new(KeyCode::Char(' '), false, false, false),
            go_up: KeyBinding::new(KeyCode::Backspace, false, false, false),
            transfer: KeyBinding::new(KeyCode::Char('t'), false, false, false),
            delete: KeyBinding::new(KeyCode::Delete, false, false, false),
        }
    }
}

/// The group `browser` of a configuration file: the texts that it gives.
#[derive(Debug)]
pub struct RawBrowser {
    pub toggle_focus: Option<String>,
    pub navigate_up: Option<String>,
    pub navigate_down: Option<String>,
    pub scroll_left: Option<String>,
    pub scroll_right: Option<String>,
    pub enter: Option<String>,
    pub enter_or_transfer: Option<String>,
    pub go_up: Option<String>,
    pub transfer: Option<String>,
    pub delete: Option<String>,
}

impl Default for RawBrowser {
    fn default() -> (r: RawBrowser)
        ensures
            r.toggle_focus is None,
            r.navigate_up is None,
            r.navigate_down is None,
            r.scroll_left is None,
            r.scroll_right is None,
            r.enter is None,
            r.enter_or_transfer is None,
            r.go_up is None,
            r.transfer is None,
            r.delete is None,
    {
        RawBrowser {
            toggle_focus: None,
            navigate_up: None,
            navigate_down: None,
            scroll_left: None,
            scroll_right: None,
            enter: None,
            enter_or_transfer: None,
            go_up: None,
            transfer: None,
            delete: None,
        }
    }
}

/// All key bindings.
#[derive(Clone, Copy, Debug, PartialEq, Eq, Structural)]
pub struct KeyBindings {
    pub global: GlobalBindings,
    pub connect: ConnectBindings,
    pub browser: BrowserBindings,
}

/// What a configuration file gives. Every group and every binding may be
/// missing.
#[derive(Debug)]
pub struct RawConfig {
    pub global: Option<RawGlobal>,
    pub connect: Option<RawConnect>,
    pub browser: Option<RawBrowser>,
}

impl Default for RawConfig {
    fn default() -> (r: RawConfig)
        ensures
            r.global is None,
            r.connect is None,
            r.browser is None,
    {
        RawConfig { global: None, connect: None, browser: None }
    }
}

/// The number of bindings in each group, in the order of the table.
pub const GROUP_SIZES: [usize; 3] = [12, 6, 10];

/// The combination that a text of the configuration file stands for; where
/// there is no text, or it stands for none, the given one.
pub open spec fn configured(raw: Option<String>, default: KeyBinding) -> KeyBinding {
    match raw {
        Some(s) => match binding_of(s@) {
            Ok(k) => k,
            Err(_) => default,
        },
        None => default,
    }
}

fn parse_or_default(raw: &Option<String>, default: &KeyBinding) -> (r: KeyBinding)
    ensures
        r == configured(*raw, *default),
{
    match raw {
        Some(s) => match KeyBinding::parse(s.as_str()) {
            Ok(k) => k,
            Err(_) => *default,
        },
        None => *default,
    }
}

impl Default for KeyBindings {
    fn default() -> (r: KeyBindings)
        ensures
            r == KeyBindings::standard(),
    {
        KeyBindings {
            global: GlobalBindings::default(),
            connect: ConnectBindings::default(),
            browser: BrowserBindings::default(),
        }
    }
}

/// The group `global` with what a configuration file gives for it.
pub open spec fn global_configured(raw: Option<RawGlobal>, d: GlobalBindings) -> GlobalBindings {
    match raw {
        None => d,
        Some(r) => GlobalBindings {
            quit: configured(r.quit, d.quit),
            new_tab: configured(r.new_tab, d.new_tab),
            close: configured(r.close, d.close),
            split_horizontal: configured(r.split_horizontal, d.split_horizontal),
            split_vertical: configured(r.split_vertical, d.split_vertical),
            focus_left: configured(r.focus_left, d.focus_left),
            focus_right: configured(r.focus_right, d.focus_right),
            focus_up: configured(r.focus_up, d.focus_up),
            focus_down: configured(r.focus_down, d.focus_down),
            zoom: configured(r.zoom, d.zoom),
            prev_tab: configured(r.prev_tab, d.prev_tab),
            next_tab: configured(r.next_tab, d.next_tab),
        },
    }
}

/// The group `connect` with what a configuration file gives for it.
pub open spec fn connect_configured(raw: Option<RawConnect>, d: ConnectBindings) -> ConnectBindings {
    match raw {
        None => d,
        Some(r) => ConnectBindings {
            select_prev: configured(r.select_prev, d.select_prev),
            select_next: configured(r.select_next, d.select_next),
            connect: configured(r.connect, d.connect),
            browser_menu: configured(r.browser_menu, d.browser_menu),
            manual_connect: configured(r.manual_connect, d.manual_connect),
            help: configured(r.help, d.help),
        },
    }
}

/// The group `browser` with what a configuration file gives for it.
pub open spec fn browser_configured(raw: Option<RawBrowser>, d: BrowserBindings) -> BrowserBindings {
    match raw {
        None => d,
        Some(r) => BrowserBindings {
            toggle_focus: configured(r.toggle_focus, d.toggle_focus),
            navigate_up: configured(r.navigate_up, d.navigate_up),
            navigate_down: configured(r.navigate_down, d.navigate_down),
            scroll_left: configured(r.scroll_left, d.scroll_left),
            scroll_right: configured(r.scroll_right, d.scroll_right),
            enter: configured(r.enter, d.enter),
            enter_or_transfer: configured(r.enter_or_transfer, d.enter_or_transfer),
            go_up: configured(r.go_up, d.go_up),
            transfer: configured(r.transfer, d.transfer),
            delete: configured(r.delete, d.delete),
        },
    }
}

impl KeyBindings {
    /// The bindings that are used without a configuration file.
    pub open spec fn standard() -> KeyBindings {
        KeyBindings {
            global: GlobalBindings::standard(),
            connect: ConnectBindings::standard(),
            browser: BrowserBindings::standard(),
        }
    }

    /// The rows of the table of bindings, in the order of the key editor.
    pub open spec fn rows(self) -> Seq<RowView> {
        seq![
            RowView {
                group: "global"@,
                field: "quit"@,
                description: "quit"@,
                binding: self.global.quit,
            },
            RowView {
                group: "global"@,
                field: "new_tab"@,
                description: "new tab"@,
                binding: self.global.new_tab,
            },
            RowView {
                group: "global"@,
                field: "close"@,
                description: "close pane / tab"@,
                binding: self.global.close,
            },
            RowView {
                group: "global"@,
                field: "split_horizontal"@,
                description: "split top/bottom"@,
                binding: self.global.split_horizontal,
            },
            RowView {
                group: "global"@,
                field: "split_vertical"@,
                description: "split left/right"@,
                binding: self.global.split_vertical,
            },
            RowView {
                group: "global"@,
                field: "focus_left"@,
                description: "focus pane left"@,
                binding: self.global.focus_left,
            },
            RowView {
                group: "global"@,
                field: "focus_right"@,
                description: "focus pane right"@,
                binding: self.global.focus_right,
            },
            RowView {
                group: "global"@,
                field: "focus_up"@,
                description: "focus pane above"@,
                binding: self.global.focus_up,
            },
            RowView {
                group: "global"@,
                field: "focus_down"@,
                description: "focus pane below"@,
                binding: self.global.focus_down,
            },
            RowView {
                group: "global"@,
                field: "zoom"@,
                description: "zoom focused pane"@,
                binding: self.global.zoom,
            },
            RowView {
                group: "global"@,
                field: "prev_tab"@,
                description: "previous tab"@,
                binding: self.global.prev_tab,
            },
            RowView {
                group: "global"@,
                field: "next_tab"@,
                description: "next tab"@,
                binding: self.global.next_tab,
            },
            RowView {
                group: "connect"@,
                field: "select_prev"@,
                description: "previous host"@,
                binding: self.connect.select_prev,
            },
            RowView {
                group: "connect"@,
                field: "select_next"@,
                description: "next host"@,
                binding: self.connect.select_next,
            },
            RowView {
                group: "connect"@,
                field: "connect"@,
                description: "connect"@,
                binding: self.connect.connect,
            },
            RowView {
                group: "connect"@,
                field: "browser_menu"@,
                description: "file browser"@,
                binding: self.connect.browser_menu,
            },
            RowView {
                group: "connect"@,
                field: "manual_connect"@,
                description: "manual connect"@,
                binding: self.connect.manual_connect,
            },
            RowView {
                group: "connect"@,
                field: "help"@,
                description: "keybindings"@,
                binding: self.connect.help,
            },
            RowView {
                group: "browser"@,
                field: "toggle_focus"@,
                description: "toggle focus"@,
                binding: self.browser.toggle_focus,
            },
            RowView {
                group: "browser"@,
                field: "navigate_up"@,
                description: "navigate up"@,
                binding: self.browser.navigate_up,
            },
            RowView {
                group: "browser"@,
                field: "navigate_down"@,
                description: "navigate down"@,
                binding: self.browser.navigate_down,
            },
            RowView {
                group: "browser"@,
                field: "scroll_left"@,
                description: "scroll left"@,
                binding: self.browser.scroll_left,
            },
            RowView {
                group: "browser"@,
                field: "scroll_right"@,
                description: "scroll right"@,
                binding: self.browser.scroll_right,
            },
            RowView {
                group: "browser"@,
                field: "enter"@,
                description: "enter / open"@,
                binding: self.browser.enter,
            },
            RowView {
                group: "browser"@,
                field: "enter_or_transfer"@,
                description: "enter dir / transfer file"@,
                binding: self.browser.enter_or_transfer,
            },
            RowView {
                group: "browser"@,
                field: "go_up"@,
                description: "go up"@,
                binding: self.browser.go_up,
            },
            RowView {
                group: "browser"@,
                field: "transfer"@,
                description: "transfer"@,
                binding: self.browser.transfer,
            },
            RowView {
                group: "browser"@,
                field: "delete"@,
                description: "delete"@,
                binding: self.browser.delete,
            },
        ]
    }

    /// The bindings with another combination for one of them. Where there is
    /// no binding of that group and name, nothing changes.
    pub open spec fn with_binding(
        self,
        group: Seq<char>,
        field: Seq<char>,
        k: KeyBinding,
    ) -> KeyBindings {
        if group == "global"@ {
            KeyBindings { global: self.global.with_binding(field, k), ..self }
        } else if group == "connect"@ {
            KeyBindings { connect: self.connect.with_binding(field, k), ..self }
        } else if group == "browser"@ {
            KeyBindings { browser: self.browser.with_binding(field, k), ..self }
        } else {
            self
        }
    }

    /// Puts what a configuration file gives in place of the given bindings.
    pub fn merge(raw: RawConfig, defaults: &KeyBindings) -> (r: KeyBindings)
        ensures
            r.global == global_configured(raw.global, defaults.global),
            r.connect == connect_configured(raw.connect, defaults.connect),
            r.browser == browser_configured(raw.browser, defaults.browser),
    {
        let d = defaults;
        let global = match &raw.global {
            None => d.global,
            Some(r) => GlobalBindings {
                quit: parse_or_default(&r.quit, &d.global.quit),
                new_tab: parse_or_default(&r.new_tab, &d.global.new_tab),
                close: parse_or_default(&r.close, &d.global.close),
                split_horizontal: parse_or_default(&r.split_horizontal, &d.global.split_horizontal),
                split_vertical: parse_or_default(&r.split_vertical, &d.global.split_vertical),
                focus_left: parse_or_default(&r.focus_left, &d.global.focus_left),
                focus_right: parse_or_default(&r.focus_right, &d.global.focus_right),
                focus_up: parse_or_default(&r.focus_up, &d.global.focus_up),
                focus_down: parse_or_default(&r.focus_down, &d.global.focus_down),
                zoom: parse_or_default(&r.zoom, &d.global.zoom),
                prev_tab: parse_or_default(&r.prev_tab, &d.global.prev_tab),
                next_tab: parse_or_default(&r.next_tab, &d.global.next_tab),
            },
        };
        let connect = match &raw.connect {
            None => d.connect,
            Some(r) => ConnectBindings {
                select_prev: parse_or_default(&r.select_prev, &d.connect.select_prev),
                select_next: parse_or_default(&r.select_next, &d.connect.select_next),
                connect: parse_or_default(&r.connect, &d.connect.connect),
                browser_menu: parse_or_default(&r.browser_menu, &d.connect.browser_menu),
                manual_connect: parse_or_default(&r.manual_connect, &d.connect.manual_connect),
                help: parse_or_default(&r.help, &d.connect.help),
            },
        };
        let browser = match &raw.browser {
            None => d.browser,
            Some(r) => BrowserBindings {
                toggle_focus: parse_or_default(&r.toggle_focus, &d.browser.toggle_focus),
                navigate_up: parse_or_default(&r.navigate_up, &d.browser.navigate_up),
                navigate_down: parse_or_default(&r.navigate_down, &d.browser.navigate_down),
                scroll_left: parse_or_default(&r.scroll_left, &d.browser.scroll_left),
                scroll_right: parse_or_default(&r.scroll_right, &d.browser.scroll_right),
                enter: parse_or_default(&r.enter, &d.browser.enter),
                enter_or_transfer: parse_or_default(&r.enter_or_transfer, &d.browser.enter_or_transfer),
                go_up: parse_or_default(&r.go_up, &d.browser.go_up),
                transfer: parse_or_default(&r.transfer, &d.browser.transfer),
                delete: parse_or_default(&r.delete, &d.browser.delete),
            },
        };
        KeyBindings { global, connect, browser }
    }

    /// Lists all bindings in the order of the key editor.
    pub fn entries(&self) -> (r: Vec<BindingEntry<'_>>)
        ensures
            rows_view(r@) == self.rows(),
    {
        let mut v: Vec<BindingEntry<'_>> = Vec::new();
        v.push(
            BindingEntry {
                group: "global",
                field: "quit",
                description: "quit",
                binding: &self.global.quit,
            },
        );
        v.push(
            BindingEntry {
                group: "global",
                field: "new_tab",
                description: "new tab",
                binding: &self.global.new_tab,
            },
        );
        v.push(
            BindingEntry {
                group: "global",
                field: "close",
                description: "close pane / tab",
                binding: &self.global.close,
            },
        );
        v.push(
            BindingEntry {
                group: "global",
                field: "split_horizontal",
                description: "split top/bottom",
                binding: &self.global.split_horizontal,
            },
        );
        v.push(
            BindingEntry {
                group: "global",
                field: "split_vertical",
                description: "split left/right",
                binding: &self.global.split_vertical,
            },
        );
        v.push(
            BindingEntry {
                group: "global",
                field: "focus_left",
                description: "focus pane left",
                binding: &self.global.focus_left,
            },
        );
        v.push(
            BindingEntry {
                group: "global",
                field: "focus_right",
                description: "focus pane right",
                binding: &self.global.focus_right,
            },
        );
        v.push(
            BindingEntry {
                group: "global",
                field: "focus_up",
                description: "focus pane above",
                binding: &self.global.focus_up,
            },
        );
        v.push(
            BindingEntry {
                group: "global",
                field: "focus_down",
                description: "focus pane below",
                binding: &self.global.focus_down,
            },
        );
        v.push(
            BindingEntry {
                group: "global",
                field: "zoom",
                description: "zoom focused pane",
                binding: &self.global.zoom,
            },
        );
        v.push(
            BindingEntry {
                group: "global",
                field: "prev_tab",
                description: "previous tab",
                binding: &self.global.prev_tab,
            },
        );
        v.push(
            BindingEntry {
                group: "global",
                field: "next_tab",
                description: "next tab",
                binding: &self.global.next_tab,
            },
        );
        v.push(
            BindingEntry {
                group: "connect",
                field: "select_prev",
                description: "previous host",
                binding: &self.connect.select_prev,
            },
        );
        v.push(
            BindingEntry {
                group: "connect",
                field: "select_next",
                description: "next host",
                binding: &self.connect.select_next,
            },
        );
        v.push(
            BindingEntry {
                group: "connect",
                field: "connect",
                description: "connect",
                binding: &self.connect.connect,
            },
        );
        v.push(
            BindingEntry {
                group: "connect",
                field: "browser_menu",
                description: "file browser",
                binding: &self.connect.browser_menu,
            },
        );
        v.push(
            BindingEntry {
                group: "connect",
                field: "manual_connect",
                description: "manual connect",
                binding: &self.connect.manual_connect,
            },
        );
        v.push(
            BindingEntry {
                group: "connect",
                field: "help",
                description: "keybindings",
                binding: &self.connect.help,
            },
        );
        v.push(
            BindingEntry {
                group: "browser",
                field: "toggle_focus",
                description: "toggle focus",
                binding: &self.browser.toggle_focus,
            },
        );
        v.push(
            BindingEntry {
                group: "browser",
                field: "navigate_up",
                description: "navigate up",
                binding: &self.browser.navigate_up,
            },
        );
        v.push(
            BindingEntry {
                group: "browser",
                field: "navigate_down",
                description: "navigate down",
                binding: &self.browser.navigate_down,
            },
        );
        v.push(
            BindingEntry {
                group: "browser",
                field: "scroll_left",
                description: "scroll left",
                binding: &self.browser.scroll_left,
            },
        );
        v.push(
            BindingEntry {
                group: "browser",
                field: "scroll_right",
                description: "scroll right",
                binding: &self.browser.scroll_right,
            },
        );
        v.push(
            BindingEntry {
                group: "browser",
                field: "enter",
                description: "enter / open",
                binding: &self.browser.enter,
            },
        );
        v.push(
            BindingEntry {
                group: "browser",
                field: "enter_or_transfer",
                description: "enter dir / transfer file",
                binding: &self.browser.enter_or_transfer,
            },
        );
        v.push(
            BindingEntry {
                group: "browser",
                field: "go_up",
                description: "go up",
                binding: &self.browser.go_up,
            },
        );
        v.push(
            BindingEntry {
                group: "browser",
                field: "transfer",
                description: "transfer",
                binding: &self.browser.transfer,
            },
        );
        v.push(
            BindingEntry {
                group: "browser",
                field: "delete",
                description: "delete",
                binding: &self.browser.delete,
            },
        );
        assert(rows_view(v@) =~= self.rows());
        v
    }

    /// Sets one binding by its group and name.
    pub fn set_binding(&mut self, group: &str, field: &str, kb: KeyBinding)
        ensures
            *final(self) == old(self).with_binding(group@, field@, kb),
    {
        if same(group, "global") {
            self.global.set_binding(field, kb);
        } else if same(group, "connect") {
            self.connect.set_binding(field, kb);
        } else if same(group, "browser") {
            self.browser.set_binding(field, kb);
        }
    }
}

impl GlobalBindings {
    /// The group with another combination for the binding of this name.
    pub open spec fn with_binding(self, field: Seq<char>, k: KeyBinding) -> GlobalBindings {
        if field == "quit"@ {
            GlobalBindings { quit: k, ..self }
        } else if field == "new_tab"@ {
            GlobalBindings { new_tab: k, ..self }
        } else if field == "close"@ {
            GlobalBindings { close: k, ..self }
        } else if field == "split_horizontal"@ {
            GlobalBindings { split_horizontal: k, ..self }
        } else if field == "split_vertical"@ {
            GlobalBindings { split_vertical: k, ..self }
        } else if field == "focus_left"@ {
            GlobalBindings { focus_left: k, ..self }
        } else if field == "focus_right"@ {
            GlobalBindings { focus_right: k, ..self }
        } else if field == "focus_up"@ {
            GlobalBindings { focus_up: k, ..self }
        } else if field == "focus_down"@ {
            GlobalBindings { focus_down: k, ..self }
        } else if field == "zoom"@ {
            GlobalBindings { zoom: k, ..self }
        } else if field == "prev_tab"@ {
            GlobalBindings { prev_tab: k, ..self }
        } else if field == "next_tab"@ {
            GlobalBindings { next_tab: k, ..self }
        } else {
            self
        }
    }

    fn set_binding(&mut self, field: &str, kb: KeyBinding)
        ensures
            *final(self) == old(self).with_binding(field@, kb),
    {
        if same(field, "quit") {
            self.quit = kb;
        } else if same(field, "new_tab") {
            self.new_tab = kb;
        } else if same(field, "close") {
            self.close = kb;
        } else if same(field, "split_horizontal") {
            self.split_horizontal = kb;
        } else if same(field, "split_vertical") {
            self.split_vertical = kb;
        } else if same(field, "focus_left") {
            self.focus_left = kb;
        } else if same(field, "focus_right") {
            self.focus_right = kb;
        } else if same(field, "focus_up") {
            self.focus_up = kb;
        } else if same(field, "focus_down") {
            self.focus_down = kb;
        } else if same(field, "zoom") {
            self.zoom = kb;
        } else if same(field, "prev_tab") {
            self.prev_tab = kb;
        } else if same(field, "next_tab") {
            self.next_tab = kb;
        }
    }
}

impl ConnectBindings {
    /// The group with another combination for the binding of this name.
    pub open spec fn with_binding(self, field: Seq<char>, k: KeyBinding) -> ConnectBindings {
        if field == "select_prev"@ {
            ConnectBindings { select_prev: k, ..self }
        } else if field == "select_next"@ {
            ConnectBindings { select_next: k, ..self }
        } else if field == "connect"@ {
            ConnectBindings { connect: k, ..self }
        } else if field == "browser_menu"@ {
            ConnectBindings { browser_menu: k, ..self }
        } else if field == "manual_connect"@ {
            ConnectBindings { manual_connect: k, ..self }
        } else if field == "help"@ {
            ConnectBindings { help: k, ..self }
        } else {
            self
        }
    }

    fn set_binding(&mut self, field: &str, kb: KeyBinding)
        ensures
            *final(self) == old(self).with_binding(field@, kb),
    {
        if same(field, "select_prev") {
            self.select_prev = kb;
        } else if same(field, "select_next") {
            self.select_next = kb;
        } else if same(field, "connect") {
            self.connect = kb;
        } else if same(field, "browser_menu") {
            self.browser_menu = kb;
        } else if same(field, "manual_connect") {
            self.manual_connect = kb;
        } else if same(field, "help") {
            self.help = kb;
        }
    }
}

impl BrowserBindings {
    /// The group with another combination for the binding of this name.
    pub open spec fn with_binding(self, field: Seq<char>, k: KeyBinding) -> BrowserBindings {
        if field == "toggle_focus"@ {
            BrowserBindings { toggle_focus: k, ..self }
        } else if field == "navigate_up"@ {
            BrowserBindings { navigate_up: k, ..self }
        } else if field == "navigate_down"@ {
            BrowserBindings { navigate_down: k, ..self }
        } else if field == "scroll_left"@ {
            BrowserBindings { scroll_left: k, ..self }
        } else if field == "scroll_right"@ {
            BrowserBindings { scroll_right: k, ..self }
        } else if field == "enter"@ {
            BrowserBindings { enter: k, ..self }
        } else if field == "enter_or_transfer"@ {
            BrowserBindings { enter_or_transfer: k, ..self }
        } else if field == "go_up"@ {
            BrowserBindings { go_up: k, ..self }
        } else if field == "transfer"@ {
            BrowserBindings { transfer: k, ..self }
        } else if field == "delete"@ {
            BrowserBindings { delete: k, ..self }
        } else {
            self
        }
    }

    fn set_binding(&mut self, field: &str, kb: KeyBinding)
        ensures
            *final(self) == old(self).with_binding(field@, kb),
    {
        if same(field, "toggle_focus") {
            self.toggle_focus = kb;
        } else if same(field, "navigate_up") {
            self.navigate_up = kb;
        } else if same(field, "navigate_down") {
            self.navigate_down = kb;
        } else if same(field, "scroll_left") {
            self.scroll_left = kb;
        } else if same(field, "scroll_right") {
            self.scroll_right = kb;
        } else if same(field, "enter") {
            self.enter = kb;
        } else if same(field, "enter_or_transfer") {
            self.enter_or_transfer = kb;
        } else if same(field, "go_up") {
            self.go_up = kb;
        } else if same(field, "transfer") {
            self.transfer = kb;
        } else if same(field, "delete") {
            self.delete = kb;
        }
    }
}

// ---------------------------------------------------------------------------
// The configuration file
// ---------------------------------------------------------------------------

/// The heading of a group, where row `i` of the table is the first of its group.
pub open spec fn heading_text(rows: Seq<RowView>, i: int) -> Seq<char> {
    if i == 0 {
        "["@ + rows[i].group + "]\n"@
    } else if rows[i].group != rows[i - 1].group {
        "\n["@ + rows[i].group + "]\n"@
    } else {
        Seq::empty()
    }
}

/// The text of the first `n` rows of the table in the configuration file.
pub open spec fn config_text(rows: Seq<RowView>, n: int) -> Seq<char>
    decreases n,
{
    if n <= 0 {
        Seq::empty()
    } else {
        config_text(rows, n - 1) + heading_text(rows, n - 1) + (rows[n - 1].field + " = \""@
            + rows[n - 1].binding.written() + "\"\n"@)
    }
}

impl KeyBindings {
    /// Writes the text of the configuration file.
    pub fn to_config_text(&self) -> (r: String)
        ensures
            r@ == config_text(self.rows(), self.rows().len() as int),
    {
        let entries = self.entries();
        let ghost rows = self.rows();
        let mut r = String::new();
        let mut i: usize = 0;
        assert(r@ =~= config_text(rows, 0));
        while i < entries.len()
            invariant
                rows == rows_view(entries@),
                i <= entries@.len(),
                r@ == config_text(rows, i as int),
            decreases entries@.len() - i,
        {
            assert(rows[i as int] == entries@[i as int]@);
            let group = entries[i].group;
            let heading = if i == 0 {
                cat3("[", group, "]\n")
            } else {
                assert(rows[i - 1] == entries@[i - 1]@);
                if same(group, entries[i - 1].group) {
                    String::new()
                } else {
                    cat3("\n[", group, "]\n")
                }
            };
            assert(heading@ =~= heading_text(rows, i as int));
            let line = cat4(
                entries[i].field,
                " = \"",
                entries[i].binding.to_config_string().as_str(),
                "\"\n",
            );
            r = cat3(r.as_str(), heading.as_str(), line.as_str());
            i += 1;
        }
        r
    }
}

} // verus!
