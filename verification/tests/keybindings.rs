//! Key combinations and the configuration file.
use sshmux::event::KeyCode;
use sshmux::keybindings::{
    KeyBinding, KeyBindings, RawBrowser, RawConfig, RawConnect, RawGlobal,
};

fn text_in(table: Option<&toml::Table>, field: &str) -> Option<String> {
    table?.get(field)?.as_str().map(|s| s.to_string())
}

/// Reads a configuration file.
fn raw_config(text: &str) -> RawConfig {
    let all: toml::Table = toml::from_str(text).unwrap();
    let group = |name: &str| all.get(name).and_then(|v| v.as_table());
    RawConfig {
        global: group("global").map(|g| RawGlobal {
            quit: text_in(Some(g), "quit"),
            new_tab: text_in(Some(g), "new_tab"),
            close: text_in(Some(g), "close"),
            split_horizontal: text_in(Some(g), "split_horizontal"),
            split_vertical: text_in(Some(g), "split_vertical"),
            focus_left: text_in(Some(g), "focus_left"),
            focus_right: text_in(Some(g), "focus_right"),
            focus_up: text_in(Some(g), "focus_up"),
            focus_down: text_in(Some(g), "focus_down"),
            zoom: text_in(Some(g), "zoom"),
            prev_tab: text_in(Some(g), "prev_tab"),
            next_tab: text_in(Some(g), "next_tab"),
        }),
        connect: group("connect").map(|g| RawConnect {
            select_prev: text_in(Some(g), "select_prev"),
            select_next: text_in(Some(g), "select_next"),
            connect: text_in(Some(g), "connect"),
            browser_menu: text_in(Some(g), "browser_menu"),
            manual_connect: text_in(Some(g), "manual_connect"),
            help: text_in(Some(g), "help"),
        }),
        browser: group("browser").map(|g| RawBrowser {
            toggle_focus: text_in(Some(g), "toggle_focus"),
            navigate_up: text_in(Some(g), "navigate_up"),
            navigate_down: text_in(Some(g), "navigate_down"),
            scroll_left: text_in(Some(g), "scroll_left"),
            scroll_right: text_in(Some(g), "scroll_right"),
            enter: text_in(Some(g), "enter"),
            enter_or_transfer: text_in(Some(g), "enter_or_transfer"),
            go_up: text_in(Some(g), "go_up"),
            transfer: text_in(Some(g), "transfer"),
            delete: text_in(Some(g), "delete"),
        }),
    }
}

#[test]
fn parse_simple_char() {
    let kb = KeyBinding::parse("Q").unwrap();
    assert_eq!(kb.code, KeyCode::Char('Q'));
    assert!(!kb.ctrl && !kb.alt && !kb.shift);
}

#[test]
fn parse_alt_char() {
    let kb = KeyBinding::parse("Alt+Q").unwrap();
    assert_eq!(kb.code, KeyCode::Char('Q'));
    assert!(kb.alt);
    assert!(!kb.ctrl && !kb.shift);
}

#[test]
fn parse_ctrl_alt() {
    let kb = KeyBinding::parse("Ctrl+Alt+Delete").unwrap();
    assert_eq!(kb.code, KeyCode::Delete);
    assert!(kb.ctrl && kb.alt);
    assert!(!kb.shift);
}

#[test]
fn parse_special_keys() {
    assert_eq!(KeyBinding::parse("Enter").unwrap().code, KeyCode::Enter);
    assert_eq!(KeyBinding::parse("Tab").unwrap().code, KeyCode::Tab);
    assert_eq!(
        KeyBinding::parse("Backspace").unwrap().code,
        KeyCode::Backspace
    );
    assert_eq!(KeyBinding::parse("Delete").unwrap().code, KeyCode::Delete);
    assert_eq!(KeyBinding::parse("Esc").unwrap().code, KeyCode::Esc);
    assert_eq!(KeyBinding::parse("Space").unwrap().code, KeyCode::Char(' '));
    assert_eq!(KeyBinding::parse("Left").unwrap().code, KeyCode::Left);
    assert_eq!(KeyBinding::parse("Up").unwrap().code, KeyCode::Up);
    assert_eq!(KeyBinding::parse("Home").unwrap().code, KeyCode::Home);
    assert_eq!(KeyBinding::parse("PageUp").unwrap().code, KeyCode::PageUp);
}

#[test]
fn parse_f_keys() {
    assert_eq!(KeyBinding::parse("F1").unwrap().code, KeyCode::F(1));
    assert_eq!(KeyBinding::parse("F12").unwrap().code, KeyCode::F(12));
    assert_eq!(KeyBinding::parse("f5").unwrap().code, KeyCode::F(5));
}

#[test]
fn parse_shift_tab_becomes_backtab() {
    let kb = KeyBinding::parse("Shift+Tab").unwrap();
    assert_eq!(kb.code, KeyCode::BackTab);
    assert!(!kb.shift); // shift absorbed into BackTab
}

#[test]
fn parse_plus_key() {
    let kb = KeyBinding::parse("Alt++").unwrap();
    assert_eq!(kb.code, KeyCode::Char('+'));
    assert!(kb.alt);
}

#[test]
fn parse_bare_plus() {
    let kb = KeyBinding::parse("+").unwrap();
    assert_eq!(kb.code, KeyCode::Char('+'));
    assert!(!kb.alt && !kb.ctrl && !kb.shift);
}

#[test]
fn parse_minus_key() {
    let kb = KeyBinding::parse("Alt+-").unwrap();
    assert_eq!(kb.code, KeyCode::Char('-'));
    assert!(kb.alt);
}

#[test]
fn parse_case_insensitive_modifiers() {
    let kb = KeyBinding::parse("ctrl+alt+q").unwrap();
    assert!(kb.ctrl && kb.alt);
    assert_eq!(kb.code, KeyCode::Char('q'));
}

#[test]
fn parse_empty_error() {
    assert!(KeyBinding::parse("").is_err());
}

#[test]
fn parse_unknown_modifier_error() {
    assert!(KeyBinding::parse("Meta+Q").is_err());
}

#[test]
fn parse_unknown_key_error() {
    assert!(KeyBinding::parse("Alt+FooBar").is_err());
}

#[test]
fn matches_case_insensitive() {
    let kb = KeyBinding::parse("B").unwrap();
    assert!(kb.matches(KeyCode::Char('b'), false, false, false));
    assert!(kb.matches(KeyCode::Char('B'), false, false, false));
}

#[test]
fn matches_modifiers() {
    let kb = KeyBinding::parse("Alt+Q").unwrap();
    assert!(kb.matches(KeyCode::Char('q'), false, true, false));
    assert!(!kb.matches(KeyCode::Char('q'), false, false, false)); // no alt
    assert!(!kb.matches(KeyCode::Char('q'), true, true, false)); // extra ctrl
}

#[test]
fn display_roundtrip() {
    for s in &["Alt+Q", "Ctrl+A", "Enter", "F1", "Shift+Tab", "Space"] {
        let kb = KeyBinding::parse(s).unwrap();
        let config_str = kb.to_config_string();
        let kb2 = KeyBinding::parse(&config_str).unwrap();
        assert_eq!(kb, kb2, "roundtrip failed for '{s}'");
    }
}

#[test]
fn display_alt_plus() {
    let kb = KeyBinding::parse("Alt++").unwrap();
    assert_eq!(kb.to_config_string(), "Alt++");
}

#[test]
fn merge_partial_config() {
    let toml_str = r#"
[global]
quit = "Alt+X"
"#;
    let raw = raw_config(toml_str);
    let defaults = KeyBindings::default();
    let merged = KeyBindings::merge(raw, &defaults);

    // Overridden
    assert_eq!(merged.global.quit.code, KeyCode::Char('X'));
    assert!(merged.global.quit.alt);
    // Default preserved
    assert_eq!(merged.global.new_tab, defaults.global.new_tab);
    assert_eq!(merged.connect.help, defaults.connect.help);
}

#[test]
fn merge_empty_config() {
    let raw = raw_config("");
    let defaults = KeyBindings::default();
    let merged = KeyBindings::merge(raw, &defaults);
    assert_eq!(merged.global.quit, defaults.global.quit);
}

/// The binding metadata is enumerated by hand in several places (struct
/// fields, `Raw*` config structs, `merge`, `entries`, `set_binding`).
/// These two roundtrips fail if any of them misses a binding, so drift
/// cannot land silently.
#[test]
fn set_binding_covers_every_entry() {
    let probe = KeyBinding::parse("Ctrl+F9").unwrap();
    let mut kb = KeyBindings::default();
    for e in KeyBindings::default().entries() {
        kb.set_binding(e.group, e.field, probe);
    }
    for e in kb.entries() {
        assert_eq!(
            e.binding, &probe,
            "set_binding has no arm for {}.{}",
            e.group, e.field
        );
    }
}

#[test]
fn merge_covers_every_entry() {
    // Build a config overriding every field; a binding missing from a
    // Raw* struct is silently ignored by serde and stays at its default.
    let defaults = KeyBindings::default();
    let entries = defaults.entries();
    let mut toml_src = String::new();
    let mut group = "";
    for e in &entries {
        if e.group != group {
            toml_src.push_str(&format!("[{}]\n", e.group));
            group = e.group;
        }
        toml_src.push_str(&format!("{} = \"Ctrl+F9\"\n", e.field));
    }
    let raw = raw_config(&toml_src);
    let merged = KeyBindings::merge(raw, &KeyBindings::default());
    let probe = KeyBinding::parse("Ctrl+F9").unwrap();
    for e in merged.entries() {
        assert_eq!(
            e.binding, &probe,
            "merge/RawConfig misses {}.{}",
            e.group, e.field
        );
    }
}

#[test]
fn merge_invalid_key_uses_default() {
    let toml_str = r#"
[global]
quit = "Alt+InvalidKeyName"
"#;
    let raw = raw_config(toml_str);
    let defaults = KeyBindings::default();
    let merged = KeyBindings::merge(raw, &defaults);
    // Should fall back to default
    assert_eq!(merged.global.quit, defaults.global.quit);
}

#[test]
fn config_text_reads_back() {
    let mut kb = KeyBindings::default();
    kb.set_binding("global", "zoom", KeyBinding::parse("Ctrl+Shift+F5").unwrap());
    kb.set_binding("browser", "transfer", KeyBinding::parse("Alt++").unwrap());
    let text = kb.to_config_text();
    assert!(text.starts_with("[global]\nquit = \"Alt+Q\"\n"));
    assert!(text.contains("\n\n[connect]\n"));
    let merged = KeyBindings::merge(raw_config(&text), &KeyBindings::default());
    for (a, b) in merged.entries().iter().zip(kb.entries().iter()) {
        assert_eq!(a.binding.to_config_string(), b.binding.to_config_string());
    }
}

#[test]
fn errors_name_the_part_that_is_wrong() {
    assert_eq!(KeyBinding::parse("  ").unwrap_err(), "empty key string");
    assert_eq!(KeyBinding::parse("Meta+Q").unwrap_err(), "unknown modifier 'meta'");
    assert_eq!(KeyBinding::parse("Alt+FooBar").unwrap_err(), "unknown key 'FooBar'");
    assert!(KeyBinding::parse("F13").is_err());
}

#[test]
fn arrows_are_shown_as_arrows() {
    let kb = KeyBinding::parse("Alt+Left").unwrap();
    assert_eq!(kb.to_display_string(), "Alt+\u{2190}");
    assert_eq!(kb.to_config_string(), "Alt+Left");
}

#[test]
fn shift_is_ignored_only_where_asked() {
    let kb = KeyBinding::parse("Up").unwrap();
    assert!(!kb.matches(KeyCode::Up, false, false, true));
    assert!(kb.matches_ignore_shift(KeyCode::Up, false, false));
    assert!(!kb.matches_ignore_shift(KeyCode::Up, true, false));
}
