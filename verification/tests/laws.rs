//! What holds over several calls, on concrete values.
use sshmux::app::{App, ContextMenu};
use sshmux::browser::browser_layout;
use sshmux::browser::common::keys::Moment;
use sshmux::browser::common::navigation::{find_path_boundary, parse_dropped_paths};
use sshmux::browser::common::{
    BrowserCore, BrowserFocus, DeleteKind, DeleteLocation, DeleteTarget, PendingTransfer,
    TransferDirection,
};
use sshmux::browser::parse::{
    contains_any_error, parse_ls, shell_quote, strip_ansi, strip_shell_quote, DirItem, FsEntry,
    ItemMeta,
};
use sshmux::browser::sftp::{FileBrowser, SftpState};
use sshmux::browser::ssh::{SshBrowser, SshBrowserState};
use sshmux::connect::{
    editor_binding_index, editor_nav_down, editor_nav_up, ConnectPane, InputField,
    EDITOR_ROW_COUNT, HEADER_BROWSER, HEADER_CONNECT, HEADER_GLOBAL,
};
use sshmux::event::{KeyCode, MouseButton, MouseEventKind};
use sshmux::geometry::{pane_inner, split_areas, Rect, Split};
use sshmux::input::mouse::mouse_sequence;
use sshmux::input::session::key_sequence;
use sshmux::keybindings::{KeyBinding, KeyBindings, RawConfig};
use sshmux::list_state::ListState;
use sshmux::pane::{split_at_path, Pane};
use sshmux::pty::PtyChannel;
use sshmux::ssh_config::parse_ssh_config;
use sshmux::style::{Color, Style};
use sshmux::tab::{FocusDir, Tab};
use sshmux::terminal::EmbeddedTerminal;
use sshmux::view::connect::{ConnectView, OverlayPlan};
use sshmux::view::leaf::{LeafContent, StatusPlan};
use sshmux::view::screen::{Screen, ScreenCell, ScreenColor};
use sshmux::view::status::render_exit_overlay;
use sshmux::view::tabs::{menu_item_style, render_menu_item, render_tab_bar};
use sshmux::view::{centered, pad_left, pad_right};

const NOW: u64 = 1_000_000;

fn entry(name: &str, is_dir: bool) -> FsEntry {
    FsEntry {
        name: name.to_string(),
        is_dir,
        is_link: false,
        size: String::new(),
        perms: String::new(),
        modified: String::new(),
    }
}

fn pending(name: &str) -> PendingTransfer {
    PendingTransfer { path: format!("/r/{name}"), name: name.to_string(), is_dir: false }
}

// ---- Key combinations ----------------------------------------------------

#[test]
fn combinations_are_read_back() {
    let codes = [
        KeyCode::Char('a'),
        KeyCode::Char('+'),
        KeyCode::Char(' '),
        KeyCode::Char('é'),
        KeyCode::BackTab,
        KeyCode::Tab,
        KeyCode::PageDown,
        KeyCode::F(1),
        KeyCode::F(12),
    ];
    for code in codes {
        for held in 0..8u8 {
            let (ctrl, alt, shift) = (held & 1 != 0, held & 2 != 0, held & 4 != 0);
            if shift && (code == KeyCode::Tab || code == KeyCode::BackTab) {
                continue;
            }
            let k = KeyBinding::new(code, ctrl, alt, shift);
            let text = k.to_config_string();
            let b = KeyBinding::parse(&text).unwrap();
            assert!(b.matches(code, ctrl, alt, shift), "{text}");
            assert!(!b.matches(code, !ctrl, alt, shift), "{text}");
        }
    }
}

#[test]
fn shift_with_tab_is_one_key() {
    let k = KeyBinding::parse("Shift+Tab").unwrap();
    assert_eq!(k, KeyBinding::new(KeyCode::BackTab, false, false, false));
}

#[test]
fn setting_a_binding_changes_its_row_only() {
    let standard = KeyBindings::default();
    let n = standard.entries().len();
    let new = KeyBinding::new(KeyCode::F(9), true, true, true);
    for i in 0..n {
        let mut b = KeyBindings::default();
        let (group, field) = (standard.entries()[i].group, standard.entries()[i].field);
        b.set_binding(group, field, new);
        for (j, e) in b.entries().iter().enumerate() {
            let expected = if j == i { new } else { *standard.entries()[j].binding };
            assert_eq!(*e.binding, expected, "row {j} after setting row {i}");
        }
    }
}

#[test]
fn unknown_binding_changes_nothing() {
    let mut b = KeyBindings::default();
    b.set_binding("global", "nothing", KeyBinding::new(KeyCode::F(9), false, false, false));
    b.set_binding("nothing", "quit", KeyBinding::new(KeyCode::F(9), false, false, false));
    assert_eq!(b.to_config_text(), KeyBindings::default().to_config_text());
}

#[test]
fn empty_configuration_keeps_the_bindings() {
    let b = KeyBindings::merge(RawConfig::default(), &KeyBindings::default());
    assert_eq!(b.to_config_text(), KeyBindings::default().to_config_text());
    assert!(b.to_config_text().starts_with("[global]\nquit = \"Alt+Q\"\n"));
}

#[test]
fn editor_shows_every_binding_once() {
    let shown: Vec<usize> = (0..EDITOR_ROW_COUNT).filter_map(editor_binding_index).collect();
    assert_eq!(shown, (0..KeyBindings::default().entries().len()).collect::<Vec<_>>());
    assert_eq!(editor_binding_index(HEADER_GLOBAL), None);
    assert_eq!(editor_binding_index(HEADER_CONNECT), None);
    assert_eq!(editor_binding_index(HEADER_BROWSER), None);
    assert_eq!(editor_binding_index(EDITOR_ROW_COUNT), None);
}

#[test]
fn editor_cursor_avoids_headings() {
    let mut s = ListState::default();
    s.select(Some(1));
    for _ in 0..2 * EDITOR_ROW_COUNT {
        editor_nav_down(&mut s);
        assert!(editor_binding_index(s.selected().unwrap()).is_some());
    }
    assert_eq!(s.selected(), Some(EDITOR_ROW_COUNT - 1));
    for _ in 0..2 * EDITOR_ROW_COUNT {
        editor_nav_up(&mut s);
        assert!(editor_binding_index(s.selected().unwrap()).is_some());
    }
    assert_eq!(s.selected(), Some(1));
}

// ---- Browsers ------------------------------------------------------------

#[test]
fn sftp_transfers_go_in_order() {
    let mut fb = FileBrowser::new("h", "/l");
    fb.sftp_state = SftpState::Idle;
    fb.core.transfer.pending = vec![pending("a"), pending("b"), pending("c")];
    fb.core.transfer.pending_direction = Some(TransferDirection::Download);
    let mut names = Vec::new();
    for _ in 0..3 {
        fb.sftp_state = SftpState::Idle;
        fb.chain_next_queued(NOW);
        names.push(fb.core.transfer.current.as_ref().unwrap().name.clone());
    }
    assert_eq!(names, ["a", "b", "c"]);
    assert!(fb.core.transfer.pending.is_empty());
    assert_eq!(fb.sftp.outbox.len(), 3);
    assert!(fb.sftp.outbox[0].starts_with("get "));
}

#[test]
fn scp_transfers_go_in_order() {
    let mut sb = SshBrowser::new("h", "/l");
    sb.ssh_state = SshBrowserState::Idle;
    sb.core.transfer.pending = vec![pending("a"), pending("b")];
    sb.core.transfer.pending_direction = Some(TransferDirection::Upload);
    sb.chain_next_queued();
    assert_eq!(sb.scp_request.as_ref().unwrap().name, "a");
    assert_eq!(sb.core.transfer.pending.len(), 1);
    sb.scp_started(NOW);
    assert_eq!(sb.ssh_state, SshBrowserState::Transferring);
    assert!(sb.scp_request.is_none());
    assert!(sb.scp_pty.is_some());
}

#[test]
fn scp_that_does_not_start_leaves_the_queue() {
    let mut sb = SshBrowser::new("h", "/l");
    sb.ssh_state = SshBrowserState::Idle;
    sb.core.transfer.pending = vec![pending("a"), pending("b")];
    sb.core.transfer.pending_direction = Some(TransferDirection::Upload);
    sb.upload();
    sb.scp_failed("no such program");
    assert_eq!(sb.core.transfer.pending.len(), 1);
    assert_eq!(sb.ssh_state, SshBrowserState::Idle);
    assert_eq!(sb.core.status_msg, "SCP error: no such program");
    assert_eq!(sb.core.status_color, Color::Red);
}

#[test]
fn busy_browsers_take_nothing() {
    let mut fb = FileBrowser::new("h", "/l");
    fb.core.focus = BrowserFocus::Remote;
    fb.core.remote.entries = vec![entry("..", true), entry("f", false)];
    fb.core.remote.sel.select(Some(1));
    for state in [SftpState::Connecting, SftpState::WaitingPwd, SftpState::Transferring] {
        fb.sftp_state = state;
        fb.download(NOW);
        fb.go_up(NOW);
        fb.delete_focused();
        assert_eq!(fb.sftp_state, state);
    }
    assert!(fb.sftp.outbox.is_empty());
    assert!(fb.core.delete.confirm.is_none());
}

#[test]
fn local_deletions_follow_each_other() {
    let target = |path: &str| DeleteTarget {
        location: DeleteLocation::Local,
        kind: DeleteKind::File,
        path: path.to_string(),
    };
    let mut fb = FileBrowser::new("h", "/l");
    fb.core.delete.confirm = Some(target("/l/a"));
    fb.core.delete.pending = vec![target("/l/b")];
    fb.confirm_delete_yes();
    assert!(fb.core.delete.removing);
    fb.local_deleted(None);
    assert_eq!(fb.core.delete.confirm.as_ref().unwrap().path, "/l/b");
    assert!(fb.core.delete.removing);
    fb.local_deleted(Some("denied"));
    assert!(fb.core.delete.confirm.is_none());
    assert_eq!(fb.core.status_msg, "Delete failed: denied");
}

#[test]
fn focus_changes_back() {
    let mut core = BrowserCore::new("h", "/l");
    core.selected.insert(2);
    core.toggle_focus();
    assert_eq!(core.focus, BrowserFocus::Remote);
    assert!(core.selected.is_empty());
    core.toggle_focus();
    assert_eq!(core.focus, BrowserFocus::Local);
    assert_eq!(core.local.path, "/l");
}

#[test]
fn going_into_a_directory_and_up_leads_back() {
    let mut core = BrowserCore::new("h", "/l");
    core.remote.path = "/home/user".to_string();
    core.apply_cd("docs");
    core.apply_cd("..");
    assert_eq!(core.remote.path, "/home/user");
}

#[test]
fn selected_rows_come_in_order() {
    let mut core = BrowserCore::new("h", "/l");
    for i in [5, 1, 3] {
        core.selected.insert(i);
    }
    assert_eq!(core.selected_indices(), [1, 3, 5]);
}

#[test]
fn panels_fill_their_area() {
    for width in [0u16, 1, 2, 79, 80] {
        let l = browser_layout(Rect::new(3, 4, width, 10));
        assert_eq!(l.local_panel.x, 3);
        assert_eq!(l.remote_panel.x, l.local_panel.x + l.local_panel.width);
        assert_eq!(l.local_panel.width + l.remote_panel.width, width);
    }
}

#[test]
fn paste_is_looked_up_after_a_while() {
    let mut core = BrowserCore::new("h", "/l");
    core.paste_char('/', 100);
    core.paste_char('a', 110);
    assert!(core.dropped.is_none());
    core.check_paste_deadline(111);
    assert!(core.dropped.is_none());
    core.check_paste_deadline(10_000);
    assert_eq!(core.dropped, Some(vec!["/a".to_string()]));
    core.resolve_drop(vec!["/a".to_string()]);
    assert_eq!(core.status_msg, "1 file(s) ready to upload");
    assert_eq!(core.drop_confirm, Some(vec!["/a".to_string()]));
}

#[test]
fn dropped_names_are_told_apart() {
    assert_eq!(parse_dropped_paths("\"/a b\" \"/c\""), ["/a b", "/c"]);
    assert_eq!(parse_dropped_paths("/a b /c"), ["/a b", "/c"]);
    assert!(parse_dropped_paths("   ").is_empty());
}

#[test]
fn queued_names_that_are_gone_are_passed_over() {
    let mut core = BrowserCore::new("h", "/l");
    core.focus = BrowserFocus::Remote;
    core.remote.entries = vec![entry("..", true), entry("b", false)];
    core.transfer.pending = vec![pending("a"), pending("b"), pending("c")];
    assert_eq!(core.pop_pending_transfer(), Some(1));
    assert_eq!(core.transfer.pending.len(), 1);
    assert_eq!(core.pop_pending_transfer(), None);
    assert!(core.transfer.pending.is_empty());
}

// ---- Output of processes -------------------------------------------------

#[test]
fn output_without_escapes_is_kept() {
    assert_eq!(strip_ansi(b"plain \xc3\xa9 text"), "plain é text");
    assert!(!strip_ansi(b"\x1b[1mbold\x1b[0m \x1b]0;t\x07x").contains('\x1b'));
}

#[test]
fn broken_bytes_are_replaced() {
    let mut p = PtyChannel::new();
    p.feed(b"a\xff\nb");
    assert_eq!(p.raw_lines(), ["a\u{fffd}", "b"]);
    assert_eq!(p.raw_seq(), 4);
    p.drain_raw_keep(1);
    assert_eq!(p.raw_tail(5), b"b");
    assert!(p.take_dirty());
    assert!(!p.take_dirty());
}

#[test]
fn errors_are_found_in_capitals() {
    let lines = vec!["PERMISSION Denied".to_string()];
    assert!(contains_any_error(&lines, &["permission denied"]));
    assert!(!contains_any_error(&lines, &["no such file"]));
}

#[test]
fn quoted_text_is_one_word() {
    assert_eq!(shell_quote("it's"), "'it'\\''s'");
}

#[test]
fn listings_are_sorted() {
    let lines: Vec<String> = [
        "-rw-r--r-- 1 u g 1 Jan 1 12:00 b",
        "-rw-r--r-- 1 u g 1 Jan 1 12:00 a",
        "drwxr-xr-x 2 u g 1 Jan 1 12:00 z",
    ]
    .iter()
    .map(|s| s.to_string())
    .collect();
    let names: Vec<String> = parse_ls(&lines).into_iter().map(|e| e.name).collect();
    assert_eq!(names, ["..", "z", "a", "b"]);
}

#[test]
fn local_files_are_listed() {
    let mut core = BrowserCore::new("h", "/l");
    assert!(core.reload_local);
    core.set_local_items(&[
        DirItem { name: "f".to_string(), meta: None },
        DirItem {
            name: "d".to_string(),
            meta: Some(ItemMeta { is_dir: true, len: 0, modified: Some(0) }),
        },
    ]);
    assert!(!core.reload_local);
    let names: Vec<&str> = core.local.entries.iter().map(|e| e.name.as_str()).collect();
    assert_eq!(names, ["..", "d", "f"]);
    assert_eq!(core.local.entries[1].modified, "1970-01-01 00:00");
}

// ---- Tabs and panes ------------------------------------------------------

#[test]
fn closing_a_new_tab_undoes_it() {
    let mut app = App::new();
    app.tabs[0].name = "first".to_string();
    app.new_tab();
    app.close_tab();
    assert_eq!(app.tabs.len(), 1);
    assert_eq!(app.selected_tab, 0);
    assert_eq!(app.tabs[0].name, "first");
}

#[test]
fn panes_lie_inside_their_area() {
    let mut tab = Tab::new("t");
    let area = Rect::new(7, 3, 40, 20);
    tab.split(Split::LeftRight, area);
    tab.split(Split::TopBottom, area);
    tab.split(Split::LeftRight, area);
    let areas = tab.root.leaf_areas(area);
    assert_eq!(areas.len(), 4);
    for a in areas {
        assert!(a.x >= area.x && a.x + a.width <= area.x + area.width);
        assert!(a.y >= area.y && a.y + a.height <= area.y + area.height);
        assert!(a.width > 0 && a.height > 0);
    }
}

#[test]
fn tracks_are_divided_by_their_shares() {
    let parts = split_areas(Rect::new(0, 0, 31, 5), Split::LeftRight, &vec![100, 200]);
    assert_eq!(parts, [Rect::new(0, 0, 10, 5), Rect::new(11, 0, 20, 5)]);
    let parts = split_areas(Rect::new(0, 0, 8, 30), Split::TopBottom, &vec![100, 200]);
    assert_eq!(parts, [Rect::new(0, 0, 8, 10), Rect::new(0, 10, 8, 20)]);
}

#[test]
fn focus_moves_to_the_neighbour() {
    let mut tab = Tab::new("t");
    let area = Rect::new(0, 0, 41, 20);
    tab.split(Split::LeftRight, area);
    tab.focus_idx = 0;
    tab.focus_dir(FocusDir::Right, area);
    assert_eq!(tab.focus_idx, 1);
    tab.focus_dir(FocusDir::Up, area);
    assert_eq!(tab.focus_idx, 1);
    tab.focus_dir(FocusDir::Left, area);
    assert_eq!(tab.focus_idx, 0);
}

#[test]
fn paths_lead_down_the_tree() {
    let mut tab = Tab::new("t");
    assert!(matches!(split_at_path(&tab.root, &[]), Some(Pane::Connect(_))));
    assert!(split_at_path(&tab.root, &[0]).is_none());
    tab.split(Split::LeftRight, Rect::new(0, 0, 40, 20));
    assert!(matches!(split_at_path(&tab.root, &[]), Some(Pane::Split { .. })));
    assert!(matches!(split_at_path(&tab.root, &[1]), Some(Pane::Connect(_))));
    assert!(split_at_path(&tab.root, &[2]).is_none());
    assert!(split_at_path(&tab.root, &[1, 0]).is_none());
}

#[test]
fn sessions_are_opened_on_known_hosts_only() {
    let mut app = App::new();
    app.hosts = parse_ssh_config("Host web *.example db\n  HostName 10.0.0.1\nhost=x\nHOST mail\n");
    let labels: Vec<&str> = app.hosts.iter().map(|h| h.label.as_str()).collect();
    assert_eq!(labels, ["web", "db", "mail"]);
    assert!(app.open_session(3, EmbeddedTerminal::new(1, 24, 80)).is_err());
    assert!(app.open_browser(9, "/l", 1).is_err());
    assert!(app.open_ssh_browser(9, "/l", 1).is_err());
    assert!(app.open_session(1, EmbeddedTerminal::new(1, 24, 80)).is_ok());
    assert_eq!(app.tab().name, "db");
    app.send_str("ls");
    if let Some(Pane::Session { terminal, ssh_args, .. }) = app.tab().focused_pane() {
        assert_eq!(ssh_args, "db");
        assert_eq!(terminal.outbox, ["ls"]);
    } else {
        panic!("expected a session");
    }
}

// ---- Keys and clicks -----------------------------------------------------

#[test]
fn control_keys_send_control_characters() {
    let send = |code, ctrl, alt, app| key_sequence(code, ctrl, alt, app);
    assert_eq!(send(KeyCode::Char('c'), true, false, false), Some("\x03".to_string()));
    assert_eq!(send(KeyCode::Char('a'), false, false, false), Some("a".to_string()));
    assert_eq!(send(KeyCode::Up, false, false, false), Some("\x1b[A".to_string()));
    assert_eq!(send(KeyCode::Up, false, false, true), Some("\x1bOA".to_string()));
    assert_eq!(send(KeyCode::CapsLock, false, false, false), None);
}

#[test]
fn clicks_are_told_in_the_notation_of_terminals() {
    let down = MouseEventKind::Down(MouseButton::Left);
    assert_eq!(mouse_sequence(down, 4, 9, false), Some("\x1b[<0;5;10M".to_string()));
    let up = MouseEventKind::Up(MouseButton::Left);
    assert_eq!(mouse_sequence(up, 4, 9, false), Some("\x1b[<0;5;10m".to_string()));
    assert_eq!(mouse_sequence(MouseEventKind::Moved, 4, 9, false), None);
}

// ---- What is shown -------------------------------------------------------

#[test]
fn cursor_of_a_long_text_is_in_sight() {
    let mut f = InputField::new();
    f.paste("abcdefghij");
    let (text, cursor) = f.view_in(4);
    assert!(cursor < 4);
    assert!(text.chars().count() <= 4);
    f.move_home();
    let (text, cursor) = f.view_in(4);
    assert_eq!(cursor, 0);
    assert!(text.starts_with('a'));
}

#[test]
fn texts_are_padded_and_boxes_centered() {
    assert_eq!(pad_right("ab", 4), "ab  ");
    assert_eq!(pad_left("ab", 4), "  ab");
    assert_eq!(pad_left("abcdef", 4), "abcdef");
    let inner = Rect::new(10, 10, 20, 10);
    assert_eq!(centered(inner, 10, 4), Rect::new(15, 13, 10, 4));
    assert_eq!(pane_inner(Rect::new(0, 0, 20, 10)), Rect::new(0, 0, 20, 9));
}

#[test]
fn selected_tab_stands_out() {
    let tabs = vec![Tab::new("a"), Tab::new("b")];
    let bar = render_tab_bar(&tabs, 1);
    let text: String = bar.iter().map(|p| p.text.as_str()).collect();
    assert_eq!(text, " a  │  b ");
    assert_eq!(bar[2].style, Style::bold(Color::Yellow));
    assert_eq!(bar[0].style, Style::plain(Color::White));
    assert_eq!(render_menu_item("ab", 6), "  ab  ");
    assert_eq!(menu_item_style(1, Some(1)), Style::bold(Color::Yellow));
    assert_eq!(menu_item_style(1, None), Style::plain(Color::White));
}

#[test]
fn hint_names_the_key_for_help() {
    let bindings = KeyBindings::default();
    let view = ConnectView { hosts: &[], keybindings: &bindings };
    let plan = view.render(Rect::new(0, 0, 40, 10), &ConnectPane::new());
    let hint: String = plan.hint.iter().map(|p| p.text.as_str()).collect();
    assert_eq!(hint, "  H keybindings");
    assert_eq!(plan.hint_y, 9);
    assert_eq!(plan.list_area, Rect::new(0, 0, 40, 9));
    assert!(matches!(plan.overlay, OverlayPlan::Closed));
}

#[test]
fn ended_session_offers_two_choices() {
    let inner = Rect::new(0, 0, 80, 24);
    let (area, first) = render_exit_overlay(inner, 0);
    let (_, second) = render_exit_overlay(inner, 1);
    assert!(area.width <= 80 && area.height <= 24);
    let text = |v: &Vec<sshmux::view::Piece>| -> String { v.iter().map(|p| p.text.as_str()).collect() };
    assert!(text(&first).contains("Reconnect") && text(&first).contains("Close pane"));
    assert_ne!(
        first.iter().map(|p| p.style).collect::<Vec<_>>(),
        second.iter().map(|p| p.style).collect::<Vec<_>>()
    );
}

#[test]
fn browser_shows_its_parts() {
    let mut fb = FileBrowser::new("h", "/l");
    fb.sftp_state = SftpState::Idle;
    fb.core.status_msg = "ready".to_string();
    let bindings = KeyBindings::default().browser;
    let area = Rect::new(0, 0, 60, 12);
    let plan = fb.render(area, true, 2, &bindings, NOW);
    assert_eq!(plan.layout.local_panel.y, 1);
    assert_eq!(plan.layout.status.y, 11);
    match plan.status {
        StatusPlan::Normal { left, help, help_x } => {
            let text: String = left.iter().map(|p| p.text.as_str()).collect();
            assert_eq!(text, "[idle] ready");
            assert_eq!(help, " [T]xfer [Delete]rm ");
            assert_eq!(help_x, 40);
        }
        _ => panic!("expected the status"),
    }
    assert!(plan.drop.is_none() && plan.transfer.is_none() && plan.arrows.is_none());
    fb.core.delete.confirm = Some(DeleteTarget {
        location: DeleteLocation::Remote,
        kind: DeleteKind::File,
        path: "/r/f".to_string(),
    });
    let plan = fb.render(area, true, 1, &bindings, NOW);
    assert_eq!(plan.layout.local_panel.y, 0);
    assert!(matches!(plan.status, StatusPlan::Question(q) if q.contains("'/r/f'?")));
}

#[test]
fn password_prompt_takes_the_last_row() {
    let mut sb = SshBrowser::new("h", "/l");
    sb.waiting_password = true;
    sb.password_buf = "ab".to_string();
    let bindings = KeyBindings::default().browser;
    let plan = sb.render(Rect::new(0, 0, 30, 12), true, 1, &bindings, NOW);
    assert!(matches!(plan.status, StatusPlan::Password(s) if s == format!("{:<30}", "  Password: **█")));
}

#[test]
fn application_shows_its_panes() {
    let mut app = App::new();
    let full = Rect::new(0, 0, 41, 12);
    app.split_focused(Split::LeftRight, full);
    app.context_menu = Some(ContextMenu { col: 20, row: 5, selected: Some(0) });
    let plan = app.render(full, &Vec::new(), NOW);
    assert_eq!(plan.content, Rect::new(0, 0, 41, 11));
    assert_eq!(plan.tab.panes.len(), 2);
    assert_eq!(plan.tab.panes.iter().filter(|p| p.is_focus).count(), 1);
    assert_eq!(plan.tab.canvas.get(20, 0), "┬");
    let menu = plan.menu.unwrap();
    assert_eq!(menu.items.len(), 5);
    assert_eq!(menu.items[0].text.trim(), "New tab");
    app.tab_mut().zoom = true;
    let plan = app.render(full, &Vec::new(), NOW);
    assert_eq!(plan.tab.panes.len(), 1);
    assert_eq!(plan.tab.panes[0].inner, plan.content);
    assert!(plan.tab.canvas.cells.iter().all(|c| c == " "));
}

#[test]
fn ended_session_shows_its_screen_and_the_choice() {
    let mut app = App::new();
    let mut t = EmbeddedTerminal::new(7, 2, 4);
    t.exited = true;
    app.open_session_raw("user@host", t);
    let cell = |s: &str| ScreenCell {
        contents: s.to_string(),
        fg: ScreenColor::Default,
        bg: ScreenColor::Default,
        bold: false,
        dim: false,
        italic: false,
        underline: false,
        inverse: false,
    };
    let screen = Screen {
        cells: vec![vec![cell("h"), cell("i")]],
        cursor: (0, 1),
        hide_cursor: false,
    };
    let plan = app.render(Rect::new(0, 0, 40, 12), &vec![(3, Screen {
        cells: Vec::new(),
        cursor: (0, 0),
        hide_cursor: true,
    }), (7, screen)], NOW);
    let pane = &plan.tab.panes[0];
    match &pane.content {
        LeafContent::Session(cells) => {
            assert_eq!(cells[0].symbol, "h");
            assert_eq!(cells[1].symbol, "i");
            assert!(cells[1].modifier.reversed);
        }
        _ => panic!("expected a session"),
    }
    assert!(pane.ended.is_some());
}

#[test]
fn no_escape_is_left_in_invalid_output() {
    assert_eq!(strip_ansi(b"\xff\x1b[31ma"), "\u{fffd}a");
    assert!(!strip_ansi(b"\xc3\x1b[1m\xe6\x97\x1b]0;t\x07x\x1b").contains('\x1b'));
}

#[test]
fn quotes_come_off_again() {
    for x in ["", "file", "my file", " at both ends ", "a\"b", "日本"] {
        let quoted: Vec<char> = shell_quote(x).chars().collect();
        let plain: String = strip_shell_quote(&quoted).iter().collect();
        assert_eq!(plain, x);
    }
    // A single quote in the text is written with others, and all of them stay.
    let quoted: Vec<char> = shell_quote("it's").chars().collect();
    assert_eq!(strip_shell_quote(&quoted), quoted);
}

#[test]
fn boundary_of_dropped_paths() {
    let at = |s: &str| find_path_boundary(&s.chars().collect::<Vec<char>>());
    assert_eq!(at(""), 0);
    assert_eq!(at("/"), 1);
    assert_eq!(at("/a b"), 4);
    assert_eq!(at("/a b /c"), 4);
    assert_eq!(at("/a C:\\b"), 2);
}

fn local_browser() -> FileBrowser {
    let mut fb = FileBrowser::new("h", "/l");
    fb.sftp_state = SftpState::Idle;
    fb.core.local.entries = vec![entry("..", true), entry("a", false), entry("b", false)];
    fb.core.local.sel.select(Some(1));
    fb
}

#[test]
fn refusal_disarms_a_removal() {
    let mut fb = local_browser();
    fb.delete_focused();
    fb.confirm_delete_yes();
    assert!(fb.core.delete.removing);
    fb.core.confirm_delete_no();
    assert!(!fb.core.delete.removing);
    fb.core.local.sel.select(Some(2));
    fb.delete_focused();
    assert_eq!(fb.core.delete.confirm.as_ref().unwrap().path, "/l/b");
    assert!(!fb.core.delete.removing);
}

#[test]
fn another_question_disarms_a_removal() {
    let mut sb = SshBrowser::new("h", "/l");
    sb.core.local.entries = vec![entry("..", true), entry("a", false), entry("b", false)];
    sb.core.local.sel.select(Some(1));
    sb.delete_focused();
    sb.confirm_delete_yes();
    assert!(sb.core.delete.removing);
    sb.core.local.sel.select(Some(2));
    sb.delete_focused();
    assert_eq!(sb.core.delete.confirm.as_ref().unwrap().path, "/l/b");
    assert!(!sb.core.delete.removing);
    sb.confirm_delete_yes();
    assert!(sb.core.delete.removing);
    // The same for several at once.
    sb.core.selected.insert(1);
    sb.core.selected.insert(2);
    sb.delete_focused();
    assert_eq!(sb.core.delete.confirm.as_ref().unwrap().path, "/l/a");
    assert_eq!(sb.core.delete.pending.len(), 1);
    assert!(!sb.core.delete.removing);
}

#[test]
fn no_key_takes_a_yes_back() {
    let bindings = KeyBindings::default().browser;
    let at = Moment::at(NOW);
    let mut fb = local_browser();
    fb.press(KeyCode::Delete, false, false, false, &bindings, &at);
    assert_eq!(fb.core.delete.confirm.as_ref().unwrap().path, "/l/a");
    assert!(!fb.core.delete.removing);
    fb.press(KeyCode::Char('y'), false, false, false, &bindings, &at);
    assert!(fb.core.delete.removing);
    for code in [KeyCode::Char('n'), KeyCode::Esc, KeyCode::Delete, KeyCode::Char('y')] {
        fb.press(code, false, false, false, &bindings, &at);
        assert_eq!(fb.core.delete.confirm.as_ref().unwrap().path, "/l/a");
        assert!(fb.core.delete.removing);
    }
    fb.local_deleted(None);
    assert!(fb.core.delete.confirm.is_none());
    assert!(!fb.core.delete.removing);
    assert_eq!(fb.core.status_msg, "Deleted: /l/a");
}

#[test]
fn listing_does_not_answer_a_question() {
    let mut fb = local_browser();
    fb.core.selected.insert(1);
    fb.core.selected.insert(2);
    fb.delete_focused();
    assert_eq!(fb.core.delete.confirm.as_ref().unwrap().path, "/l/a");
    assert_eq!(fb.core.delete.pending.len(), 1);
    fb.sftp_state = SftpState::WaitingLs;
    fb.sftp.feed(b"sftp> ");
    for _ in 0..4 {
        fb.tick(NOW);
    }
    assert_eq!(fb.sftp_state, SftpState::Idle);
    assert_eq!(fb.core.delete.confirm.as_ref().unwrap().path, "/l/a");
    assert_eq!(fb.core.delete.pending.len(), 1);
    assert!(!fb.core.delete.removing);
    // Nor does the reply to a deletion that was confirmed before.
    fb.sftp_state = SftpState::WaitingDelete;
    fb.core.delete.pending_name = Some("/r/x".to_string());
    fb.sftp.feed(b"sftp> ");
    for _ in 0..4 {
        fb.tick(NOW);
    }
    assert_eq!(fb.sftp_state, SftpState::WaitingLs);
    assert_eq!(fb.core.delete.confirm.as_ref().unwrap().path, "/l/a");
    assert!(!fb.core.delete.removing);
}

#[test]
fn awaited_scp_keeps_the_browser_busy() {
    let mut sb = SshBrowser::new("h", "/l");
    sb.ssh_state = SshBrowserState::Idle;
    sb.core.focus = BrowserFocus::Remote;
    sb.core.remote.path = "/r".to_string();
    sb.core.remote.entries = vec![entry("..", true), entry("d", true), entry("f", false)];
    sb.core.remote.sel.select(Some(2));
    sb.delete_focused();
    sb.download();
    assert!(sb.scp_request.is_some());
    sb.core.remote.sel.select(Some(1));
    sb.enter(NOW);
    sb.go_up(NOW);
    sb.confirm_delete_yes();
    sb.tick(NOW);
    assert_eq!(sb.ssh_state, SshBrowserState::Idle);
    assert_eq!(sb.core.remote.path, "/r");
    assert!(sb.ssh.outbox.is_empty());
    assert_eq!(sb.core.delete.confirm.as_ref().unwrap().path, "/r/f");
    sb.core.confirm_delete_no();
    sb.delete_focused();
    assert!(sb.core.delete.confirm.is_none());
    sb.scp_started(NOW);
    assert_eq!(sb.ssh_state, SshBrowserState::Transferring);
}

#[test]
fn unlisted_directory_offers_nothing() {
    let mut fb = local_browser();
    fb.core.local.entries[1].is_dir = true;
    fb.enter(NOW);
    assert_eq!(fb.core.local.path, "/l/a");
    assert!(fb.core.reload_local);
    let names: Vec<&str> = fb.core.local.entries.iter().map(|e| e.name.as_str()).collect();
    assert_eq!(names, [".."]);
    fb.core.local.sel.select(Some(2));
    fb.delete_focused();
    assert!(fb.core.delete.confirm.is_none());
    fb.upload(NOW);
    assert_eq!(fb.sftp_state, SftpState::Idle);
}

#[test]
fn dropped_paths_scroll_by_bytes() {
    let mut core = BrowserCore::new("h", "/l");
    core.drop_confirm = Some(vec!["/é日x".to_string()]);
    let shown = |core: &mut BrowserCore, x: usize| {
        core.drop_scroll_x = x;
        let (_, lines) = core.render_upload_confirm(Rect::new(0, 0, 80, 24)).unwrap();
        lines[2][0].text.clone()
    };
    // Two blanks, the slash, and characters of two, three and one bytes.
    assert_eq!(shown(&mut core, 0), "  /é日x");
    assert_eq!(shown(&mut core, 1), "…/é日x");
    assert_eq!(shown(&mut core, 2), "…é日x");
    assert_eq!(shown(&mut core, 3), "…日x");
    assert_eq!(shown(&mut core, 4), "…日x");
    assert_eq!(shown(&mut core, 5), "…x");
    assert_eq!(shown(&mut core, 7), "…x");
    assert_eq!(shown(&mut core, 8), "…");
    assert_eq!(shown(&mut core, 9), "  /é日x");
}
