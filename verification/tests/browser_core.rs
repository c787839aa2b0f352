//! What the two browsers share.
use sshmux::browser::common::keys::{handle_browser_key, Moment};
use sshmux::browser::common::{
    BrowserCore, BrowserFocus, BrowserKeyAction, DeleteKind, DeleteLocation, DeleteTarget,
};
use sshmux::browser::parse::FsEntry;
use sshmux::event::KeyCode;
use sshmux::keybindings::BrowserBindings;
use sshmux::list_state::ListState;
use sshmux::style::Color;

/// An entry of a listing.
fn dummy_entry(name: &str, is_dir: bool) -> FsEntry {
    FsEntry {
        name: name.to_string(),
        is_dir,
        is_link: false,
        size: "0".to_string(),
        perms: "drwxr-xr-x".to_string(),
        modified: "2025-01-01".to_string(),
    }
}

fn core_with_remote_entries(names: &[(&str, bool)]) -> BrowserCore {
    let mut core = BrowserCore::new("test-host", "/start");
    core.remote.entries = names.iter().map(|(n, d)| dummy_entry(n, *d)).collect();
    core.remote.sel.select(Some(0));
    core
}

fn remote_file(path: &str) -> DeleteTarget {
    DeleteTarget {
        location: DeleteLocation::Remote,
        kind: DeleteKind::File,
        path: path.to_string(),
    }
}

fn press(core: &mut BrowserCore, code: KeyCode) -> BrowserKeyAction {
    let bindings = BrowserBindings::default();
    handle_browser_key(core, code, false, false, false, &bindings, &Moment::at(0))
}

#[test]
fn common_nav_down_advances_remote_selection() {
    let mut core =
        core_with_remote_entries(&[("..", true), ("dir1", true), ("file.txt", false)]);
    core.focus = BrowserFocus::Remote;
    core.remote.sel.select(Some(0));
    core.nav_down();
    assert_eq!(core.remote.sel.selected(), Some(1));
}

#[test]
fn common_nav_up_retreats_remote_selection() {
    let mut core =
        core_with_remote_entries(&[("..", true), ("dir1", true), ("file.txt", false)]);
    core.focus = BrowserFocus::Remote;
    core.remote.sel.select(Some(2));
    core.nav_up();
    assert_eq!(core.remote.sel.selected(), Some(1));
}

// ---- toggle_focus -------------------------------------------------------

#[test]
fn common_toggle_focus_switches_local_to_remote() {
    let mut core = BrowserCore::new("host", "/start");
    assert_eq!(core.focus, BrowserFocus::Local);
    core.toggle_focus();
    assert_eq!(core.focus, BrowserFocus::Remote);
}

#[test]
fn common_toggle_focus_switches_remote_to_local() {
    let mut core = BrowserCore::new("host", "/start");
    core.focus = BrowserFocus::Remote;
    core.toggle_focus();
    assert_eq!(core.focus, BrowserFocus::Local);
}

#[test]
fn common_toggle_focus_dismisses_drive_picker() {
    let mut core = BrowserCore::new("host", "/start");
    core.drive_picker = Some((vec![], ListState::default()));
    core.toggle_focus();
    assert!(core.drive_picker.is_none());
}

// ---- scroll_left / scroll_right -----------------------------------------

#[test]
fn common_scroll_right_increments_by_four() {
    let mut core = BrowserCore::new("host", "/start");
    core.scroll_right();
    assert_eq!(core.local.scroll_x, 4);
    assert!(core.needs_redraw);
}

#[test]
fn common_scroll_left_decrements_by_four() {
    let mut core = BrowserCore::new("host", "/start");
    core.local.scroll_x = 8;
    core.scroll_left();
    assert_eq!(core.local.scroll_x, 4);
}

#[test]
fn common_scroll_left_saturates_at_zero() {
    let mut core = BrowserCore::new("host", "/start");
    core.local.scroll_x = 2;
    core.scroll_left();
    assert_eq!(core.local.scroll_x, 0);
}

#[test]
fn common_scroll_left_noop_when_zero() {
    let mut core = BrowserCore::new("host", "/start");
    core.needs_redraw = false;
    core.scroll_left();
    assert!(!core.needs_redraw);
}

#[test]
fn common_scroll_affects_remote_when_focused() {
    let mut core = BrowserCore::new("host", "/start");
    core.focus = BrowserFocus::Remote;
    core.scroll_right();
    assert_eq!(core.remote.scroll_x, 4);
    assert_eq!(core.local.scroll_x, 0);
}

// ---- apply_cd -----------------------------------------------------------

#[test]
fn common_apply_cd_subdir() {
    let mut core = BrowserCore::new("host", "/start");
    core.remote.path = "/home/user".to_string();
    core.apply_cd("docs");
    assert_eq!(core.remote.path, "/home/user/docs");
}

#[test]
fn common_apply_cd_parent() {
    let mut core = BrowserCore::new("host", "/start");
    core.remote.path = "/home/user/docs".to_string();
    core.apply_cd("..");
    assert_eq!(core.remote.path, "/home/user");
}

#[test]
fn common_apply_cd_parent_at_root() {
    let mut core = BrowserCore::new("host", "/start");
    core.remote.path = "/".to_string();
    core.apply_cd("..");
    assert_eq!(core.remote.path, "/");
}

#[test]
fn common_apply_cd_parent_from_top_level_dir() {
    let mut core = BrowserCore::new("host", "/start");
    core.remote.path = "/home".to_string();
    core.apply_cd("..");
    assert_eq!(core.remote.path, "/");
}

#[test]
fn common_apply_cd_no_double_slash() {
    let mut core = BrowserCore::new("host", "/start");
    core.remote.path = "/home/user/".to_string();
    core.apply_cd("docs");
    assert_eq!(core.remote.path, "/home/user/docs");
}

// ---- format_duration ----------------------------------------------------

#[test]
fn common_format_duration_millis() {
    assert_eq!(BrowserCore::format_duration(42), "42ms");
}

#[test]
fn common_format_duration_seconds() {
    assert_eq!(BrowserCore::format_duration(5000), "5s");
}

#[test]
fn common_format_duration_minutes() {
    assert_eq!(BrowserCore::format_duration(120000), "2m");
}

#[test]
fn common_format_duration_hours() {
    assert_eq!(BrowserCore::format_duration(7200000), "2h");
}

#[test]
fn common_format_duration_boundary_999ms() {
    assert_eq!(BrowserCore::format_duration(999), "999ms");
}

#[test]
fn common_format_duration_boundary_1000ms() {
    assert_eq!(BrowserCore::format_duration(1000), "1s");
}

// ---- confirm_delete_no --------------------------------------------------

#[test]
fn common_confirm_delete_no_clears_state() {
    let mut core = BrowserCore::new("host", "/start");
    core.delete.confirm = Some(remote_file("/tmp/test.txt"));
    core.confirm_delete_no();
    assert!(core.delete.confirm.is_none());
    assert_eq!(core.status_msg, "Deletion cancelled.");
    assert_eq!(core.status_color, Color::Yellow);
    assert!(core.needs_redraw);
}

// ---- local_delete_focused -----------------------------------------------

#[test]
fn common_local_delete_focused_sets_confirm() {
    let mut core = BrowserCore::new("host", "/start");
    core.local.entries = vec![dummy_entry("..", true), dummy_entry("myfile.txt", false)];
    core.local.sel.select(Some(1));
    core.local_delete_focused();
    assert!(core.delete.confirm.is_some());
    let target = core.delete.confirm.unwrap();
    assert_eq!(target.location, DeleteLocation::Local);
    assert_eq!(target.kind, DeleteKind::File);
    assert!(target.path.contains("myfile.txt"));
}

#[test]
fn common_local_delete_focused_skips_dotdot() {
    let mut core = BrowserCore::new("host", "/start");
    core.local.entries = vec![dummy_entry("..", true)];
    core.local.sel.select(Some(0));
    core.local_delete_focused();
    assert!(core.delete.confirm.is_none());
}

// ---- stop_timer ---------------------------------------------------------

#[test]
fn common_stop_timer_records_duration() {
    let mut core = BrowserCore::new("host", "/start");
    core.cmd_start = Some(1000);
    core.stop_timer(1005);
    assert!(core.cmd_start.is_none());
    assert_eq!(core.last_duration, Some(5));
}

#[test]
fn common_stop_timer_noop_without_start() {
    let mut core = BrowserCore::new("host", "/start");
    core.stop_timer(1005);
    assert!(core.last_duration.is_none());
}

// ---- dismiss_drive_picker -----------------------------------------------

#[test]
fn common_dismiss_drive_picker_when_active() {
    let mut core = BrowserCore::new("host", "/start");
    core.drive_picker = Some((vec![], ListState::default()));
    core.needs_redraw = false;
    core.dismiss_drive_picker();
    assert!(core.drive_picker.is_none());
    assert!(core.needs_redraw);
}

#[test]
fn common_dismiss_drive_picker_noop_when_none() {
    let mut core = BrowserCore::new("host", "/start");
    core.needs_redraw = false;
    core.dismiss_drive_picker();
    assert!(!core.needs_redraw);
}

// ---- handle_browser_key -------------------------------------------------

#[test]
fn common_key_tab_toggles_focus() {
    let mut core = BrowserCore::new("host", "/start");
    assert_eq!(core.focus, BrowserFocus::Local);
    let action = press(&mut core, KeyCode::Tab);
    assert!(matches!(action, BrowserKeyAction::Handled));
    assert_eq!(core.focus, BrowserFocus::Remote);
}

#[test]
fn common_key_enter_returns_enter_action() {
    let mut core = BrowserCore::new("host", "/start");
    assert!(matches!(
        press(&mut core, KeyCode::Enter),
        BrowserKeyAction::Enter
    ));
}

#[test]
fn key_space_returns_enter_action() {
    let mut core = BrowserCore::new("host", "/start");
    assert!(matches!(
        press(&mut core, KeyCode::Char(' ')),
        BrowserKeyAction::Enter
    ));
}

#[test]
fn common_key_backspace_returns_go_up() {
    let mut core = BrowserCore::new("host", "/start");
    assert!(matches!(
        press(&mut core, KeyCode::Backspace),
        BrowserKeyAction::GoUp
    ));
}

#[test]
fn common_key_t_remote_returns_download() {
    let mut core = BrowserCore::new("host", "/start");
    core.focus = BrowserFocus::Remote;
    assert!(matches!(
        press(&mut core, KeyCode::Char('t')),
        BrowserKeyAction::Download
    ));
}

#[test]
fn common_key_t_local_returns_upload() {
    let mut core = BrowserCore::new("host", "/start");
    core.focus = BrowserFocus::Local;
    assert!(matches!(
        press(&mut core, KeyCode::Char('t')),
        BrowserKeyAction::Upload
    ));
}

#[test]
fn common_key_delete_returns_delete() {
    let mut core = BrowserCore::new("host", "/start");
    assert!(matches!(
        press(&mut core, KeyCode::Delete),
        BrowserKeyAction::Delete
    ));
}

#[test]
fn common_key_unknown_returns_handled() {
    let mut core = BrowserCore::new("host", "/start");
    assert!(matches!(
        press(&mut core, KeyCode::F(5)),
        BrowserKeyAction::Handled
    ));
}

// ---- confirm delete key dispatch ----------------------------------------

#[test]
fn common_key_y_during_confirm_returns_confirm_yes() {
    let mut core = BrowserCore::new("host", "/start");
    core.delete.confirm = Some(remote_file("/tmp/x"));
    assert!(matches!(
        press(&mut core, KeyCode::Char('y')),
        BrowserKeyAction::ConfirmDeleteYes
    ));
}

#[test]
fn common_key_n_during_confirm_cancels() {
    let mut core = BrowserCore::new("host", "/start");
    core.delete.confirm = Some(remote_file("/tmp/x"));
    let action = press(&mut core, KeyCode::Char('n'));
    assert!(matches!(action, BrowserKeyAction::Handled));
    assert!(core.delete.confirm.is_none());
}

#[test]
fn common_key_esc_during_confirm_cancels() {
    let mut core = BrowserCore::new("host", "/start");
    core.delete.confirm = Some(remote_file("/tmp/x"));
    let action = press(&mut core, KeyCode::Esc);
    assert!(matches!(action, BrowserKeyAction::Handled));
    assert!(core.delete.confirm.is_none());
}

#[test]
fn common_key_random_during_confirm_is_swallowed() {
    let mut core = BrowserCore::new("host", "/start");
    core.delete.confirm = Some(remote_file("/tmp/x"));
    let action = press(&mut core, KeyCode::Char('z'));
    assert!(matches!(action, BrowserKeyAction::Handled));
    // the question is still open
    assert!(core.delete.confirm.is_some());
}

// ---- BrowserCore::new ---------------------------------------------------

#[test]
fn common_new_core_defaults() {
    let core = BrowserCore::new("myhost", "/start");
    assert_eq!(core.host, "myhost");
    assert_eq!(core.remote.path, ".");
    assert!(core.remote.entries.is_empty());
    assert_eq!(core.focus, BrowserFocus::Local);
    assert!(core.delete.confirm.is_none());
    assert!(core.drive_picker.is_none());
    assert_eq!(core.local.scroll_x, 0);
    assert_eq!(core.remote.scroll_x, 0);
    assert_eq!(core.prompt_stable, 0);
    assert_eq!(core.status_msg, "Connecting…");
}
