//! Listings, deletions, keys and the mouse in a browser.
use sshmux::browser::common::keys::{handle_browser_key, Moment};
use sshmux::browser::common::{
    BrowserCore, BrowserFocus, BrowserKeyAction, DeleteKind, DeleteLocation, DeleteTarget,
    TransferDirection,
};
use sshmux::browser::parse::FsEntry;
use sshmux::event::{KeyCode, MouseButton, MouseEventKind};
use sshmux::geometry::Rect;
use sshmux::keybindings::BrowserBindings;
use sshmux::list_state::ListState;
use sshmux::style::Color;

/// An entry of a listing.
fn dummy_entry(name: &str, is_dir: bool) -> FsEntry {
    FsEntry {
        name: name.to_string(),
        is_dir,
        is_link: false,
        size: "0".to_string(),
        perms: "drwxr-xr-x".to_string(),
        modified: "2025-01-01".to_string(),
    }
}

fn core_with_remote_entries(names: &[(&str, bool)]) -> BrowserCore {
    let mut core = BrowserCore::new("test-host", "/start");
    core.remote.entries = names.iter().map(|(n, d)| dummy_entry(n, *d)).collect();
    core.remote.sel.select(Some(0));
    core
}

#[test]
fn mod_new_core_defaults() {
    let core = BrowserCore::new("myhost", "/start");
    assert_eq!(core.host, "myhost");
    assert_eq!(core.remote.path, ".");
    assert!(core.remote.entries.is_empty());
    assert_eq!(core.focus, BrowserFocus::Local);
    assert!(core.delete.confirm.is_none());
    assert!(core.drive_picker.is_none());
    assert_eq!(core.local.scroll_x, 0);
    assert_eq!(core.remote.scroll_x, 0);
    assert_eq!(core.prompt_stable, 0);
    assert_eq!(core.status_msg, "Connecting…");
}

#[test]
fn delete_target_display_side() {
    let local = DeleteTarget {
        location: DeleteLocation::Local,
        kind: DeleteKind::File,
        path: "/x".to_string(),
    };
    let remote = DeleteTarget {
        location: DeleteLocation::Remote,
        kind: DeleteKind::Dir,
        path: "/y".to_string(),
    };
    assert_eq!(local.display_side(), "local");
    assert_eq!(remote.display_side(), "remote");
    assert!(!local.is_dir());
    assert!(remote.is_dir());
}

#[test]
fn navigation_nav_down_advances_remote_selection() {
    let mut core =
        core_with_remote_entries(&[("..", true), ("dir1", true), ("file.txt", false)]);
    core.focus = BrowserFocus::Remote;
    core.remote.sel.select(Some(0));
    core.nav_down();
    assert_eq!(core.remote.sel.selected(), Some(1));
}

#[test]
fn navigation_nav_up_retreats_remote_selection() {
    let mut core =
        core_with_remote_entries(&[("..", true), ("dir1", true), ("file.txt", false)]);
    core.focus = BrowserFocus::Remote;
    core.remote.sel.select(Some(2));
    core.nav_up();
    assert_eq!(core.remote.sel.selected(), Some(1));
}

#[test]
fn navigation_toggle_focus_switches_local_to_remote() {
    let mut core = BrowserCore::new("host", "/start");
    assert_eq!(core.focus, BrowserFocus::Local);
    core.toggle_focus();
    assert_eq!(core.focus, BrowserFocus::Remote);
}

#[test]
fn navigation_toggle_focus_switches_remote_to_local() {
    let mut core = BrowserCore::new("host", "/start");
    core.focus = BrowserFocus::Remote;
    core.toggle_focus();
    assert_eq!(core.focus, BrowserFocus::Local);
}

#[test]
fn navigation_toggle_focus_dismisses_drive_picker() {
    let mut core = BrowserCore::new("host", "/start");
    core.drive_picker = Some((vec![], ListState::default()));
    core.toggle_focus();
    assert!(core.drive_picker.is_none());
}

#[test]
fn navigation_scroll_right_increments_by_four() {
    let mut core = BrowserCore::new("host", "/start");
    core.scroll_right();
    assert_eq!(core.local.scroll_x, 4);
    assert!(core.needs_redraw);
}

#[test]
fn navigation_scroll_left_decrements_by_four() {
    let mut core = BrowserCore::new("host", "/start");
    core.local.scroll_x = 8;
    core.scroll_left();
    assert_eq!(core.local.scroll_x, 4);
}

#[test]
fn navigation_scroll_left_saturates_at_zero() {
    let mut core = BrowserCore::new("host", "/start");
    core.local.scroll_x = 2;
    core.scroll_left();
    assert_eq!(core.local.scroll_x, 0);
}

#[test]
fn navigation_scroll_left_noop_when_zero() {
    let mut core = BrowserCore::new("host", "/start");
    core.needs_redraw = false;
    core.scroll_left();
    assert!(!core.needs_redraw);
}

#[test]
fn navigation_scroll_affects_remote_when_focused() {
    let mut core = BrowserCore::new("host", "/start");
    core.focus = BrowserFocus::Remote;
    core.scroll_right();
    assert_eq!(core.remote.scroll_x, 4);
    assert_eq!(core.local.scroll_x, 0);
}

#[test]
fn navigation_apply_cd_subdir() {
    let mut core = BrowserCore::new("host", "/start");
    core.remote.path = "/home/user".to_string();
    core.apply_cd("docs");
    assert_eq!(core.remote.path, "/home/user/docs");
}

#[test]
fn navigation_apply_cd_parent() {
    let mut core = BrowserCore::new("host", "/start");
    core.remote.path = "/home/user/docs".to_string();
    core.apply_cd("..");
    assert_eq!(core.remote.path, "/home/user");
}

#[test]
fn navigation_apply_cd_parent_at_root() {
    let mut core = BrowserCore::new("host", "/start");
    core.remote.path = "/".to_string();
    core.apply_cd("..");
    assert_eq!(core.remote.path, "/");
}

#[test]
fn navigation_apply_cd_parent_from_top_level_dir() {
    let mut core = BrowserCore::new("host", "/start");
    core.remote.path = "/home".to_string();
    core.apply_cd("..");
    assert_eq!(core.remote.path, "/");
}

#[test]
fn navigation_apply_cd_no_double_slash() {
    let mut core = BrowserCore::new("host", "/start");
    core.remote.path = "/home/user/".to_string();
    core.apply_cd("docs");
    assert_eq!(core.remote.path, "/home/user/docs");
}

#[test]
fn navigation_format_duration_millis() {
    assert_eq!(BrowserCore::format_duration(42), "42ms");
}

#[test]
fn navigation_format_duration_seconds() {
    assert_eq!(BrowserCore::format_duration(5000), "5s");
}

#[test]
fn navigation_format_duration_minutes() {
    assert_eq!(BrowserCore::format_duration(120000), "2m");
}

#[test]
fn navigation_format_duration_hours() {
    assert_eq!(BrowserCore::format_duration(7200000), "2h");
}

#[test]
fn navigation_format_duration_boundary_999ms() {
    assert_eq!(BrowserCore::format_duration(999), "999ms");
}

#[test]
fn navigation_format_duration_boundary_1000ms() {
    assert_eq!(BrowserCore::format_duration(1000), "1s");
}

#[test]
fn navigation_stop_timer_records_duration() {
    let mut core = BrowserCore::new("host", "/start");
    core.cmd_start = Some(1000);
    core.stop_timer(1005);
    assert!(core.cmd_start.is_none());
    assert_eq!(core.last_duration, Some(5));
}

#[test]
fn navigation_stop_timer_noop_without_start() {
    let mut core = BrowserCore::new("host", "/start");
    core.stop_timer(1005);
    assert!(core.last_duration.is_none());
}

#[test]
fn navigation_dismiss_drive_picker_when_active() {
    let mut core = BrowserCore::new("host", "/start");
    core.drive_picker = Some((vec![], ListState::default()));
    core.needs_redraw = false;
    core.dismiss_drive_picker();
    assert!(core.drive_picker.is_none());
    assert!(core.needs_redraw);
}

#[test]
fn navigation_dismiss_drive_picker_noop_when_none() {
    let mut core = BrowserCore::new("host", "/start");
    core.needs_redraw = false;
    core.dismiss_drive_picker();
    assert!(!core.needs_redraw);
}

#[test]
fn update_prompt_stability_resets_on_byte_change() {
    let mut core = BrowserCore::new("host", "/start");
    core.prompt_stable = 5;
    core.prev_raw_len = 10;
    assert!(!core.update_prompt_stability(20, true));
    assert_eq!(core.prompt_stable, 0);
    assert_eq!(core.prev_raw_len, 20);
}

#[test]
fn update_prompt_stability_counts_up_when_stable_with_prompt() {
    let mut core = BrowserCore::new("host", "/start");
    core.prev_raw_len = 10;
    assert!(!core.update_prompt_stability(10, true));
    assert_eq!(core.prompt_stable, 1);
    assert!(core.update_prompt_stability(10, true));
    assert_eq!(core.prompt_stable, 2);
}

#[test]
fn update_prompt_stability_resets_when_stable_without_prompt() {
    let mut core = BrowserCore::new("host", "/start");
    core.prev_raw_len = 10;
    core.prompt_stable = 1;
    assert!(!core.update_prompt_stability(10, false));
    assert_eq!(core.prompt_stable, 0);
}

#[test]
fn delete_confirm_delete_no_clears_state() {
    let mut core = BrowserCore::new("host", "/start");
    core.delete.confirm = Some(DeleteTarget {
        location: DeleteLocation::Remote,
        kind: DeleteKind::File,
        path: "/tmp/test.txt".to_string(),
    });
    core.confirm_delete_no();
    assert!(core.delete.confirm.is_none());
    assert_eq!(core.status_msg, "Deletion cancelled.");
    assert_eq!(core.status_color, Color::Yellow);
    assert!(core.needs_redraw);
}

#[test]
fn delete_local_delete_focused_sets_confirm() {
    let mut core = BrowserCore::new("host", "/start");
    core.local.entries = vec![dummy_entry("..", true), dummy_entry("myfile.txt", false)];
    core.local.sel.select(Some(1));
    core.local_delete_focused();
    assert!(core.delete.confirm.is_some());
    let target = core.delete.confirm.unwrap();
    assert_eq!(target.location, DeleteLocation::Local);
    assert_eq!(target.kind, DeleteKind::File);
    assert!(target.path.contains("myfile.txt"));
}

#[test]
fn delete_local_delete_focused_skips_dotdot() {
    let mut core = BrowserCore::new("host", "/start");
    core.local.entries = vec![dummy_entry("..", true)];
    core.local.sel.select(Some(0));
    core.local_delete_focused();
    assert!(core.delete.confirm.is_none());
}

#[test]
fn local_delete_focused_dir_sets_dir_kind() {
    let mut core = BrowserCore::new("host", "/start");
    core.local.entries = vec![dummy_entry("..", true), dummy_entry("subdir", true)];
    core.local.sel.select(Some(1));
    core.local_delete_focused();
    let target = core.delete.confirm.unwrap();
    assert_eq!(target.location, DeleteLocation::Local);
    assert_eq!(target.kind, DeleteKind::Dir);
}

#[test]
fn remote_delete_focused_single() {
    let mut core = BrowserCore::new("host", "/start");
    core.remote.path = "/home/user".to_string();
    core.remote.entries = vec![dummy_entry("..", true), dummy_entry("file.txt", false)];
    core.remote.sel.select(Some(1));
    core.remote_delete_focused();
    let target = core.delete.confirm.unwrap();
    assert_eq!(target.location, DeleteLocation::Remote);
    assert_eq!(target.kind, DeleteKind::File);
    assert_eq!(target.path, "/home/user/file.txt");
}

#[test]
fn remote_delete_focused_skips_dotdot() {
    let mut core = BrowserCore::new("host", "/start");
    core.remote.path = "/home".to_string();
    core.remote.entries = vec![dummy_entry("..", true)];
    core.remote.sel.select(Some(0));
    core.remote_delete_focused();
    assert!(core.delete.confirm.is_none());
}

#[test]
fn pop_pending_delete_cycles_targets() {
    let mut core = BrowserCore::new("host", "/start");
    core.delete.pending = vec![
        DeleteTarget {
            location: DeleteLocation::Remote,
            kind: DeleteKind::File,
            path: "/a".to_string(),
        },
        DeleteTarget {
            location: DeleteLocation::Remote,
            kind: DeleteKind::Dir,
            path: "/b".to_string(),
        },
    ];
    assert!(core.pop_pending_delete());
    assert_eq!(core.delete.confirm.as_ref().unwrap().path, "/a");
    assert_eq!(core.delete.pending.len(), 1);
    assert!(core.pop_pending_delete());
    assert_eq!(core.delete.confirm.as_ref().unwrap().path, "/b");
    assert!(core.delete.pending.is_empty());
    assert!(!core.pop_pending_delete());
}

#[test]
fn keys_key_tab_toggles_focus() {
    let mut core = BrowserCore::new("host", "/start");
    assert_eq!(core.focus, BrowserFocus::Local);
    let action = handle_browser_key(
        &mut core,
        KeyCode::Tab,
        false,
        false,
        false,
        &BrowserBindings::default(),
        &Moment::at(0),
    );
    assert!(matches!(action, BrowserKeyAction::Handled));
    assert_eq!(core.focus, BrowserFocus::Remote);
}

#[test]
fn keys_key_enter_returns_enter_action() {
    let mut core = BrowserCore::new("host", "/start");
    assert!(matches!(
        handle_browser_key(
            &mut core,
            KeyCode::Enter,
            false,
            false,
            false,
            &BrowserBindings::default(),
            &Moment::at(0)
        ),
        BrowserKeyAction::Enter
    ));
}

#[test]
fn keys_key_backspace_returns_go_up() {
    let mut core = BrowserCore::new("host", "/start");
    assert!(matches!(
        handle_browser_key(
            &mut core,
            KeyCode::Backspace,
            false,
            false,
            false,
            &BrowserBindings::default(),
            &Moment::at(0)
        ),
        BrowserKeyAction::GoUp
    ));
}

#[test]
fn keys_key_t_remote_returns_download() {
    let mut core = BrowserCore::new("host", "/start");
    core.focus = BrowserFocus::Remote;
    assert!(matches!(
        handle_browser_key(
            &mut core,
            KeyCode::Char('t'),
            false,
            false,
            false,
            &BrowserBindings::default(),
            &Moment::at(0)
        ),
        BrowserKeyAction::Download
    ));
}

#[test]
fn keys_key_t_local_returns_upload() {
    let mut core = BrowserCore::new("host", "/start");
    core.focus = BrowserFocus::Local;
    assert!(matches!(
        handle_browser_key(
            &mut core,
            KeyCode::Char('t'),
            false,
            false,
            false,
            &BrowserBindings::default(),
            &Moment::at(0)
        ),
        BrowserKeyAction::Upload
    ));
}

#[test]
fn keys_key_delete_returns_delete() {
    let mut core = BrowserCore::new("host", "/start");
    assert!(matches!(
        handle_browser_key(
            &mut core,
            KeyCode::Delete,
            false,
            false,
            false,
            &BrowserBindings::default(),
            &Moment::at(0)
        ),
        BrowserKeyAction::Delete
    ));
}

#[test]
fn keys_key_unknown_returns_handled() {
    let mut core = BrowserCore::new("host", "/start");
    assert!(matches!(
        handle_browser_key(
            &mut core,
            KeyCode::F(5),
            false,
            false,
            false,
            &BrowserBindings::default(),
            &Moment::at(0)
        ),
        BrowserKeyAction::Handled
    ));
}

#[test]
fn keys_key_y_during_confirm_returns_confirm_yes() {
    let mut core = BrowserCore::new("host", "/start");
    core.delete.confirm = Some(DeleteTarget {
        location: DeleteLocation::Remote,
        kind: DeleteKind::File,
        path: "/tmp/x".to_string(),
    });
    assert!(matches!(
        handle_browser_key(
            &mut core,
            KeyCode::Char('y'),
            false,
            false,
            false,
            &BrowserBindings::default(),
            &Moment::at(0)
        ),
        BrowserKeyAction::ConfirmDeleteYes
    ));
}

#[test]
fn keys_key_n_during_confirm_cancels() {
    let mut core = BrowserCore::new("host", "/start");
    core.delete.confirm = Some(DeleteTarget {
        location: DeleteLocation::Remote,
        kind: DeleteKind::File,
        path: "/tmp/x".to_string(),
    });
    let action = handle_browser_key(
        &mut core,
        KeyCode::Char('n'),
        false,
        false,
        false,
        &BrowserBindings::default(),
        &Moment::at(0),
    );
    assert!(matches!(action, BrowserKeyAction::Handled));
    assert!(core.delete.confirm.is_none());
}

#[test]
fn keys_key_esc_during_confirm_cancels() {
    let mut core = BrowserCore::new("host", "/start");
    core.delete.confirm = Some(DeleteTarget {
        location: DeleteLocation::Remote,
        kind: DeleteKind::File,
        path: "/tmp/x".to_string(),
    });
    let action = handle_browser_key(
        &mut core,
        KeyCode::Esc,
        false,
        false,
        false,
        &BrowserBindings::default(),
        &Moment::at(0),
    );
    assert!(matches!(action, BrowserKeyAction::Handled));
    assert!(core.delete.confirm.is_none());
}

#[test]
fn keys_key_random_during_confirm_is_swallowed() {
    let mut core = BrowserCore::new("host", "/start");
    core.delete.confirm = Some(DeleteTarget {
        location: DeleteLocation::Remote,
        kind: DeleteKind::File,
        path: "/tmp/x".to_string(),
    });
    let action = handle_browser_key(
        &mut core,
        KeyCode::Char('z'),
        false,
        false,
        false,
        &BrowserBindings::default(),
        &Moment::at(0),
    );
    assert!(matches!(action, BrowserKeyAction::Handled));
    assert!(core.delete.confirm.is_some());
}

fn area() -> Rect {
    // leaf_count 1 → local panel x 0..50, remote panel x 50..100
    Rect::new(0, 0, 100, 40)
}

#[test]
fn same_panel_release_with_multiselect_queues_nothing() {
    let mut core =
        core_with_remote_entries(&[("..", true), ("a.txt", false), ("b.txt", false)]);
    core.focus = BrowserFocus::Remote;
    core.selected.insert(1);
    core.selected.insert(2);

    // Release inside the remote panel (same side the selection lives on).
    let action = core.handle_mouse(MouseEventKind::Up(MouseButton::Left), 60, 5, area(), 1);

    assert!(action.is_none());
    assert!(
        core.transfer.pending.is_empty(),
        "same-panel release must not queue transfers"
    );
}

#[test]
fn cross_panel_release_queues_with_download_direction() {
    let mut core =
        core_with_remote_entries(&[("..", true), ("a.txt", false), ("b.txt", false)]);
    core.focus = BrowserFocus::Remote;
    core.selected.insert(1);
    core.selected.insert(2);

    // Release over the local panel → remote-to-local transfer.
    let action = core.handle_mouse(MouseEventKind::Up(MouseButton::Left), 10, 5, area(), 1);

    assert!(action.is_some());
    assert_eq!(core.transfer.pending.len(), 2);
    assert_eq!(core.pending_direction(), TransferDirection::Download);
    assert!(core.selected.is_empty(), "selection cleared after queueing");
}
