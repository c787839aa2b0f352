//! The browser over `sftp`.
use sshmux::browser::browser_layout;
use sshmux::browser::common::{
    BrowserFocus, DeleteKind, DeleteLocation, DeleteTarget, PendingTransfer, TransferDirection,
    TransferStatus, COMMAND_TIMEOUT_SECS,
};
use sshmux::browser::parse::FsEntry;
use sshmux::browser::sftp::{FileBrowser, SftpState};
use sshmux::event::KeyCode;
use sshmux::geometry::Rect;
use sshmux::keybindings::BrowserBindings;
use sshmux::style::Color;
use sshmux::view::panel::{PanelBody, PanelPlan};
use sshmux::view::status::{help_start, render_help, TransferPlan};

/// The time at which everything happens, in milliseconds.
const NOW: u64 = 1_000_000;

/// Run tick() enough times for the response watch to trigger a transition:
/// the first tick observes the new raw_seq (reset), the next two are quiet
/// ticks with the prompt at the tail.
fn tick_until_stable(browser: &mut FileBrowser) {
    browser.tick(NOW); // seq changed → reset
    browser.tick(NOW); // quiet + prompt → 1
    browser.tick(NOW); // quiet + prompt → 2 → transition
}

fn make_sftp() -> FileBrowser {
    FileBrowser::new("test-host", "/start")
}

/// An entry of a listing.
fn dummy_entry(name: &str, is_dir: bool) -> FsEntry {
    FsEntry {
        name: name.to_string(),
        is_dir,
        is_link: false,
        size: "0".to_string(),
        perms: "drwxr-xr-x".to_string(),
        modified: "2025-01-01".to_string(),
    }
}

/// An entry of which nothing is known.
fn blank_entry() -> FsEntry {
    FsEntry {
        name: String::new(),
        is_dir: false,
        is_link: false,
        size: String::new(),
        perms: String::new(),
        modified: String::new(),
    }
}

// ---- Connecting state ----

#[test]
fn connecting_transitions_to_waiting_pwd_and_sends_pwd() {
    let mut fb = make_sftp();
    assert_eq!(fb.sftp_state, SftpState::Connecting);

    fb.sftp.feed(b"Connected to host.\nsftp> ");
    tick_until_stable(&mut fb);

    assert_eq!(fb.sftp_state, SftpState::WaitingPwd);
    assert_eq!(fb.sftp.raw_len(), 0, "drain_raw should clear buffer");
    assert!(
        fb.sftp.outbox.iter().any(|s| s == "pwd\r\n"),
        "should send pwd command, got: {:?}",
        fb.sftp.outbox
    );
}

#[test]
fn connecting_stays_without_prompt() {
    let mut fb = make_sftp();
    fb.sftp.feed(b"Connecting to host...\n");
    tick_until_stable(&mut fb);
    assert_eq!(fb.sftp_state, SftpState::Connecting);
    assert!(fb.sftp.outbox.is_empty());
}

#[test]
fn connecting_captures_raw_snapshot() {
    let mut fb = make_sftp();
    fb.sftp.feed(b"Connecting to host...\nsftp> ");
    fb.tick(NOW);
    assert!(!fb.core.raw_snapshot.is_empty());
}

#[test]
fn connecting_sets_status_on_connect() {
    let mut fb = make_sftp();
    fb.sftp.feed(b"sftp> ");
    tick_until_stable(&mut fb);
    assert_eq!(fb.core.status_color, Color::Green);
    assert!(fb.core.status_msg.contains("Connected to test-host"));
}

// ---- WaitingPwd state ----

#[test]
fn waiting_pwd_transitions_to_waiting_ls_and_sends_ls() {
    let mut fb = make_sftp();
    fb.sftp.feed(b"sftp> ");
    tick_until_stable(&mut fb);
    assert_eq!(fb.sftp_state, SftpState::WaitingPwd);
    fb.sftp.outbox.clear();

    fb.sftp.feed(b"Remote working directory: /home/user\nsftp> ");
    tick_until_stable(&mut fb);

    assert_eq!(fb.sftp_state, SftpState::WaitingLs);
    assert_eq!(fb.core.remote.path, "/home/user");
    let ls_cmds: Vec<_> = fb
        .sftp
        .outbox
        .iter()
        .filter(|s| s.starts_with("ls "))
        .cloned()
        .collect();
    assert!(
        !ls_cmds.is_empty(),
        "should send ls command, got: {:?}",
        fb.sftp.outbox
    );
}

#[test]
fn waiting_pwd_keeps_old_path_on_parse_failure() {
    let mut fb = make_sftp();
    fb.core.remote.path = "/original".to_string();
    fb.sftp.feed(b"sftp> ");
    tick_until_stable(&mut fb);
    assert_eq!(fb.sftp_state, SftpState::WaitingPwd);

    fb.sftp.feed(b"some noise\nsftp> ");
    tick_until_stable(&mut fb);

    assert_eq!(fb.sftp_state, SftpState::WaitingLs);
    assert_eq!(fb.core.remote.path, "/original");
}

// ---- WaitingLs state ----

#[test]
fn sftp_waiting_ls_populates_entries_and_goes_idle() {
    let mut fb = make_sftp();
    fb.sftp_state = SftpState::WaitingLs;

    fb.sftp.feed(b"drwxr-xr-x  2 user user  4096 Jan  1 12:00 subdir\n-rw-r--r--  1 user user  1234 Jan  1 12:00 file.txt\nsftp> ");
    tick_until_stable(&mut fb);

    assert_eq!(fb.sftp_state, SftpState::Idle);
    assert!(fb.core.remote.entries.len() >= 2);
    assert!(
        fb.core.raw_snapshot.is_empty(),
        "raw_snapshot should be cleared"
    );
}

#[test]
fn waiting_ls_clamps_selection() {
    let mut fb = make_sftp();
    fb.sftp_state = SftpState::WaitingLs;
    fb.core.remote.sel.select(Some(50));

    fb.sftp.feed(b"-rw-r--r--  1 user user  1234 Jan  1 12:00 file.txt\nsftp> ");
    tick_until_stable(&mut fb);

    assert_eq!(fb.sftp_state, SftpState::Idle);
    let sel = fb.core.remote.sel.selected().unwrap_or(999);
    assert!(sel < fb.core.remote.entries.len());
}

#[test]
fn waiting_ls_chains_pending_transfer() {
    let mut fb = make_sftp();
    fb.sftp_state = SftpState::WaitingLs;
    fb.core.transfer.last = Some(TransferStatus {
        filename: "prev.txt".to_string(),
        direction: TransferDirection::Download,
        is_dir: false,
        done: true,
        progress: 100,
        file_count: 0,
    });
    fb.core.transfer.pending.push(PendingTransfer {
        path: "/remote/next.txt".to_string(),
        name: "next.txt".to_string(),
        is_dir: false,
    });

    fb.sftp.feed(b"-rw-r--r-- 1 u u 10 Jan 1 12:00 a.txt\nsftp> ");
    tick_until_stable(&mut fb);

    // download() should have been called, sending a get command
    assert_eq!(fb.sftp_state, SftpState::Transferring);
    assert!(fb.core.transfer.pending.is_empty());
    let get_cmds: Vec<_> = fb
        .sftp
        .outbox
        .iter()
        .filter(|s| s.starts_with("get "))
        .cloned()
        .collect();
    assert!(
        !get_cmds.is_empty(),
        "should send get command, got: {:?}",
        fb.sftp.outbox
    );
}

#[test]
fn sftp_waiting_ls_chains_pending_delete() {
    let mut fb = make_sftp();
    fb.sftp_state = SftpState::WaitingLs;
    fb.core.delete.pending.push(DeleteTarget {
        location: DeleteLocation::Remote,
        kind: DeleteKind::File,
        path: "/remote/todelete.txt".to_string(),
    });
    // pop_pending_delete moves from pending_deletes to confirm_delete
    // then confirm_delete_yes processes it

    fb.sftp.feed(b"-rw-r--r-- 1 u u 10 Jan 1 12:00 a.txt\nsftp> ");
    tick_until_stable(&mut fb);

    // Should chain to delete
    assert_eq!(fb.sftp_state, SftpState::WaitingDelete);
    let rm_cmds: Vec<_> = fb
        .sftp
        .outbox
        .iter()
        .filter(|s| s.starts_with("rm "))
        .cloned()
        .collect();
    assert!(
        !rm_cmds.is_empty(),
        "should send rm command, got: {:?}",
        fb.sftp.outbox
    );
}

// ---- Transferring state ----

#[test]
fn transferring_completes_on_prompt_and_sends_ls() {
    let mut fb = make_sftp();
    fb.sftp_state = SftpState::Transferring;
    fb.core.transfer.last = Some(TransferStatus {
        filename: "test.txt".to_string(),
        direction: TransferDirection::Download,
        is_dir: false,
        done: false,
        progress: 0,
        file_count: 0,
    });
    fb.sftp.outbox.clear();

    fb.sftp.feed(b"Fetching /remote/test.txt to test.txt\nsftp> ");
    tick_until_stable(&mut fb);

    assert_eq!(fb.sftp_state, SftpState::WaitingLs);
    assert!(fb.core.transfer.last.as_ref().unwrap().done);
    assert_eq!(fb.core.transfer.last.as_ref().unwrap().progress, 100);
    assert_eq!(
        fb.core.transfer.batch_done, 0,
        "batch counters should reset after final transfer"
    );
    assert_eq!(fb.core.transfer.batch_total, 0);
    let ls_cmds: Vec<_> = fb
        .sftp
        .outbox
        .iter()
        .filter(|s| s.starts_with("ls "))
        .cloned()
        .collect();
    assert!(
        !ls_cmds.is_empty(),
        "should send ls after transfer, got: {:?}",
        fb.sftp.outbox
    );
}

#[test]
fn transferring_scrapes_progress() {
    let mut fb = make_sftp();
    fb.sftp_state = SftpState::Transferring;
    fb.core.transfer.last = Some(TransferStatus {
        filename: "big.bin".to_string(),
        direction: TransferDirection::Download,
        is_dir: false,
        done: false,
        progress: 0,
        file_count: 0,
    });

    fb.sftp.feed(b"big.bin                                       50%  512KB 256.0KB/s   00:01");
    fb.tick(NOW);

    assert_eq!(fb.sftp_state, SftpState::Transferring);
    assert_eq!(fb.core.transfer.last.as_ref().unwrap().progress, 50);
}

#[test]
fn transferring_counts_dir_files() {
    let mut fb = make_sftp();
    fb.sftp_state = SftpState::Transferring;
    fb.core.transfer.last = Some(TransferStatus {
        filename: "mydir".to_string(),
        direction: TransferDirection::Download,
        is_dir: true,
        done: false,
        progress: 0,
        file_count: 0,
    });

    fb.sftp.feed(b"Fetching /remote/mydir/ to mydir\nFetching /remote/mydir/a.txt\nFetching /remote/mydir/b.txt\n");
    fb.tick(NOW);

    assert_eq!(fb.core.transfer.last.as_ref().unwrap().file_count, 3);
}

#[test]
fn transferring_chains_next_download() {
    let mut fb = make_sftp();
    fb.sftp_state = SftpState::Transferring;
    fb.core.transfer.last = Some(TransferStatus {
        filename: "first.txt".to_string(),
        direction: TransferDirection::Download,
        is_dir: false,
        done: false,
        progress: 0,
        file_count: 0,
    });
    fb.core.transfer.pending.push(PendingTransfer {
        path: "/remote/second.txt".to_string(),
        name: "second.txt".to_string(),
        is_dir: false,
    });

    fb.sftp.feed(b"sftp> ");
    tick_until_stable(&mut fb);

    // download() sets sftp_state to Transferring and sends get command
    assert_eq!(fb.sftp_state, SftpState::Transferring);
    assert!(fb.core.transfer.pending.is_empty());
    let get_cmds: Vec<_> = fb
        .sftp
        .outbox
        .iter()
        .filter(|s| s.starts_with("get "))
        .cloned()
        .collect();
    assert!(
        !get_cmds.is_empty(),
        "should send get for next file, got: {:?}",
        fb.sftp.outbox
    );
}

#[test]
fn transferring_chains_next_upload() {
    let mut fb = make_sftp();
    fb.sftp_state = SftpState::Transferring;
    fb.core.transfer.last = Some(TransferStatus {
        filename: "first.txt".to_string(),
        direction: TransferDirection::Upload,
        is_dir: false,
        done: false,
        progress: 0,
        file_count: 0,
    });
    fb.core.transfer.pending.push(PendingTransfer {
        path: "/local/second.txt".to_string(),
        name: "second.txt".to_string(),
        is_dir: false,
    });

    fb.sftp.feed(b"sftp> ");
    tick_until_stable(&mut fb);

    assert_eq!(fb.sftp_state, SftpState::Transferring);
    assert!(fb.core.transfer.pending.is_empty());
    let put_cmds: Vec<_> = fb
        .sftp
        .outbox
        .iter()
        .filter(|s| s.starts_with("put "))
        .cloned()
        .collect();
    assert!(
        !put_cmds.is_empty(),
        "should send put for next file, got: {:?}",
        fb.sftp.outbox
    );
}

#[test]
fn transferring_increments_batch_done() {
    let mut fb = make_sftp();
    fb.sftp_state = SftpState::Transferring;
    fb.core.transfer.batch_done = 0;
    fb.core.transfer.batch_total = 1;
    fb.core.transfer.last = Some(TransferStatus {
        filename: "only.txt".to_string(),
        direction: TransferDirection::Download,
        is_dir: false,
        done: false,
        progress: 0,
        file_count: 0,
    });

    fb.sftp.feed(b"sftp> ");
    tick_until_stable(&mut fb);

    // After the last transfer, batch counters reset to 0
    assert_eq!(fb.core.transfer.batch_done, 0);
    assert_eq!(fb.core.transfer.batch_total, 0);
    assert!(fb.core.transfer.start.is_none());
}

#[test]
fn download_quotes_local_destination_with_spaces() {
    let mut fb = make_sftp();
    fb.sftp_state = SftpState::Idle;
    fb.core.focus = BrowserFocus::Remote;
    fb.core.remote.path = "/home".to_string();
    fb.core.local.path = "C:/Users/First Last/Downloads".to_string();
    fb.core.remote.entries = vec![dummy_entry("..", true), dummy_entry("file.txt", false)];
    fb.core.remote.sel.select(Some(1));
    fb.sftp.outbox.clear();

    fb.download(NOW);

    let sent = &fb.sftp.outbox;
    let get_cmd = sent.iter().find(|s| s.starts_with("get ")).unwrap();
    assert!(
        get_cmd.contains("'C:/Users/First Last/Downloads/'"),
        "local destination must be quoted, got: {}",
        get_cmd
    );
}

#[test]
fn transferring_error_output_reports_failure() {
    let mut fb = make_sftp();
    fb.sftp_state = SftpState::Transferring;
    fb.core.transfer.last = Some(TransferStatus {
        filename: "secret.txt".to_string(),
        direction: TransferDirection::Download,
        is_dir: false,
        done: false,
        progress: 0,
        file_count: 0,
    });
    fb.core.transfer.pending.push(PendingTransfer {
        path: "/remote/next.txt".to_string(),
        name: "next.txt".to_string(),
        is_dir: false,
    });

    fb.sftp.feed(b"Fetching /remote/secret.txt to secret.txt\nremote open(\"/remote/secret.txt\"): Permission denied\nsftp> ");
    tick_until_stable(&mut fb);

    assert_eq!(fb.core.status_color, Color::Red);
    assert!(
        fb.core.status_msg.contains("Transfer failed"),
        "expected failure status, got: {}",
        fb.core.status_msg
    );
    assert!(
        fb.core.transfer.pending.is_empty(),
        "a failed transfer must cancel the rest of the batch"
    );
    assert_eq!(fb.sftp_state, SftpState::WaitingLs);
}

// ---- WaitingDelete state ----

#[test]
fn sftp_waiting_delete_success_sends_ls() {
    let mut fb = make_sftp();
    fb.sftp_state = SftpState::WaitingDelete;
    fb.core.delete.pending_name = Some("removed.txt".to_string());
    fb.sftp.outbox.clear();

    fb.sftp.feed(b"sftp> ");
    tick_until_stable(&mut fb);

    assert_eq!(fb.sftp_state, SftpState::WaitingLs);
    assert_eq!(fb.core.status_color, Color::Green);
    assert!(fb.core.status_msg.contains("Deleted remote: removed.txt"));
    let ls_cmds: Vec<_> = fb
        .sftp
        .outbox
        .iter()
        .filter(|s| s.starts_with("ls "))
        .cloned()
        .collect();
    assert!(
        !ls_cmds.is_empty(),
        "should send ls after delete, got: {:?}",
        fb.sftp.outbox
    );
}

#[test]
fn sftp_waiting_delete_failure_shows_error() {
    let mut fb = make_sftp();
    fb.sftp_state = SftpState::WaitingDelete;
    fb.core.delete.pending_name = Some("protected.txt".to_string());

    fb.sftp.feed(b"Couldn't remove file: permission denied\nsftp> ");
    tick_until_stable(&mut fb);

    assert_eq!(fb.sftp_state, SftpState::WaitingLs);
    assert_eq!(fb.core.status_color, Color::Red);
    assert!(fb.core.status_msg.contains("Delete failed: protected.txt"));
}

#[test]
fn sftp_waiting_delete_chains_next_delete() {
    let mut fb = make_sftp();
    fb.sftp_state = SftpState::WaitingDelete;
    fb.core.delete.pending_name = Some("first.txt".to_string());
    fb.core.delete.pending.push(DeleteTarget {
        location: DeleteLocation::Remote,
        kind: DeleteKind::File,
        path: "/remote/second.txt".to_string(),
    });
    fb.sftp.outbox.clear();

    fb.sftp.feed(b"sftp> ");
    tick_until_stable(&mut fb);

    assert_eq!(fb.sftp_state, SftpState::WaitingDelete);
    assert!(fb.core.delete.pending.is_empty());
    let rm_cmds: Vec<_> = fb
        .sftp
        .outbox
        .iter()
        .filter(|s| s.starts_with("rm "))
        .cloned()
        .collect();
    assert!(
        !rm_cmds.is_empty(),
        "should send rm for next delete, got: {:?}",
        fb.sftp.outbox
    );
}

#[test]
fn waiting_delete_failure_clears_pending_and_sends_ls() {
    let mut fb = make_sftp();
    fb.sftp_state = SftpState::WaitingDelete;
    fb.core.delete.pending_name = Some("bad.txt".to_string());
    fb.core.delete.pending.push(DeleteTarget {
        location: DeleteLocation::Remote,
        kind: DeleteKind::File,
        path: "/remote/next.txt".to_string(),
    });
    fb.sftp.outbox.clear();

    fb.sftp.feed(b"Couldn't remove file\nsftp> ");
    tick_until_stable(&mut fb);

    assert_eq!(fb.sftp_state, SftpState::WaitingLs);
    assert!(fb.core.delete.pending.is_empty());
    let ls_cmds: Vec<_> = fb
        .sftp
        .outbox
        .iter()
        .filter(|s| s.starts_with("ls "))
        .cloned()
        .collect();
    assert!(
        !ls_cmds.is_empty(),
        "should send ls after failed delete, got: {:?}",
        fb.sftp.outbox
    );
}

#[test]
fn waiting_delete_rmdir_for_directories() {
    let mut fb = make_sftp();
    fb.sftp_state = SftpState::Idle;
    fb.core.delete.confirm = Some(DeleteTarget {
        location: DeleteLocation::Remote,
        kind: DeleteKind::Dir,
        path: "/remote/somedir".to_string(),
    });
    fb.sftp.outbox.clear();

    fb.confirm_delete_yes();

    assert_eq!(fb.sftp_state, SftpState::WaitingDelete);
    let rmdir_cmds: Vec<_> = fb
        .sftp
        .outbox
        .iter()
        .filter(|s| s.starts_with("rmdir "))
        .cloned()
        .collect();
    assert!(
        !rmdir_cmds.is_empty(),
        "should use rmdir for dirs, got: {:?}",
        fb.sftp.outbox
    );
}

#[test]
fn waiting_delete_rm_for_files() {
    let mut fb = make_sftp();
    fb.sftp_state = SftpState::Idle;
    fb.core.delete.confirm = Some(DeleteTarget {
        location: DeleteLocation::Remote,
        kind: DeleteKind::File,
        path: "/remote/somefile.txt".to_string(),
    });
    fb.sftp.outbox.clear();

    fb.confirm_delete_yes();

    assert_eq!(fb.sftp_state, SftpState::WaitingDelete);
    let rm_cmds: Vec<_> = fb
        .sftp
        .outbox
        .iter()
        .filter(|s| s.starts_with("rm "))
        .cloned()
        .collect();
    assert!(
        !rm_cmds.is_empty(),
        "should use rm for files, got: {:?}",
        fb.sftp.outbox
    );
    let rmdir_cmds: Vec<_> = fb
        .sftp
        .outbox
        .iter()
        .filter(|s| s.starts_with("rmdir "))
        .cloned()
        .collect();
    assert!(rmdir_cmds.is_empty(), "should not use rmdir for files");
}

// ---- Process death recovery ----

#[test]
fn process_death_recovers_to_idle() {
    let mut fb = make_sftp();
    fb.sftp_state = SftpState::WaitingLs;
    fb.core.transfer.pending.push(PendingTransfer {
        path: "/a".to_string(),
        name: "a".to_string(),
        is_dir: false,
    });
    fb.core.delete.pending.push(DeleteTarget {
        location: DeleteLocation::Remote,
        kind: DeleteKind::File,
        path: "/b".to_string(),
    });

    fb.sftp.set_exited();
    fb.tick(NOW);

    assert_eq!(fb.sftp_state, SftpState::Idle);
    assert_eq!(fb.core.status_color, Color::Red);
    assert!(fb.core.status_msg.contains("connection lost"));
    assert!(
        fb.core.transfer.pending.is_empty(),
        "pending_transfers should be cleared"
    );
    assert!(
        fb.core.delete.pending.is_empty(),
        "pending_deletes should be cleared"
    );
    assert!(fb.core.drop_confirm.is_none());
}

#[test]
fn process_death_ignored_in_idle() {
    let mut fb = make_sftp();
    fb.sftp_state = SftpState::Idle;
    fb.core.status_msg = "fine".to_string();

    fb.sftp.set_exited();
    fb.tick(NOW);

    assert_eq!(fb.sftp_state, SftpState::Idle);
    assert_eq!(
        fb.core.status_msg, "fine",
        "idle state should not trigger recovery"
    );
}

#[test]
fn process_death_ignored_in_connecting() {
    let mut fb = make_sftp();
    fb.sftp_state = SftpState::Connecting;

    fb.sftp.set_exited();
    fb.tick(NOW);

    // Connecting is excluded from the death check
    assert_eq!(fb.sftp_state, SftpState::Connecting);
}

// ---- Prompt stability ----

#[test]
fn sftp_no_transition_before_stable() {
    let mut fb = make_sftp();
    fb.sftp.feed(b"sftp> ");

    // Only 2 ticks — one quiet tick with the prompt, not two
    fb.tick(NOW);
    fb.tick(NOW);

    assert_eq!(fb.sftp_state, SftpState::Connecting);
}

#[test]
fn sftp_changing_raw_len_resets_stability() {
    let mut fb = make_sftp();
    fb.sftp.feed(b"sftp> ");
    fb.tick(NOW); // seq observed
    fb.tick(NOW); // quiet tick 1

    fb.sftp.feed(b" ");
    fb.tick(NOW); // new data → watch reset

    assert_eq!(fb.sftp_state, SftpState::Connecting);
}

// ---- Idle state ----

#[test]
fn sftp_idle_tick_is_noop() {
    let mut fb = make_sftp();
    fb.sftp_state = SftpState::Idle;
    fb.core.status_msg = "idle".to_string();

    fb.tick(NOW);

    assert_eq!(fb.sftp_state, SftpState::Idle);
    assert_eq!(fb.core.status_msg, "idle");
}

// ---- Navigation ----

#[test]
fn sftp_enter_on_remote_dir_sends_ls() {
    let mut fb = make_sftp();
    fb.sftp_state = SftpState::Idle;
    fb.core.remote.path = "/home".to_string();
    fb.core.focus = BrowserFocus::Remote;
    fb.core.remote.entries.push(FsEntry {
        name: "subdir".to_string(),
        is_dir: true,
        size: "4096".to_string(),
        modified: "Jan 1 12:00".to_string(),
        perms: "drwxr-xr-x".to_string(),
        ..blank_entry()
    });
    fb.core.remote.sel.select(Some(0));
    fb.sftp.outbox.clear();

    fb.enter(NOW);

    assert_eq!(fb.sftp_state, SftpState::WaitingLs);
    assert_eq!(fb.core.remote.path, "/home/subdir");
    let ls_cmds: Vec<_> = fb
        .sftp
        .outbox
        .iter()
        .filter(|s| s.starts_with("ls "))
        .cloned()
        .collect();
    assert!(!ls_cmds.is_empty(), "should send ls, got: {:?}", fb.sftp.outbox);
}

#[test]
fn sftp_go_up_remote_sends_ls() {
    let mut fb = make_sftp();
    fb.sftp_state = SftpState::Idle;
    fb.core.remote.path = "/home/user".to_string();
    fb.core.focus = BrowserFocus::Remote;
    fb.sftp.outbox.clear();

    fb.go_up(NOW);

    assert_eq!(fb.sftp_state, SftpState::WaitingLs);
    assert_eq!(fb.core.remote.path, "/home");
    let ls_cmds: Vec<_> = fb
        .sftp
        .outbox
        .iter()
        .filter(|s| s.starts_with("ls "))
        .cloned()
        .collect();
    assert!(!ls_cmds.is_empty());
}

#[test]
fn sftp_enter_ignored_when_not_idle() {
    let mut fb = make_sftp();
    fb.sftp_state = SftpState::WaitingLs;
    fb.core.focus = BrowserFocus::Remote;
    fb.core.remote.entries.push(FsEntry {
        name: "dir".to_string(),
        is_dir: true,
        size: "4096".to_string(),
        modified: "Jan 1 12:00".to_string(),
        perms: "drwxr-xr-x".to_string(),
        ..blank_entry()
    });
    fb.core.remote.sel.select(Some(0));
    fb.sftp.outbox.clear();

    fb.enter(NOW);

    assert_eq!(
        fb.sftp_state,
        SftpState::WaitingLs,
        "should not change state"
    );
    assert!(fb.sftp.outbox.is_empty(), "should not send any command");
}

// ---- Symlink probe ----

fn link_entry(name: &str) -> FsEntry {
    FsEntry {
        name: name.to_string(),
        is_dir: true,
        is_link: true,
        ..blank_entry()
    }
}

fn sftp_with_link(name: &str) -> FileBrowser {
    let mut fb = make_sftp();
    fb.sftp_state = SftpState::Idle;
    fb.core.focus = BrowserFocus::Remote;
    fb.core.remote.path = "/home".to_string();
    fb.core.remote.entries = vec![dummy_entry("..", true), link_entry(name)];
    fb.core.remote.sel.select(Some(1));
    fb.sftp.outbox.clear();
    fb
}

#[test]
fn enter_file_symlink_reverts_and_downloads() {
    let mut fb = sftp_with_link("filelink");

    fb.enter(NOW);
    assert_eq!(fb.sftp_state, SftpState::WaitingLs);
    assert_eq!(fb.core.remote.path, "/home/filelink");

    // sftp echoes the dereferenced single-file entry for a link-to-file.
    fb.sftp.feed(b"-rw-r--r--    ? u g 6 Jan 1 12:00 /home/filelink\nsftp> ");
    tick_until_stable(&mut fb);

    // Probe: cd reverted, download queued, re-listing in flight.
    assert_eq!(fb.core.remote.path, "/home");
    assert_eq!(fb.sftp_state, SftpState::WaitingLs);
    assert_eq!(fb.core.transfer.pending.len(), 1);
    assert_eq!(fb.core.transfer.pending[0].path, "/home/filelink");

    // Re-listing completes → chain fires the download.
    fb.sftp.feed(b"drwxr-xr-x ? u g 4096 Jan 1 12:00 sub\nsftp> ");
    tick_until_stable(&mut fb);
    assert_eq!(fb.sftp_state, SftpState::Transferring);
    assert!(
        fb.sftp.outbox
            .iter()
            .any(|s| s.starts_with("get ") && s.contains("/home/filelink")),
        "should download the link target, got: {:?}",
        fb.sftp.outbox
    );
}

#[test]
fn enter_broken_symlink_reverts_with_error() {
    let mut fb = sftp_with_link("dangling");

    fb.enter(NOW);
    // sftp lstat echo of the dangling link itself (lrwx, no arrow).
    fb.sftp.feed(b"lrwxrwxrwx    ? u g 11 Jan 1 12:00 /home/dangling\nsftp> ");
    tick_until_stable(&mut fb);

    assert_eq!(fb.core.remote.path, "/home");
    assert!(fb.core.transfer.pending.is_empty());
    assert_eq!(fb.core.status_color, Color::Red);
    assert!(
        fb.core.status_msg.contains("broken"),
        "got: {}",
        fb.core.status_msg
    );
}

#[test]
fn enter_dir_symlink_lists_contents() {
    let mut fb = sftp_with_link("dirlink");

    fb.enter(NOW);
    fb.sftp.feed(
        b"drwxr-xr-x ? u g 4096 Jan 1 12:00 sub\n-rw-r--r-- ? u g 5 Jan 1 12:00 notes.txt\nsftp> ",
    );
    tick_until_stable(&mut fb);

    assert_eq!(fb.sftp_state, SftpState::Idle);
    assert_eq!(fb.core.remote.path, "/home/dirlink");
    assert!(fb.core.remote.entries.iter().any(|e| e.name == "notes.txt"));
    assert!(fb.core.transfer.pending.is_empty());
}

// ---- send_connect_key ----

#[test]
fn sftp_send_connect_key_forwards_chars() {
    let mut fb = make_sftp();
    fb.sftp.outbox.clear();

    fb.send_connect_key(KeyCode::Char('y'));
    fb.send_connect_key(KeyCode::Enter);
    fb.send_connect_key(KeyCode::Backspace);

    let s = &fb.sftp.outbox;
    assert_eq!(s.len(), 3);
    assert_eq!(s[0], "y");
    assert_eq!(s[1], "\r\n");
    assert_eq!(s[2], "\x7f");
}

// ---- State label ----

#[test]
fn sftp_state_labels() {
    let mut fb = make_sftp();

    let cases = [
        (SftpState::Connecting, "connecting"),
        (SftpState::WaitingPwd, "loading"),
        (SftpState::WaitingLs, "loading"),
        (SftpState::Idle, "idle"),
        (SftpState::WaitingDelete, "deleting"),
        (SftpState::Transferring, "transfer"),
    ];
    for (state, expected) in cases {
        fb.sftp_state = state;
        assert_eq!(fb.state_label().0, expected, "state_label for {:?}", state);
    }
}

// ---- Progress suffix ----

#[test]
fn progress_suffix_file() {
    let mut fb = make_sftp();
    fb.core.transfer.last = Some(TransferStatus {
        filename: "f.txt".to_string(),
        direction: TransferDirection::Download,
        is_dir: false,
        done: false,
        progress: 42,
        file_count: 0,
    });
    assert_eq!(fb.progress_suffix(), " 42%");
}

#[test]
fn progress_suffix_dir() {
    let mut fb = make_sftp();
    fb.core.transfer.last = Some(TransferStatus {
        filename: "d".to_string(),
        direction: TransferDirection::Download,
        is_dir: true,
        done: false,
        progress: 0,
        file_count: 5,
    });
    assert_eq!(fb.progress_suffix(), " (5 files)");
}

#[test]
fn sftp_progress_suffix_done() {
    let mut fb = make_sftp();
    fb.core.transfer.last = Some(TransferStatus {
        filename: "f.txt".to_string(),
        direction: TransferDirection::Download,
        is_dir: false,
        done: true,
        progress: 100,
        file_count: 0,
    });
    assert_eq!(fb.progress_suffix(), "");
}

#[test]
fn progress_suffix_none() {
    let fb = make_sftp();
    assert_eq!(fb.progress_suffix(), "");
}

// ---- Whole frames ----------


/// A browser with fully deterministic panel content.
fn golden_browser() -> FileBrowser {
    let mut fb = make_sftp();
    fb.sftp_state = SftpState::Idle;
    fb.core.local.path = "C:/l".to_string();
    fb.core.local.entries = vec![
        dummy_entry("..", true),
        dummy_entry("a.txt", false),
        dummy_entry("dir", true),
    ];
    fb.core.local.sel.select(Some(1));
    fb.core.remote.path = "/r".to_string();
    fb.core.remote.entries = vec![dummy_entry("..", true), dummy_entry("b.txt", false)];
    fb.core.remote.sel.select(Some(0));
    fb.core.status_msg = "ready".to_string();
    fb
}

/// Writes `text` into the row `y`, from the column `x`.
fn write_at(rows: &mut [Vec<char>], x: u16, y: u16, text: &str) {
    for (i, c) in text.chars().enumerate() {
        rows[y as usize][x as usize + i] = c;
    }
}

/// Draws a panel with its border.
fn draw_panel(rows: &mut [Vec<char>], area: Rect, plan: &PanelPlan) {
    let across = "─".repeat(area.width as usize - 2);
    write_at(rows, area.x, area.y, &format!("┌{across}┐"));
    write_at(rows, area.x, area.y + area.height - 1, &format!("└{across}┘"));
    for y in area.y + 1..area.y + area.height - 1 {
        write_at(rows, area.x, y, "│");
        write_at(rows, area.x + area.width - 1, y, "│");
    }
    write_at(rows, area.x + 1, area.y, &plan.path);
    let from = area.x + area.width - 1 - plan.title.chars().count() as u16;
    write_at(rows, from, area.y, &plan.title);
    if let PanelBody::Entries(lines) = &plan.body {
        for (i, line) in lines.iter().enumerate() {
            let text: String = line.iter().map(|p| p.text.as_str()).collect();
            write_at(rows, plan.inner.x, plan.inner.y + i as u16, &text);
        }
    }
}

/// Draws the box of the transfer under way.
fn draw_transfer(rows: &mut [Vec<char>], plan: &TransferPlan) {
    let a = plan.area;
    let w = a.width as usize - 2;
    write_at(rows, a.x, a.y, &format!("┌{:─^w$}┐", " Transfer "));
    let room = w - plan.time.chars().count();
    write_at(rows, a.x, a.y + 1, &format!("│{:<room$}{}│", plan.name, plan.time));
    let bar = "█".repeat(w * plan.percent as usize / 100);
    write_at(rows, a.x, a.y + 2, &format!("│{bar:<w$}│"));
    let label = format!("{}%", plan.percent);
    let at = (w - label.len()) as u16 / 2;
    write_at(rows, a.x + 1 + at, a.y + 2, &label);
    write_at(rows, a.x, a.y + 3, &format!("└{}┘", "─".repeat(w)));
}

fn render_golden(fb: &mut FileBrowser) -> Vec<String> {
    let area = Rect::new(0, 0, 56, 9);
    let mut rows = vec![vec![' '; 56]; 9];
    let layout = browser_layout(area);
    let local = fb.core.render_panel(layout.local_panel, BrowserFocus::Local, true);
    draw_panel(&mut rows, layout.local_panel, &local);
    let remote = fb.core.render_panel(layout.remote_panel, BrowserFocus::Remote, true);
    draw_panel(&mut rows, layout.remote_panel, &remote);
    let y = layout.status.y;
    match fb.core.render_confirm_delete() {
        Some(question) => write_at(&mut rows, 0, y, &question),
        None => {
            let (label, color) = fb.state_label();
            let progress = fb.progress_suffix();
            let pieces = fb.core.render_normal_status(label, color, &progress);
            let text: String = pieces.iter().map(|p| p.text.as_str()).collect();
            write_at(&mut rows, 0, y, &text);
            let help = render_help(&BrowserBindings::default());
            write_at(&mut rows, help_start(layout.status, &help), y, &help);
        }
    }
    if let Some(plan) = fb.core.render_transfer_progress(area, NOW) {
        draw_transfer(&mut rows, &plan);
    }
    rows.iter().map(|r| r.iter().collect::<String>().trim_end().to_string()).collect()
}

fn assert_rows(rows: &[String], expected: &[&str]) {
    assert_eq!(rows, expected);
}

#[test]
fn golden_browser_idle() {
    let mut fb = golden_browser();
    let buf = render_golden(&mut fb);
    assert_rows(
        &buf,
        &[
            "┌ C:/l ───────────  local  ┐┌ /r ────────────  remote  ┐",
            "│../           0 2025-01-01││../           0 2025-01-01│",
            "│a.txt         0 2025-01-01││b.txt         0 2025-01-01│",
            "│dir/          0 2025-01-01││                          │",
            "│                          ││                          │",
            "│                          ││                          │",
            "│                          ││                          │",
            "└──────────────────────────┘└──────────────────────────┘",
            "[idle] ready                         [T]xfer [Delete]rm",
        ],
    );
}

#[test]
fn golden_browser_delete_confirm() {
    let mut fb = golden_browser();
    fb.core.delete.confirm = Some(DeleteTarget {
        location: DeleteLocation::Remote,
        kind: DeleteKind::File,
        path: "/r/b.txt".to_string(),
    });
    let buf = render_golden(&mut fb);
    assert_rows(
        &buf,
        &[
            "┌ C:/l ───────────  local  ┐┌ /r ────────────  remote  ┐",
            "│../           0 2025-01-01││../           0 2025-01-01│",
            "│a.txt         0 2025-01-01││b.txt         0 2025-01-01│",
            "│dir/          0 2025-01-01││                          │",
            "│                          ││                          │",
            "│                          ││                          │",
            "│                          ││                          │",
            "└──────────────────────────┘└──────────────────────────┘",
            "  Delete remote '/r/b.txt'?  [y] Yes   [n] No",
        ],
    );
}

#[test]
fn golden_browser_transfer_overlay() {
    let mut fb = golden_browser();
    fb.sftp_state = SftpState::Transferring;
    // A start that lies ahead counts as no time at all.
    fb.core.transfer.start = Some(NOW + 60_000);
    fb.core.transfer.last = Some(TransferStatus {
        filename: "b.txt".to_string(),
        direction: TransferDirection::Download,
        is_dir: false,
        done: false,
        progress: 40,
        file_count: 0,
    });
    fb.core.status_msg = "Downloading b.txt...".to_string();
    let buf = render_golden(&mut fb);
    assert_rows(
        &buf,
        &[
            "┌ C:/l ───────────  local  ┐┌ /r ────────────  remote  ┐",
            "│../           0 2025-01-01││../           0 2025-01-01│",
            "│a┌──────────────────── Transfer ────────────────────┐1│",
            "│d│↓  b.txt                                       0ms│ │",
            "│ │████████████████████   40%                        │ │",
            "│ └──────────────────────────────────────────────────┘ │",
            "│                          ││                          │",
            "└──────────────────────────┘└──────────────────────────┘",
            "[transfer] Downloading b.txt... 40%  [T]xfer [Delete]rm",
        ],
    );
}

// ---- Command timeout ----

#[test]
fn sftp_waiting_ls_times_out_to_idle() {
    let mut fb = make_sftp();
    fb.sftp_state = SftpState::WaitingLs;
    // Simulate an expired timer (1 second past the timeout threshold)
    fb.core.cmd_start =
        Some(NOW - (COMMAND_TIMEOUT_SECS + 1) * 1000);
    fb.tick(NOW);
    assert_eq!(fb.sftp_state, SftpState::Idle);
    assert_eq!(fb.core.status_color, Color::Red);
    assert!(fb.core.status_msg.contains("timed out"));
    assert!(fb.core.cmd_start.is_none());
}

#[test]
fn sftp_waiting_pwd_times_out_to_idle() {
    let mut fb = make_sftp();
    fb.sftp_state = SftpState::WaitingPwd;
    fb.core.cmd_start =
        Some(NOW - (COMMAND_TIMEOUT_SECS + 1) * 1000);
    fb.tick(NOW);
    assert_eq!(fb.sftp_state, SftpState::Idle);
    assert_eq!(fb.core.status_color, Color::Red);
}

#[test]
fn sftp_waiting_delete_times_out_to_idle() {
    let mut fb = make_sftp();
    fb.sftp_state = SftpState::WaitingDelete;
    fb.core.cmd_start =
        Some(NOW - (COMMAND_TIMEOUT_SECS + 1) * 1000);
    fb.tick(NOW);
    assert_eq!(fb.sftp_state, SftpState::Idle);
}

#[test]
fn sftp_no_timeout_without_cmd_start() {
    let mut fb = make_sftp();
    fb.sftp_state = SftpState::WaitingLs;
    fb.core.cmd_start = None;
    fb.tick(NOW);
    // Should not time out (no cmd_start means no timer running)
    assert_eq!(fb.sftp_state, SftpState::WaitingLs);
}
