//! The browser over `ssh` and `scp`.
use sshmux::browser::common::{
    BrowserFocus, DeleteKind, DeleteLocation, DeleteTarget, TransferDirection, TransferStatus,
    COMMAND_TIMEOUT_SECS,
};
use sshmux::browser::parse::FsEntry;
use sshmux::browser::ssh::{count_password_prompts, SshBrowser, SshBrowserState};
use sshmux::event::KeyCode;
use sshmux::pty::PtyChannel;
use sshmux::style::Color;

/// The time at which everything happens, in milliseconds.
const NOW: u64 = 1_000_000;

fn tick_until_stable(browser: &mut SshBrowser) {
    browser.tick(NOW);
    browser.tick(NOW);
    browser.tick(NOW);
}

fn make_ssh() -> SshBrowser {
    SshBrowser::new("test-host", "/start")
}

/// Attaches an `scp` to the browser.
fn attach_scp_pty(browser: &mut SshBrowser) {
    browser.scp_pty = Some(PtyChannel::new());
}

// ---- count_password_prompts helper ----

#[test]
fn count_password_prompts_basic() {
    let lines = vec![
        "user@host's password:".to_string(),
        "some output".to_string(),
    ];
    assert_eq!(count_password_prompts(&lines), 1);
}

#[test]
fn count_password_prompts_multiple() {
    let lines = vec![
        "user@host's password:".to_string(),
        "Permission denied, please try again.".to_string(),
        "user@host's password:".to_string(),
    ];
    assert_eq!(count_password_prompts(&lines), 2);
}

#[test]
fn count_password_prompts_none() {
    let lines = vec!["Welcome to server".to_string()];
    assert_eq!(count_password_prompts(&lines), 0);
}

// ---- Connecting state ----

#[test]
fn connecting_detects_shell_prompt_and_sets_ps1() {
    let mut sb = make_ssh();
    assert_eq!(sb.ssh_state, SshBrowserState::Connecting);

    sb.ssh.feed(b"Last login: Mon Jan 1 12:00\nuser@host:~$ ");
    tick_until_stable(&mut sb);

    assert_eq!(sb.ssh_state, SshBrowserState::SettingPrompt);
    let sent = &sb.ssh.outbox;
    assert!(
        sent.iter().any(|s| s.contains("PS1=")),
        "should send PS1 command, got: {:?}",
        sent
    );
}

#[test]
fn connecting_stays_without_shell_prompt() {
    let mut sb = make_ssh();
    sb.ssh.feed(b"SSH negotiating...\n");
    tick_until_stable(&mut sb);
    assert_eq!(sb.ssh_state, SshBrowserState::Connecting);
}

#[test]
fn connecting_detects_hash_prompt() {
    let mut sb = make_ssh();
    sb.ssh.feed(b"root@host:~# ");
    tick_until_stable(&mut sb);
    assert_eq!(sb.ssh_state, SshBrowserState::SettingPrompt);
}

#[test]
fn connecting_detects_percent_prompt() {
    let mut sb = make_ssh();
    sb.ssh.feed(b"user@host% ");
    tick_until_stable(&mut sb);
    assert_eq!(sb.ssh_state, SshBrowserState::SettingPrompt);
}

// ---- SSH password detection ----

#[test]
fn connecting_detects_password_prompt() {
    let mut sb = make_ssh();
    sb.ssh.feed(b"user@host's password:");
    sb.tick(NOW);

    assert!(sb.waiting_password);
    assert_eq!(sb.core.status_msg, "SSH requires password");
    assert!(sb.password_buf.is_empty());
}

#[test]
fn connecting_auto_sends_saved_password() {
    let mut sb = make_ssh();
    sb.saved_password = Some("secret".to_string());
    sb.ssh.feed(b"user@host's password:");
    sb.tick(NOW);

    assert!(!sb.waiting_password, "should auto-send, not prompt");
    let sent = &sb.ssh.outbox;
    assert!(
        sent.iter().any(|s| s.contains("secret")),
        "should send password, got: {:?}",
        sent
    );
    assert!(sb.core.status_msg.contains("Authenticating"));
}

#[test]
fn connecting_rejects_saved_password_on_second_prompt() {
    let mut sb = make_ssh();
    sb.saved_password = Some("wrong".to_string());
    sb.password_prompts_seen = 1;
    sb.ssh.feed(b"user@host's password:\nPermission denied\nuser@host's password:");
    sb.tick(NOW);

    assert!(sb.waiting_password, "should re-prompt after rejection");
    assert!(
        sb.saved_password.is_none(),
        "saved password should be cleared"
    );
    assert!(sb.core.status_msg.contains("Wrong password"));
}

#[test]
fn connecting_blocks_while_waiting_password() {
    let mut sb = make_ssh();
    sb.waiting_password = true;
    sb.ssh.feed(b"user@host:~$ ");
    tick_until_stable(&mut sb);
    assert_eq!(
        sb.ssh_state,
        SshBrowserState::Connecting,
        "should not progress while waiting for password"
    );
}

// ---- Password input methods ----

#[test]
fn password_char_and_backspace() {
    let mut sb = make_ssh();
    sb.password_char('a');
    sb.password_char('b');
    sb.password_char('c');
    assert_eq!(sb.password_buf, "abc");
    sb.password_backspace();
    assert_eq!(sb.password_buf, "ab");
}

#[test]
fn submit_password_in_connecting_sends_to_ssh() {
    let mut sb = make_ssh();
    sb.ssh_state = SshBrowserState::Connecting;
    sb.waiting_password = true;
    sb.password_buf = "mypass".to_string();
    sb.ssh.outbox.clear();

    sb.submit_password();

    assert!(!sb.waiting_password);
    assert_eq!(sb.saved_password, Some("mypass".to_string()));
    assert!(sb.password_buf.is_empty());
    let sent = &sb.ssh.outbox;
    assert!(sent.iter().any(|s| s.contains("mypass")));
}

#[test]
fn submit_password_in_transferring_sends_to_scp() {
    let mut sb = make_ssh();
    sb.ssh_state = SshBrowserState::Transferring;
    sb.waiting_password = true;
    sb.password_buf = "scppass".to_string();
    sb.core.transfer.last = Some(TransferStatus {
        filename: "file.txt".to_string(),
        direction: TransferDirection::Download,
        is_dir: false,
        done: false,
        progress: 0,
        file_count: 0,
    });
    attach_scp_pty(&mut sb);

    sb.submit_password();

    assert!(!sb.waiting_password);
    assert_eq!(sb.saved_password, Some("scppass".to_string()));
    let sent = &sb.scp_pty.as_ref().unwrap().outbox;
    assert!(sent.iter().any(|s| s.contains("scppass")));
}

// ---- SettingPrompt state ----

#[test]
fn setting_prompt_transitions_to_waiting_pwd() {
    let mut sb = make_ssh();
    sb.ssh_state = SshBrowserState::SettingPrompt;

    sb.ssh.feed(b"SSHMUX> ");
    tick_until_stable(&mut sb);

    assert_eq!(sb.ssh_state, SshBrowserState::WaitingPwd);
    let sent = &sb.ssh.outbox;
    assert!(
        sent.iter().any(|s| s == "pwd\r\n"),
        "should send pwd, got: {:?}",
        sent
    );
}

#[test]
fn setting_prompt_captures_raw_snapshot() {
    let mut sb = make_ssh();
    sb.ssh_state = SshBrowserState::SettingPrompt;
    sb.ssh.feed(b"setting up...\nSSHMUX> ");
    sb.tick(NOW);
    assert!(!sb.core.raw_snapshot.is_empty());
}

// ---- WaitingPwd state ----

#[test]
fn waiting_pwd_transitions_to_waiting_ls() {
    let mut sb = make_ssh();
    sb.ssh_state = SshBrowserState::WaitingPwd;

    sb.ssh.feed(b"/home/testuser\nSSHMUX> ");
    tick_until_stable(&mut sb);

    assert_eq!(sb.ssh_state, SshBrowserState::WaitingLs);
    assert_eq!(sb.core.remote.path, "/home/testuser");
    let sent = &sb.ssh.outbox;
    assert!(
        sent.iter().any(|s| s.starts_with("ls ")),
        "should send ls, got: {:?}",
        sent
    );
}

// ---- WaitingLs state ----

#[test]
fn ssh_waiting_ls_populates_entries_and_goes_idle() {
    let mut sb = make_ssh();
    sb.ssh_state = SshBrowserState::WaitingLs;

    sb.ssh.feed(b"drwxr-xr-x  2 user user  4096 Jan  1 12:00 subdir\n-rw-r--r--  1 user user  1234 Jan  1 12:00 file.txt\nSSHMUX> ");
    tick_until_stable(&mut sb);

    assert_eq!(sb.ssh_state, SshBrowserState::Idle);
    assert!(sb.core.remote.entries.len() >= 2);
    assert!(sb.core.raw_snapshot.is_empty());
}

#[test]
fn ssh_waiting_ls_chains_pending_delete() {
    let mut sb = make_ssh();
    sb.ssh_state = SshBrowserState::WaitingLs;
    sb.core.delete.pending.push(DeleteTarget {
        location: DeleteLocation::Remote,
        kind: DeleteKind::File,
        path: "/remote/todelete.txt".to_string(),
    });

    sb.ssh.feed(b"-rw-r--r-- 1 u u 10 Jan 1 12:00 a.txt\nSSHMUX> ");
    tick_until_stable(&mut sb);

    assert_eq!(sb.ssh_state, SshBrowserState::WaitingDelete);
    let sent = &sb.ssh.outbox;
    assert!(
        sent.iter().any(|s| s.starts_with("rm ")),
        "should send rm command, got: {:?}",
        sent
    );
}

// ---- Transferring state (SCP monitoring) ----

#[test]
fn transferring_completes_on_scp_exit() {
    let mut sb = make_ssh();
    sb.ssh_state = SshBrowserState::Transferring;
    sb.core.transfer.last = Some(TransferStatus {
        filename: "test.txt".to_string(),
        direction: TransferDirection::Download,
        is_dir: false,
        done: false,
        progress: 0,
        file_count: 0,
    });
    attach_scp_pty(&mut sb);
    sb.ssh.outbox.clear();

    sb.scp_pty.as_mut().unwrap().set_exited();
    sb.scp_pty.as_mut().unwrap().feed(b"test.txt  100%  1234  1.2KB/s  00:00");
    sb.tick(NOW);

    assert_eq!(sb.ssh_state, SshBrowserState::WaitingLs);
    assert!(sb.scp_pty.is_none(), "scp_pty should be dropped after exit");
    assert!(sb.core.transfer.last.as_ref().unwrap().done);
    assert_eq!(sb.core.transfer.last.as_ref().unwrap().progress, 100);
    let sent = &sb.ssh.outbox;
    assert!(
        sent.iter().any(|s| s.starts_with("ls ")),
        "should send ls after transfer, got: {:?}",
        sent
    );
}

#[test]
fn transferring_scrapes_scp_progress() {
    let mut sb = make_ssh();
    sb.ssh_state = SshBrowserState::Transferring;
    sb.core.transfer.last = Some(TransferStatus {
        filename: "big.bin".to_string(),
        direction: TransferDirection::Download,
        is_dir: false,
        done: false,
        progress: 0,
        file_count: 0,
    });
    attach_scp_pty(&mut sb);

    sb.scp_pty.as_mut().unwrap().feed(b"big.bin  50%  512KB  256.0KB/s  00:01");
    sb.tick(NOW);

    assert_eq!(sb.ssh_state, SshBrowserState::Transferring);
    assert_eq!(sb.core.transfer.last.as_ref().unwrap().progress, 50);
}

#[test]
fn transferring_detects_scp_password_prompt() {
    let mut sb = make_ssh();
    sb.ssh_state = SshBrowserState::Transferring;
    sb.core.transfer.last = Some(TransferStatus {
        filename: "file.txt".to_string(),
        direction: TransferDirection::Download,
        is_dir: false,
        done: false,
        progress: 0,
        file_count: 0,
    });
    attach_scp_pty(&mut sb);

    sb.scp_pty.as_mut().unwrap().feed(b"user@host's password:");
    sb.tick(NOW);

    assert!(sb.waiting_password);
    assert!(sb.core.status_msg.contains("SCP requires password"));
}

#[test]
fn transferring_auto_sends_saved_scp_password() {
    let mut sb = make_ssh();
    sb.ssh_state = SshBrowserState::Transferring;
    sb.saved_password = Some("secret".to_string());
    sb.core.transfer.last = Some(TransferStatus {
        filename: "file.txt".to_string(),
        direction: TransferDirection::Download,
        is_dir: false,
        done: false,
        progress: 0,
        file_count: 0,
    });
    attach_scp_pty(&mut sb);

    sb.scp_pty.as_mut().unwrap().feed(b"user@host's password:");
    sb.tick(NOW);

    assert!(!sb.waiting_password);
    let sent = &sb.scp_pty.as_ref().unwrap().outbox;
    assert!(
        sent.iter().any(|s| s.contains("secret")),
        "should auto-send password, got: {:?}",
        sent
    );
}

#[test]
fn transferring_rejects_scp_password_on_second_prompt() {
    let mut sb = make_ssh();
    sb.ssh_state = SshBrowserState::Transferring;
    sb.saved_password = Some("wrong".to_string());
    sb.password_prompts_seen = 1;
    sb.core.transfer.last = Some(TransferStatus {
        filename: "file.txt".to_string(),
        direction: TransferDirection::Download,
        is_dir: false,
        done: false,
        progress: 0,
        file_count: 0,
    });
    attach_scp_pty(&mut sb);

    sb.scp_pty.as_mut().unwrap().feed(b"user@host's password:\nPermission denied\nuser@host's password:");
    sb.tick(NOW);

    assert!(sb.waiting_password);
    assert!(sb.saved_password.is_none());
    assert!(
        sb.scp_pty.is_none(),
        "scp_pty should be dropped on rejection"
    );
}

#[test]
fn transferring_recovers_when_scp_pty_missing() {
    let mut sb = make_ssh();
    sb.ssh_state = SshBrowserState::Transferring;
    sb.scp_pty = None; // no SCP process

    sb.tick(NOW);

    assert_eq!(sb.ssh_state, SshBrowserState::Idle);
    assert_eq!(sb.core.status_color, Color::Red);
    assert!(sb.core.status_msg.contains("Transfer failed"));
}

#[test]
fn transferring_blocks_while_waiting_password() {
    let mut sb = make_ssh();
    sb.ssh_state = SshBrowserState::Transferring;
    sb.waiting_password = true;
    attach_scp_pty(&mut sb);

    sb.tick(NOW);

    // Should return early without processing
    assert_eq!(sb.ssh_state, SshBrowserState::Transferring);
}

#[test]
fn transferring_resets_batch_on_last_transfer() {
    let mut sb = make_ssh();
    sb.ssh_state = SshBrowserState::Transferring;
    sb.core.transfer.batch_done = 0;
    sb.core.transfer.batch_total = 1;
    sb.core.transfer.start = Some(NOW);
    sb.core.transfer.last = Some(TransferStatus {
        filename: "only.txt".to_string(),
        direction: TransferDirection::Download,
        is_dir: false,
        done: false,
        progress: 0,
        file_count: 0,
    });
    attach_scp_pty(&mut sb);

    sb.scp_pty.as_mut().unwrap().set_exited();
    sb.tick(NOW);

    assert_eq!(
        sb.core.transfer.batch_done, 0,
        "batch should reset after last transfer"
    );
    assert_eq!(sb.core.transfer.batch_total, 0);
    assert!(sb.core.transfer.start.is_none());
}

// ---- WaitingDelete state ----

#[test]
fn ssh_waiting_delete_success_sends_ls() {
    let mut sb = make_ssh();
    sb.ssh_state = SshBrowserState::WaitingDelete;
    sb.core.delete.pending_name = Some("removed.txt".to_string());
    sb.ssh.outbox.clear();

    sb.ssh.feed(b"SSHMUX> ");
    tick_until_stable(&mut sb);

    assert_eq!(sb.ssh_state, SshBrowserState::WaitingLs);
    assert_eq!(sb.core.status_color, Color::Green);
    assert!(sb.core.status_msg.contains("Deleted remote: removed.txt"));
    let sent = &sb.ssh.outbox;
    assert!(sent.iter().any(|s| s.starts_with("ls ")));
}

#[test]
fn ssh_waiting_delete_failure_shows_error() {
    let mut sb = make_ssh();
    sb.ssh_state = SshBrowserState::WaitingDelete;
    sb.core.delete.pending_name = Some("protected.txt".to_string());

    // First line is the command echo, error is on subsequent lines
    sb.ssh.feed(
        b"rm -- protected.txt\nrm: cannot remove 'protected.txt': Permission denied\nSSHMUX> ",
    );
    tick_until_stable(&mut sb);

    assert_eq!(sb.ssh_state, SshBrowserState::WaitingLs);
    assert_eq!(sb.core.status_color, Color::Red);
    assert!(sb.core.status_msg.contains("Delete failed: protected.txt"));
}

#[test]
fn ssh_waiting_delete_chains_next_delete() {
    let mut sb = make_ssh();
    sb.ssh_state = SshBrowserState::WaitingDelete;
    sb.core.delete.pending_name = Some("first.txt".to_string());
    sb.core.delete.pending.push(DeleteTarget {
        location: DeleteLocation::Remote,
        kind: DeleteKind::File,
        path: "/remote/second.txt".to_string(),
    });
    sb.ssh.outbox.clear();

    sb.ssh.feed(b"SSHMUX> ");
    tick_until_stable(&mut sb);

    assert_eq!(sb.ssh_state, SshBrowserState::WaitingDelete);
    assert!(sb.core.delete.pending.is_empty());
    let sent = &sb.ssh.outbox;
    assert!(
        sent.iter().any(|s| s.starts_with("rm ")),
        "should chain to next delete, got: {:?}",
        sent
    );
}

#[test]
fn waiting_delete_uses_rm_rf_for_dirs() {
    let mut sb = make_ssh();
    sb.ssh_state = SshBrowserState::Idle;
    sb.core.delete.confirm = Some(DeleteTarget {
        location: DeleteLocation::Remote,
        kind: DeleteKind::Dir,
        path: "/remote/somedir".to_string(),
    });
    sb.ssh.outbox.clear();

    sb.confirm_delete_yes();

    assert_eq!(sb.ssh_state, SshBrowserState::WaitingDelete);
    let sent = &sb.ssh.outbox;
    assert!(
        sent.iter().any(|s| s.contains("rm -rf")),
        "should use rm -rf for dirs, got: {:?}",
        sent
    );
}

#[test]
fn waiting_delete_uses_rm_for_files() {
    let mut sb = make_ssh();
    sb.ssh_state = SshBrowserState::Idle;
    sb.core.delete.confirm = Some(DeleteTarget {
        location: DeleteLocation::Remote,
        kind: DeleteKind::File,
        path: "/remote/somefile.txt".to_string(),
    });
    sb.ssh.outbox.clear();

    sb.confirm_delete_yes();

    assert_eq!(sb.ssh_state, SshBrowserState::WaitingDelete);
    let sent = &sb.ssh.outbox;
    let rm_cmds: Vec<_> = sent
        .iter()
        .filter(|s| s.starts_with("rm "))
        .cloned()
        .collect();
    assert!(!rm_cmds.is_empty());
    assert!(
        !rm_cmds.iter().any(|s| s.contains("-rf")),
        "should not use -rf for files, got: {:?}",
        rm_cmds
    );
}

// ---- Navigation ----

#[test]
fn ssh_enter_on_remote_dir_sends_ls() {
    let mut sb = make_ssh();
    sb.ssh_state = SshBrowserState::Idle;
    sb.core.remote.path = "/home".to_string();
    sb.core.focus = BrowserFocus::Remote;
    sb.core.remote.entries.push(FsEntry {
        name: "subdir".to_string(),
        is_dir: true,
        is_link: false,
        size: "4096".to_string(),
        modified: "Jan 1 12:00".to_string(),
        perms: "drwxr-xr-x".to_string(),
    });
    sb.core.remote.sel.select(Some(0));
    sb.ssh.outbox.clear();

    sb.enter(NOW);

    assert_eq!(sb.ssh_state, SshBrowserState::WaitingLs);
    assert_eq!(sb.core.remote.path, "/home/subdir");
    let sent = &sb.ssh.outbox;
    assert!(sent.iter().any(|s| s.starts_with("ls ")));
}

#[test]
fn ssh_go_up_remote_sends_ls() {
    let mut sb = make_ssh();
    sb.ssh_state = SshBrowserState::Idle;
    sb.core.remote.path = "/home/user".to_string();
    sb.core.focus = BrowserFocus::Remote;
    sb.ssh.outbox.clear();

    sb.go_up(NOW);

    assert_eq!(sb.ssh_state, SshBrowserState::WaitingLs);
    assert_eq!(sb.core.remote.path, "/home");
    let sent = &sb.ssh.outbox;
    assert!(sent.iter().any(|s| s.starts_with("ls ")));
}

#[test]
fn ssh_enter_ignored_when_not_idle() {
    let mut sb = make_ssh();
    sb.ssh_state = SshBrowserState::WaitingLs;
    sb.core.focus = BrowserFocus::Remote;
    sb.core.remote.entries.push(FsEntry {
        name: "dir".to_string(),
        is_dir: true,
        is_link: false,
        size: "4096".to_string(),
        modified: "Jan 1 12:00".to_string(),
        perms: "drwxr-xr-x".to_string(),
    });
    sb.core.remote.sel.select(Some(0));
    sb.ssh.outbox.clear();

    sb.enter(NOW);

    assert_eq!(sb.ssh_state, SshBrowserState::WaitingLs);
    assert!(sb.ssh.outbox.is_empty());
}

// ---- send_connect_key ----

#[test]
fn ssh_send_connect_key_forwards_chars() {
    let mut sb = make_ssh();
    sb.ssh.outbox.clear();

    sb.send_connect_key(KeyCode::Char('y'));
    sb.send_connect_key(KeyCode::Enter);
    sb.send_connect_key(KeyCode::Backspace);

    let s = &sb.ssh.outbox;
    assert_eq!(s.len(), 3);
    assert_eq!(s[0], "y");
    assert_eq!(s[1], "\r\n");
    assert_eq!(s[2], "\x7f");
}

// ---- State label ----

#[test]
fn ssh_state_labels() {
    let mut sb = make_ssh();

    let cases = [
        (SshBrowserState::Connecting, "connecting"),
        (SshBrowserState::SettingPrompt, "connecting"),
        (SshBrowserState::WaitingPwd, "loading"),
        (SshBrowserState::WaitingLs, "loading"),
        (SshBrowserState::Idle, "idle"),
        (SshBrowserState::WaitingDelete, "deleting"),
        (SshBrowserState::Transferring, "transfer"),
    ];
    for (state, expected) in cases {
        sb.ssh_state = state;
        assert_eq!(sb.state_label().0, expected, "state_label for {:?}", state);
    }
}

// ---- Progress suffix ----

#[test]
fn progress_suffix_in_progress() {
    let mut sb = make_ssh();
    sb.core.transfer.last = Some(TransferStatus {
        filename: "f.txt".to_string(),
        direction: TransferDirection::Download,
        is_dir: false,
        done: false,
        progress: 42,
        file_count: 0,
    });
    assert_eq!(sb.progress_suffix(), " 42%");
}

#[test]
fn ssh_progress_suffix_done() {
    let mut sb = make_ssh();
    sb.core.transfer.last = Some(TransferStatus {
        filename: "f.txt".to_string(),
        direction: TransferDirection::Download,
        is_dir: false,
        done: true,
        progress: 100,
        file_count: 0,
    });
    assert_eq!(sb.progress_suffix(), "");
}

// ---- Idle state ----

#[test]
fn ssh_idle_tick_is_noop() {
    let mut sb = make_ssh();
    sb.ssh_state = SshBrowserState::Idle;
    sb.core.status_msg = "idle".to_string();

    sb.tick(NOW);

    assert_eq!(sb.ssh_state, SshBrowserState::Idle);
    assert_eq!(sb.core.status_msg, "idle");
}

// ---- Prompt stability ----

#[test]
fn ssh_no_transition_before_stable() {
    let mut sb = make_ssh();
    sb.ssh_state = SshBrowserState::SettingPrompt;
    sb.ssh.feed(b"SSHMUX> ");

    sb.tick(NOW);
    sb.tick(NOW);

    assert_eq!(sb.ssh_state, SshBrowserState::SettingPrompt);
}

#[test]
fn ssh_changing_raw_len_resets_stability() {
    let mut sb = make_ssh();
    sb.ssh_state = SshBrowserState::SettingPrompt;
    sb.ssh.feed(b"SSHMUX> ");
    sb.tick(NOW);
    sb.tick(NOW);

    sb.ssh.feed(b" ");
    sb.tick(NOW);

    assert_eq!(sb.ssh_state, SshBrowserState::SettingPrompt);
}

// ---- Render tests ----

#[test]
fn render_password_status_shows_stars() {
    let mut sb = make_ssh();
    sb.password_buf = "abc".to_string();
    let text = sb.render_password_status(40);
    assert!(text.contains("Password:"), "should contain label: {}", text);
    assert!(text.contains("***"), "should mask with stars: {}", text);
    assert!(
        !text.contains("abc"),
        "should not reveal password: {}",
        text
    );
}

#[test]
fn render_password_status_empty_password() {
    let mut sb = make_ssh();
    sb.password_buf.clear();
    let text = sb.render_password_status(40);
    assert!(text.contains("Password:"), "should contain label: {}", text);
    assert!(
        !text.contains('*'),
        "should have no stars for empty password: {}",
        text
    );
}

// ---- Command timeout ----

#[test]
fn ssh_waiting_ls_times_out_to_idle() {
    let mut sb = make_ssh();
    sb.ssh_state = SshBrowserState::WaitingLs;
    sb.core.cmd_start =
        Some(NOW - (COMMAND_TIMEOUT_SECS + 1) * 1000);
    sb.tick(NOW);
    assert_eq!(sb.ssh_state, SshBrowserState::Idle);
    assert_eq!(sb.core.status_color, Color::Red);
    assert!(sb.core.status_msg.contains("timed out"));
    assert!(sb.core.cmd_start.is_none());
}

#[test]
fn ssh_waiting_pwd_times_out_to_idle() {
    let mut sb = make_ssh();
    sb.ssh_state = SshBrowserState::WaitingPwd;
    sb.core.cmd_start =
        Some(NOW - (COMMAND_TIMEOUT_SECS + 1) * 1000);
    sb.tick(NOW);
    assert_eq!(sb.ssh_state, SshBrowserState::Idle);
    assert_eq!(sb.core.status_color, Color::Red);
}

#[test]
fn ssh_waiting_delete_times_out_to_idle() {
    let mut sb = make_ssh();
    sb.ssh_state = SshBrowserState::WaitingDelete;
    sb.core.cmd_start =
        Some(NOW - (COMMAND_TIMEOUT_SECS + 1) * 1000);
    sb.tick(NOW);
    assert_eq!(sb.ssh_state, SshBrowserState::Idle);
}

#[test]
fn ssh_no_timeout_without_cmd_start() {
    let mut sb = make_ssh();
    sb.ssh_state = SshBrowserState::WaitingLs;
    sb.core.cmd_start = None;
    sb.tick(NOW);
    assert_eq!(sb.ssh_state, SshBrowserState::WaitingLs);
}
