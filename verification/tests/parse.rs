//! Reading the output of `sftp`, `ls` and `scp`.
use sshmux::browser::parse::{
    contains_any_error, epoch_to_ymd, human_size, local_listing, parse_ls, parse_pwd,
    scrape_transfer_progress, shell_quote, skip_n_tokens, strip_ansi, transfer_percent, DirItem,
    ItemMeta,
};

fn ls(raw: &str) -> Vec<String> {
    raw.lines().map(|l| l.to_string()).collect()
}

// ---- parse_pwd ---------------------------------------------------------

#[test]
fn parse_pwd_label() {
    assert_eq!(
        parse_pwd(&["Remote working directory: /home/debian".to_string()]),
        Some("/home/debian".to_string())
    );
}

#[test]
fn parse_pwd_root() {
    assert_eq!(
        parse_pwd(&["Remote working directory: /".to_string()]),
        Some("/".to_string())
    );
}

#[test]
fn parse_pwd_bare_absolute_path() {
    assert_eq!(
        parse_pwd(&["/home/user".to_string()]),
        Some("/home/user".to_string())
    );
}

#[test]
fn parse_pwd_tilde_path() {
    assert_eq!(
        parse_pwd(&["~/projects".to_string()]),
        Some("~/projects".to_string())
    );
}

#[test]
fn parse_pwd_path_with_spaces_ignored() {
    // paths with spaces are not valid bare pwd output
    assert_eq!(parse_pwd(&["/home/my dir".to_string()]), None);
}

#[test]
fn parse_pwd_empty_input() {
    assert_eq!(parse_pwd(&[]), None);
}

#[test]
fn parse_pwd_skips_noise_lines() {
    let lines = ls("sftp> pwd\nRemote working directory: /var/www\nsftp>");
    assert_eq!(parse_pwd(&lines), Some("/var/www".to_string()));
}

// ---- parse_ls ----------------------------------------------------------

#[test]
fn parse_ls_file_and_dir() {
    let e = parse_ls(&ls(
        "drwx------    ? debian  debian  4096 Mar 14 09:44 docs\n\
         -rw-r--r--    ? debian  debian   220 Aug  4  2021 .bashrc\n\
         sftp>",
    ));
    assert_eq!(e.len(), 3); // ".." + docs + .bashrc
    assert!(e.iter().any(|x| x.name == "docs"));
    assert!(e.iter().any(|x| x.name == ".bashrc"));
}

#[test]
fn parse_ls_dirs_sorted_before_files() {
    let e = parse_ls(&ls("-rw-r--r--    ? u g   100 Jan  1  2020 aaa.txt\n\
         drwxr-xr-x    ? u g  4096 Jan  1  2020 zzz_dir"));
    assert_eq!(e[0].name, "..");
    assert_eq!(e[1].name, "zzz_dir");
    assert_eq!(e[2].name, "aaa.txt");
}

#[test]
fn parse_ls_skips_dot_and_dotdot() {
    let e = parse_ls(&ls("drwx------    ? u g 4096 Mar 14 09:44 .\n\
         drwx------    ? u g 4096 Jan  1  2020 .."));
    // only the synthetic ".." entry remains
    assert_eq!(e.len(), 1);
    assert_eq!(e[0].name, "..");
}

#[test]
fn parse_ls_symlink_strips_arrow() {
    let e = parse_ls(&ls(
        "lrwxrwxrwx    ? u g 11 Jan  1  2020 mylink -> /etc/target",
    ));
    let link = e.iter().find(|x| x.name == "mylink");
    assert!(link.is_some());
    assert!(link.unwrap().is_dir); // symlinks treated as dirs for navigation
}

#[test]
fn parse_ls_skips_noise_lines() {
    let e = parse_ls(&ls(
        "sftp>\ntotal 42\n-rw-r--r--    ? u g 100 Jan  1  2020 file.txt",
    ));
    assert_eq!(e.len(), 2);
}

#[test]
fn parse_ls_masked_permissions() {
    let e = parse_ls(&ls("drwx******    ? u g 4096 Mar 14 09:44 somedir"));
    assert!(e.iter().find(|x| x.name == "somedir").unwrap().is_dir);
}

#[test]
fn parse_ls_records_perms_and_modified() {
    let e = parse_ls(&ls("-rw-r--r--    ? u g 100 Jan  1 12:00 notes.txt"));
    let f = e.iter().find(|x| x.name == "notes.txt").unwrap();
    assert_eq!(f.perms, "-rw-r--r--");
    assert_eq!(f.modified, "Jan 1 12:00");
}

#[test]
fn parse_ls_filename_with_spaces() {
    let e = parse_ls(&ls(
        "-rw-r--r--    ? u g 100 Jan  1  2020 my great file.txt",
    ));
    assert!(e.iter().any(|x| x.name == "my great file.txt"));
}

#[test]
fn parse_ls_shell_quoted_filename() {
    // GNU ls wraps names with special chars in single quotes in PTY mode
    let quoted_name = format!("'{}'", "file [1] (copy).txt");
    let line = format!("-rw-r--r--    ? u g 100 Jan  1  2020 {}", quoted_name);
    let e = parse_ls(&ls(&line));
    assert!(e.iter().any(|x| x.name == "file [1] (copy).txt"));
}

#[test]
fn parse_ls_filename_with_internal_quote() {
    // A filename like it's_a_file.txt must NOT be mangled
    let line = "-rw-r--r--    ? u g 100 Jan  1  2020 it's_a_file.txt";
    let e = parse_ls(&ls(line));
    assert!(e.iter().any(|x| x.name == "it's_a_file.txt"));
}

// ---- strip_ansi --------------------------------------------------------

#[test]
fn strip_ansi_plain_text_unchanged() {
    assert_eq!(strip_ansi(b"hello"), "hello");
}

#[test]
fn strip_ansi_removes_csi_colour() {
    assert_eq!(strip_ansi(b"\x1b[32mhi\x1b[0m"), "hi");
}

#[test]
fn strip_ansi_removes_osc_title() {
    assert_eq!(strip_ansi(b"\x1b]0;title\x07x"), "x");
}

#[test]
fn strip_ansi_removes_bare_escape() {
    assert_eq!(strip_ansi(b"\x1bMtext"), "text");
}

#[test]
fn strip_ansi_empty_input() {
    assert_eq!(strip_ansi(b""), "");
}

// ---- human_size --------------------------------------------------------

#[test]
fn hs_bytes() {
    assert_eq!(human_size(500), "500 B");
}
#[test]
fn hs_kb() {
    assert_eq!(human_size(1024), "1.0 KB");
}
#[test]
fn hs_mb() {
    assert_eq!(human_size(1024 * 1024), "1.0 MB");
}
#[test]
fn hs_gb() {
    assert_eq!(human_size(1024 * 1024 * 1024), "1.0 GB");
}
#[test]
fn hs_zero() {
    assert_eq!(human_size(0), "0 B");
}

// ---- shell_quote -------------------------------------------------------

#[test]
fn sq_plain() {
    assert_eq!(shell_quote("hello"), "'hello'");
}
#[test]
fn sq_spaces() {
    assert_eq!(shell_quote("my file"), "'my file'");
}
#[test]
fn sq_single_quote() {
    assert_eq!(shell_quote("it's"), "'it'\\''s'");
}
#[test]
fn sq_empty() {
    assert_eq!(shell_quote(""), "''");
}

// ---- skip_n_tokens -----------------------------------------------------

#[test]
fn snt_zero() {
    assert_eq!(skip_n_tokens("a b c", 0), "a b c");
}
#[test]
fn snt_one() {
    assert_eq!(skip_n_tokens("a b c", 1), "b c");
}
#[test]
fn snt_all() {
    assert_eq!(skip_n_tokens("a b c", 3), "");
}
#[test]
fn snt_preserves_spaces_in_filename() {
    assert_eq!(
        skip_n_tokens("-rw-r--r-- 1 u g 100 Jan 1 12:00 my great file.txt", 8),
        "my great file.txt"
    );
}

// ---- epoch_to_ymd ------------------------------------------------------

#[test]
fn epoch_unix_origin() {
    assert_eq!(epoch_to_ymd(0), (1970, 1, 1, 0, 0));
}

#[test]
fn epoch_known_date() {
    let (y, mo, d, _, _) = epoch_to_ymd(1710374400); // 2024-03-14
    assert_eq!((y, mo, d), (2024, 3, 14));
}

#[test]
fn epoch_leap_year() {
    // 2000-02-29 00:00:00 UTC
    let (y, mo, d, _, _) = epoch_to_ymd(951782400);
    assert_eq!((y, mo, d), (2000, 2, 29));
}

#[test]
fn epoch_day_after_leap_day() {
    // 2000-03-01 00:00:00 UTC
    let (y, mo, d, _, _) = epoch_to_ymd(951868800);
    assert_eq!((y, mo, d), (2000, 3, 1));
}

#[test]
fn epoch_new_years_eve() {
    // 2023-12-31 23:59:00 UTC
    let (y, mo, d, h, mi) = epoch_to_ymd(1704067140);
    assert_eq!((y, mo, d, h, mi), (2023, 12, 31, 23, 59));
}

#[test]
fn epoch_non_leap_century() {
    // 1900 is NOT a leap year (divisible by 100 but not 400)
    // 1970-03-01 00:00:00 UTC = 5097600
    let (y, mo, d, _, _) = epoch_to_ymd(5097600);
    assert_eq!((y, mo, d), (1970, 3, 1));
}

// ---- scrape_transfer_progress ------------------------------------------

#[test]
fn scrape_progress_simple() {
    assert_eq!(
        scrape_transfer_progress(&["50%".to_string()]),
        Some("50%".to_string())
    );
}

#[test]
fn scrape_progress_zero() {
    assert_eq!(
        scrape_transfer_progress(&["0%".to_string()]),
        Some("0%".to_string())
    );
}

#[test]
fn scrape_progress_hundred() {
    assert_eq!(
        scrape_transfer_progress(&["100%".to_string()]),
        Some("100%".to_string())
    );
}

#[test]
fn scrape_progress_no_match() {
    assert_eq!(
        scrape_transfer_progress(&["no percent here".to_string()]),
        None
    );
}

#[test]
fn scrape_progress_empty() {
    assert_eq!(scrape_transfer_progress(&[]), None);
}

#[test]
fn scrape_progress_carriage_return() {
    // SCP overwrites progress with \r; last segment wins
    assert_eq!(
        scrape_transfer_progress(&["10%\r75%".to_string()]),
        Some("75%".to_string())
    );
}

#[test]
fn scrape_progress_last_line_wins() {
    assert_eq!(
        scrape_transfer_progress(&["10%".to_string(), "90%".to_string()]),
        Some("90%".to_string())
    );
}

#[test]
fn scrape_progress_with_surrounding_text() {
    assert_eq!(
        scrape_transfer_progress(&["demo.png  50% 125KB 62.5KB/s 00:02".to_string()]),
        Some("50%".to_string())
    );
}

#[test]
fn scrape_progress_invalid_percent() {
    // "abc%" should not match (abc is not a u32)
    assert_eq!(scrape_transfer_progress(&["abc%".to_string()]), None);
}

#[test]
fn scrape_progress_negative_percent() {
    // "-5%" should not match (negative not valid u32)
    assert_eq!(scrape_transfer_progress(&["-5%".to_string()]), None);
}

#[test]
fn scrape_progress_scp_full_line() {
    // Realistic SCP output with \r-separated segments
    let line =
        "demo.png   0%    0     0.0KB/s   --:-- ETA\rdemo.png 100%  125KB  62.5KB/s   00:02";
    assert_eq!(
        scrape_transfer_progress(&[line.to_string()]),
        Some("100%".to_string())
    );
}

// ---- shell_quote (additional edge cases) -------------------------------

#[test]
fn sq_multiple_consecutive_quotes() {
    assert_eq!(shell_quote("a''b"), "'a'\\'''\\''b'");
}

#[test]
fn sq_quote_at_end() {
    assert_eq!(shell_quote("end'"), "'end'\\'''");
}

#[test]
fn sq_newline() {
    assert_eq!(shell_quote("hello\nworld"), "'hello\nworld'");
}

#[test]
fn sq_backslash() {
    assert_eq!(shell_quote("back\\slash"), "'back\\slash'");
}

#[test]
fn sq_special_chars() {
    assert_eq!(shell_quote("$HOME && rm -rf /"), "'$HOME && rm -rf /'");
}

// ---- parse_ls (additional edge cases) ----------------------------------

#[test]
fn parse_ls_unicode_filename() {
    let e = parse_ls(&ls("-rw-r--r--    ? u g 100 Jan  1  2020 café.txt"));
    assert!(e.iter().any(|x| x.name == "café.txt"));
}

#[test]
fn parse_ls_sticky_bit() {
    let e = parse_ls(&ls("drwxrwxrwt    ? root root 4096 Jan  1  2020 tmp"));
    let dir = e.iter().find(|x| x.name == "tmp");
    assert!(dir.is_some());
    assert!(dir.unwrap().is_dir);
    assert_eq!(dir.unwrap().perms, "drwxrwxrwt");
}

#[test]
fn parse_ls_setuid_bit() {
    let e = parse_ls(&ls("-rwsr-xr-x    ? root root 27104 Jan  1  2020 passwd"));
    let f = e.iter().find(|x| x.name == "passwd");
    assert!(f.is_some());
    assert_eq!(f.unwrap().perms, "-rwsr-xr-x");
}

#[test]
fn parse_ls_block_device_skipped() {
    // Block devices start with 'b', not '-', 'd', or 'l' — should be skipped
    let e = parse_ls(&ls("brw-rw----    ? root disk 8 Jan  1  2020 0 sda"));
    // Only the synthetic ".." entry
    assert_eq!(e.len(), 1);
}

#[test]
fn parse_ls_char_device_skipped() {
    let e = parse_ls(&ls("crw-rw-rw-    ? root tty 5 Jan  1  2020 0 tty"));
    assert_eq!(e.len(), 1);
}

#[test]
fn parse_ls_zero_size() {
    let e = parse_ls(&ls("-rw-r--r--    ? u g 0 Jan  1  2020 empty.txt"));
    let f = e.iter().find(|x| x.name == "empty.txt").unwrap();
    assert_eq!(f.size, "0 B");
}

#[test]
fn parse_ls_terabyte_file() {
    let e = parse_ls(&ls(
        "-rw-r--r--    ? u g 1099511627776 Jan  1  2020 large.bin",
    ));
    let f = e.iter().find(|x| x.name == "large.bin").unwrap();
    assert_eq!(f.size, "1.0 TB");
}

#[test]
fn parse_ls_sshmux_prompt_skipped() {
    let e = parse_ls(&ls(
        "SSHMUX> ls -la /tmp\ntotal 12\n-rw-r--r--    ? u g 42 Jan  1  2020 data.csv",
    ));
    assert_eq!(e.len(), 2); // ".." + data.csv
}

#[test]
fn parse_ls_empty_input() {
    let e = parse_ls(&[]);
    assert_eq!(e.len(), 1); // only synthetic ".."
    assert_eq!(e[0].name, "..");
}

#[test]
fn parse_ls_only_noise() {
    let e = parse_ls(&ls("sftp>\ntotal 0\nls -la /tmp"));
    assert_eq!(e.len(), 1);
}

// ---- strip_ansi (additional edge cases) --------------------------------

#[test]
fn strip_ansi_esc_at_end_of_buffer() {
    // ESC at very end — should not panic
    assert_eq!(strip_ansi(b"text\x1b"), "text");
}

#[test]
fn strip_ansi_partial_csi_at_end() {
    // Incomplete CSI sequence
    assert_eq!(strip_ansi(b"text\x1b[32"), "text");
}

#[test]
fn strip_ansi_multiple_sequences() {
    assert_eq!(strip_ansi(b"\x1b[32m\x1b[1mhi\x1b[0m"), "hi");
}

#[test]
fn strip_ansi_osc_with_st_terminator() {
    // OSC terminated by ESC \ instead of BEL
    assert_eq!(strip_ansi(b"\x1b]0;title\x1b\\text"), "text");
}

#[test]
fn strip_ansi_mixed_content() {
    assert_eq!(
        strip_ansi(b"hello \x1b[31mred\x1b[0m world"),
        "hello red world"
    );
}

// ---- human_size (additional edge cases) --------------------------------

#[test]
fn hs_tb() {
    assert_eq!(human_size(1024u64 * 1024 * 1024 * 1024), "1.0 TB");
}

#[test]
fn hs_just_under_kb() {
    assert_eq!(human_size(1023), "1023 B");
}

#[test]
fn strip_ansi_replaces_broken_bytes() {
    assert_eq!(strip_ansi(b"a\xffb"), "a\u{fffd}b");
}

#[test]
fn transfer_percent_is_at_most_hundred() {
    assert_eq!(transfer_percent(&["50%".to_string()]), Some(50));
    assert_eq!(transfer_percent(&["250%".to_string()]), Some(100));
    assert_eq!(transfer_percent(&["none".to_string()]), None);
}

#[test]
fn errors_are_found_in_any_line() {
    let lines = ls("sftp> ls\nCouldn't stat remote file: No such file or directory\nsftp>");
    assert!(contains_any_error(&lines, &["no such file"]));
    assert!(!contains_any_error(&lines, &["permission denied"]));
}

#[test]
fn local_entries_are_listed_like_remote_ones() {
    let items = vec![
        DirItem {
            name: "b.txt".to_string(),
            meta: Some(ItemMeta { is_dir: false, len: 2048, modified: Some(0) }),
        },
        DirItem {
            name: "a".to_string(),
            meta: Some(ItemMeta { is_dir: true, len: 4096, modified: Some(951782400) }),
        },
    ];
    let e = local_listing(&items);
    let names: Vec<&str> = e.iter().map(|x| x.name.as_str()).collect();
    assert_eq!(names, ["..", "a", "b.txt"]);
    assert!(e[1].is_dir);
    assert_eq!(e[2].size, "2.0 KB");
    assert_eq!(e[1].modified, "2000-02-29 00:00");
}
