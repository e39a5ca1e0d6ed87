use silo::process::{pids_dir, process_info, read_command, record_content, tracked_pid, tracking_dir};

#[test]
fn test_tracking_dir() {
    let tracking = tracking_dir("/var/silo/repo-abc123/feature");
    assert_eq!(tracking, "/var/silo/repo-abc123/.tracking/feature");
}

#[test]
fn test_pids_dir() {
    let pids = pids_dir("/var/silo/repo-abc123/feature");
    assert_eq!(pids, "/var/silo/repo-abc123/.tracking/feature/pids");
}

#[test]
fn tracking_dir_edge_cases() {
    assert_eq!(tracking_dir("/"), "/.tracking/");
    assert_eq!(tracking_dir("feature"), ".tracking/feature");
    assert_eq!(tracking_dir("/a/b/"), "/a/.tracking/b");
}

#[test]
fn records_round_trip() {
    let content = record_content("cargo test --all");
    assert_eq!(content, "command=cargo test --all\n");
    assert_eq!(read_command(&content), Some("cargo test --all".to_string()));
    assert_eq!(read_command("pid=1\ncommand=a\ncommand=b\n"), Some("a".to_string()));
    assert_eq!(read_command("nothing here\n"), None);
    assert_eq!(read_command(""), None);
    assert_eq!(read_command("command=\n"), Some("".to_string()));
}

#[test]
fn pid_files() {
    assert_eq!(tracked_pid("12345"), Some(12345));
    assert_eq!(tracked_pid("999999"), Some(999999));
    assert_eq!(tracked_pid(".DS_Store"), None);
    assert_eq!(tracked_pid("12.pid"), None);
    assert_eq!(tracked_pid("4294967296"), None);
    let info = process_info(7, Some("command=sleep 10\n"));
    assert_eq!(info.pid, 7);
    assert_eq!(info.command, "sleep 10");
    assert_eq!(process_info(7, None).command, "");
    assert_eq!(process_info(7, Some("junk")).command, "");
}
