use silo::git::{Mode, UncommittedStats, Worktree};
use silo::process::ProcessInfo;
use silo::removal::{main_branch, RemovableSilo, RemovalBlocker, RemovalError};
use silo::reset::{check_dirty, get_main_branch, reset_message, short_commit};
use silo::silo::{RepoId, Silo};

fn make_test_silo(name: &str) -> Silo {
    Silo {
        name: name.to_string(),
        branch: Some(name.to_string()),
        main_worktree: RepoId::new("/tmp/test-repo".to_string()),
        storage_path: format!("/tmp/test-silos/{}", name),
        repo_name: "test-repo".to_string(),
    }
}

fn clean() -> UncommittedStats {
    UncommittedStats { staged: 0, modified: 0, untracked: 0 }
}

#[test]
fn test_removal_blocker_display() {
    let blocker = RemovalBlocker::UncommittedChanges(UncommittedStats {
        staged: 1,
        modified: 2,
        untracked: 3,
    });
    let display = blocker.message();
    assert!(display.contains("staged"));
    assert!(display.contains("modified"));
    assert!(display.contains("untracked"));
    assert_eq!(display, "Uncommitted changes: 1 staged, 2 modified, 3 untracked");
}

#[test]
fn test_unmerged_commits_blocker_display() {
    let blocker = RemovalBlocker::UnmergedCommits(3);
    let display = blocker.message();
    assert!(display.contains("Unmerged commits"));
    assert!(display.contains("3 commit(s)"));
    assert!(display.contains("not in main branch"));
    assert_eq!(display, "Unmerged commits: 3 commit(s) not in main branch");
}

#[test]
fn test_removal_error_display() {
    let silo = make_test_silo("test-branch");
    let error = RemovalError {
        silo,
        blockers: vec![RemovalBlocker::ActiveProcesses(vec![])],
    };
    let display = error.message();
    assert!(display.contains("test-branch"));
    assert!(display.contains("cannot be removed"));
    assert_eq!(
        display,
        "Silo 'test-branch' cannot be removed:\n  - Active processes: 0"
    );
}

#[test]
fn test_from_silo_unchecked_preserves_name() {
    let silo = make_test_silo("my-feature");
    let removable = RemovableSilo::from_silo_unchecked(silo, "main".to_string(), false);
    assert_eq!(removable.name(), "my-feature");
}

#[test]
fn active_processes_display() {
    let blocker = RemovalBlocker::ActiveProcesses(vec![
        ProcessInfo { pid: 12, command: "cargo test".to_string() },
        ProcessInfo { pid: 345, command: "".to_string() },
    ]);
    assert_eq!(blocker.message(), "Active processes (2): 12 (cargo test), 345 ()");
}

#[test]
fn removal_is_blocked_in_order() {
    let dirty = UncommittedStats { staged: 0, modified: 1, untracked: 0 };
    let processes = vec![ProcessInfo { pid: 1, command: "x".to_string() }];
    let error = RemovableSilo::try_from(
        make_test_silo("f"),
        dirty,
        processes,
        "main".to_string(),
        2,
        false,
    )
    .unwrap_err();
    assert_eq!(error.silo.name, "f");
    assert_eq!(error.blockers.len(), 3);
    assert!(matches!(error.blockers[0], RemovalBlocker::UncommittedChanges(_)));
    assert!(matches!(error.blockers[1], RemovalBlocker::ActiveProcesses(_)));
    assert!(matches!(error.blockers[2], RemovalBlocker::UnmergedCommits(2)));
    assert_eq!(
        error.message(),
        "Silo 'f' cannot be removed:\n  - Uncommitted changes: 0 staged, 1 modified, 0 untracked\n  - Active processes (1): 1 (x)\n  - Unmerged commits: 2 commit(s) not in main branch"
    );
    let error =
        RemovableSilo::try_from(make_test_silo("f"), clean(), vec![], "main".to_string(), 1, true)
            .unwrap_err();
    assert_eq!(error.blockers.len(), 1);
}

#[test]
fn removal_goes_ahead_for_a_clean_silo() {
    let removable =
        RemovableSilo::try_from(make_test_silo("f"), clean(), vec![], "trunk".to_string(), 0, true)
            .unwrap();
    assert_eq!(removable.name(), "f");
    assert_eq!(removable.silo(), &make_test_silo("f"));
    assert_eq!(
        removable.dry_run_lines(),
        vec![
            "Would remove silo: f",
            "  Path: /tmp/test-silos/f",
            "  Would delete branch 'f' (merged into trunk)"
        ]
    );
    let cmd = removable.removal_command(false, true);
    assert_eq!(cmd.dir, "/tmp/test-repo");
    assert_eq!(cmd.args, vec!["worktree", "remove", "/tmp/test-silos/f"]);
    assert_eq!(cmd.mode, Mode::Quiet);
    let cmd = removable.removal_command(true, false);
    assert_eq!(cmd.args, vec!["worktree", "remove", "--force", "/tmp/test-silos/f"]);
    assert_eq!(cmd.mode, Mode::Verbose);
    assert_eq!(removable.preserved_message(false, true), None);
    assert_eq!(removable.preserved_message(true, false), None);
    assert_eq!(
        removable.preserved_message(false, false),
        Some("Preserved branch 'f' (not merged)".to_string())
    );
    let mut detached = make_test_silo("d");
    detached.branch = None;
    let kept = RemovableSilo::from_silo_unchecked(detached, "main".to_string(), false);
    assert_eq!(
        kept.dry_run_lines()[2],
        "  Would preserve branch 'd' (not merged)"
    );
}

#[test]
fn test_get_main_branch_fallback() {
    // Where the worktrees cannot be listed, the main branch is taken to be "main".
    let branch = get_main_branch(&Err("Failed to list worktrees: fatal".to_string()));
    assert_eq!(branch, "main");
}

#[test]
fn test_check_dirty_empty_for_nonexistent_path() {
    // Where git fails, the stats are zero and nothing is ahead: no blockers.
    let blockers = check_dirty(clean(), 0);
    assert!(blockers.is_empty());
}

#[test]
fn main_branch_from_the_first_worktree() {
    let listed = Ok(vec![
        Worktree { path: "/r".to_string(), branch: Some("trunk".to_string()) },
        Worktree { path: "/s".to_string(), branch: Some("f".to_string()) },
    ]);
    assert_eq!(main_branch(&listed), "trunk");
    assert_eq!(RemovableSilo::get_main_branch(&listed), "trunk");
    let detached = Ok(vec![Worktree { path: "/r".to_string(), branch: None }]);
    assert_eq!(main_branch(&detached), "main");
    assert_eq!(main_branch(&Ok(vec![])), "main");
}

#[test]
fn check_dirty_lists_the_work_at_stake() {
    let dirty = UncommittedStats { staged: 1, modified: 0, untracked: 0 };
    let blockers = check_dirty(dirty, 4);
    assert_eq!(blockers.len(), 2);
    assert!(matches!(blockers[0], RemovalBlocker::UncommittedChanges(_)));
    assert!(matches!(blockers[1], RemovalBlocker::UnmergedCommits(4)));
    assert_eq!(check_dirty(clean(), 4).len(), 1);
}

#[test]
fn reset_messages() {
    assert_eq!(short_commit("0123456789abcdef0123"), "0123456789ab");
    assert_eq!(short_commit("0123"), "0123");
    assert_eq!(short_commit(""), "");
    assert_eq!(short_commit("0123456789ab"), "0123456789ab");
    assert_eq!(short_commit("éééééééééééé"), "éééééé");
    assert_eq!(short_commit("0éééééééééééé"), "0éééééééééééé");
    assert_eq!(
        reset_message("f", "0123456789abcdef", false),
        "Would reset silo 'f' to commit 0123456789ab"
    );
    assert_eq!(reset_message("f", "abc", true), "Reset silo 'f' to commit abc");
}
