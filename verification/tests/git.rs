use silo::git::{
    ahead_behind_command, cleanup_branch, cleanup_branch_verbose, create_worktree,
    create_worktree_verbose, delete_branch, delete_branch_verbose, diff_stats_command,
    extract_repo_name_from_url, get_ahead_behind, get_diff_stats, get_main_worktree_from_silo,
    get_repo_info, get_repo_name, get_repo_root, get_uncommitted_files, get_uncommitted_stats,
    is_branch_merged, is_worktree_clean, list_worktrees, list_worktrees_command, merge_branch,
    merge_branch_interactive, merged_command, parse_worktree_list, rebase_onto,
    rebase_onto_interactive, remove_worktree, remove_worktree_verbose, repo_root_args, run_git,
    run_git_interactive, run_git_verbose, status_command, try_get_repo_root, CommandOutput, Mode,
    UncommittedStats, Worktree,
};

fn ok(stdout: &str) -> Result<CommandOutput, String> {
    Ok(CommandOutput {
        success: true,
        stdout: stdout.to_string(),
        stderr: String::new(),
    })
}

fn failed(stderr: &str) -> Result<CommandOutput, String> {
    Ok(CommandOutput {
        success: false,
        stdout: String::new(),
        stderr: stderr.to_string(),
    })
}

fn not_started() -> Result<CommandOutput, String> {
    Err("No such file or directory (os error 2)".to_string())
}

#[test]
fn test_extract_repo_name_from_https_url() {
    assert_eq!(
        extract_repo_name_from_url("https://github.com/user/repo.git"),
        Some("repo".to_string())
    );
}

#[test]
fn test_extract_repo_name_from_https_url_no_git_suffix() {
    assert_eq!(
        extract_repo_name_from_url("https://github.com/user/repo"),
        Some("repo".to_string())
    );
}

#[test]
fn test_extract_repo_name_from_ssh_url() {
    assert_eq!(
        extract_repo_name_from_url("git@github.com:user/repo.git"),
        Some("repo".to_string())
    );
}

#[test]
fn test_extract_repo_name_from_ssh_url_no_git_suffix() {
    assert_eq!(
        extract_repo_name_from_url("git@github.com:user/repo"),
        Some("repo".to_string())
    );
}

#[test]
fn extract_repo_name_without_a_slash() {
    assert_eq!(
        extract_repo_name_from_url("host:repo.git"),
        Some("host:repo".to_string())
    );
    assert_eq!(extract_repo_name_from_url(""), Some("".to_string()));
}

#[test]
fn test_parse_worktree_list_empty() {
    let output = "";
    let worktrees = parse_worktree_list(output);
    assert!(worktrees.is_empty());
}

#[test]
fn test_parse_worktree_list_single() {
    let output = "worktree /path/to/repo\nHEAD abc123\nbranch refs/heads/main\n";
    let worktrees = parse_worktree_list(output);
    assert_eq!(worktrees.len(), 1);
    assert_eq!(worktrees[0].path, "/path/to/repo");
    assert_eq!(worktrees[0].branch, Some("main".to_string()));
}

#[test]
fn test_parse_worktree_list_multiple() {
    let output = "worktree /path/to/repo\nHEAD abc123\nbranch refs/heads/main\n\nworktree /path/to/silo\nHEAD def456\nbranch refs/heads/feature\n";
    let worktrees = parse_worktree_list(output);
    assert_eq!(worktrees.len(), 2);
    assert_eq!(worktrees[0].path, "/path/to/repo");
    assert_eq!(worktrees[0].branch, Some("main".to_string()));
    assert_eq!(worktrees[1].path, "/path/to/silo");
    assert_eq!(worktrees[1].branch, Some("feature".to_string()));
}

#[test]
fn test_parse_worktree_list_detached_head() {
    let output = "worktree /path/to/repo\nHEAD abc123\ndetached\n";
    let worktrees = parse_worktree_list(output);
    assert_eq!(worktrees.len(), 1);
    assert_eq!(worktrees[0].branch, None);
}

#[test]
fn parse_worktree_list_edge_cases() {
    // A worktree without a HEAD line is left out.
    let worktrees = parse_worktree_list("worktree /bare\nbare\n\nworktree /w\nHEAD 1\n");
    assert_eq!(worktrees.len(), 1);
    assert_eq!(worktrees[0].path, "/w");
    // Lines before the first worktree say nothing of it.
    let worktrees = parse_worktree_list("HEAD 1\nbranch refs/heads/x\nworktree /w\n");
    assert!(worktrees.is_empty());
    // A branch outside refs/heads keeps its full name; the last one wins.
    let worktrees =
        parse_worktree_list("worktree /w\nHEAD 1\nbranch refs/heads/a\nbranch refs/tags/t");
    assert_eq!(worktrees[0].branch, Some("refs/tags/t".to_string()));
    // The branch of one worktree does not pass to the next.
    let worktrees =
        parse_worktree_list("worktree /a\nHEAD 1\nbranch refs/heads/a\nworktree /b\nHEAD 2\n");
    assert_eq!(worktrees[1].branch, None);
}

#[test]
fn worktree_names() {
    let worktree = Worktree {
        path: "/silos/repo-1234/feature".to_string(),
        branch: None,
    };
    assert_eq!(worktree.name(), "feature");
    assert_eq!(worktree.branch_name(), "(detached)");
    let root = Worktree {
        path: "/".to_string(),
        branch: Some("main".to_string()),
    };
    assert_eq!(root.name(), "unknown");
    assert_eq!(root.branch_name(), "main");
}

#[test]
fn run_git_results() {
    assert_eq!(run_git(&ok("out\n"), "Failed"), Ok("out\n".to_string()));
    assert_eq!(
        run_git(&failed("  fatal: no \n"), "Failed to list worktrees"),
        Err("Failed to list worktrees: fatal: no".to_string())
    );
    assert_eq!(
        run_git(&not_started(), "Failed"),
        Err("Failed to run git: No such file or directory (os error 2)".to_string())
    );
}

#[test]
fn run_git_verbose_shows_output() {
    let ran = Ok(CommandOutput {
        success: true,
        stdout: "done\n".to_string(),
        stderr: "progress\n".to_string(),
    });
    let (result, echo) = run_git_verbose(&ran, "Failed");
    assert_eq!(result, Ok("done\n".to_string()));
    assert_eq!(echo.to_stdout, Some("done\n".to_string()));
    assert_eq!(echo.to_stderr, Some("progress\n".to_string()));
    let ran = Ok(CommandOutput {
        success: false,
        stdout: " \n".to_string(),
        stderr: "fatal\n".to_string(),
    });
    let (result, echo) = run_git_verbose(&ran, "Failed");
    assert_eq!(result, Err("Failed: fatal".to_string()));
    assert_eq!(echo.to_stdout, None);
    assert_eq!(echo.to_stderr, None);
    let (result, echo) = run_git_verbose(&not_started(), "Failed");
    assert!(result.is_err());
    assert_eq!(echo.to_stdout, None);
    assert_eq!(echo.to_stderr, None);
}

#[test]
fn run_git_interactive_results() {
    assert_eq!(run_git_interactive(&Ok(true), "Failed to rebase"), Ok(()));
    assert_eq!(
        run_git_interactive(&Ok(false), "Failed to rebase"),
        Err("Failed to rebase".to_string())
    );
    assert_eq!(
        run_git_interactive(&Err("denied".to_string()), "Failed to rebase"),
        Err("Failed to run git: denied".to_string())
    );
}

#[test]
fn repo_root_and_name() {
    assert_eq!(repo_root_args(), vec!["rev-parse", "--show-toplevel"]);
    assert_eq!(try_get_repo_root(&ok("/home/me/repo\n")), Some("/home/me/repo".to_string()));
    assert_eq!(try_get_repo_root(&failed("fatal")), None);
    assert_eq!(try_get_repo_root(&not_started()), None);
    assert_eq!(get_repo_root(&ok(" /r \n")), Ok("/r".to_string()));
    assert_eq!(
        get_repo_root(&failed("fatal")),
        Err("Not in a git repository".to_string())
    );
    let root = Ok("/home/me/dir".to_string());
    assert_eq!(
        get_repo_name(&ok("git@github.com:user/repo.git\n"), &root),
        Ok("repo".to_string())
    );
    assert_eq!(get_repo_name(&failed("no remote"), &root), Ok("dir".to_string()));
    assert_eq!(
        get_repo_name(&failed("no remote"), &Ok("/".to_string())),
        Err("Could not determine repository name".to_string())
    );
    assert_eq!(
        get_repo_name(&failed("no remote"), &Err("Not in a git repository".to_string())),
        Err("Not in a git repository".to_string())
    );
    assert_eq!(
        get_repo_name(&not_started(), &root),
        Err("Failed to run git: No such file or directory (os error 2)".to_string())
    );
    let info = get_repo_info(Ok("/r".to_string()), Ok("repo".to_string())).unwrap();
    assert_eq!(info.main_worktree, "/r");
    assert_eq!(info.name, "repo");
    assert_eq!(
        get_repo_info(Err("a".to_string()), Err("b".to_string())).unwrap_err(),
        "a"
    );
    assert_eq!(
        get_repo_info(Ok("/r".to_string()), Err("b".to_string())).unwrap_err(),
        "b"
    );
}

#[test]
fn commands_are_spelled_out() {
    let cmd = create_worktree("/silos/r/f", "f", "/r");
    assert_eq!(cmd.dir, "/r");
    assert_eq!(cmd.args, vec!["worktree", "add", "-b", "f", "/silos/r/f"]);
    assert_eq!(cmd.mode, Mode::Quiet);
    assert_eq!(cmd.failure, "Failed to create worktree");
    assert_eq!(create_worktree_verbose("/silos/r/f", "f", "/r").mode, Mode::Verbose);
    assert_eq!(
        remove_worktree("/silos/r/f", "/r", false).args,
        vec!["worktree", "remove", "/silos/r/f"]
    );
    let cmd = remove_worktree_verbose("/silos/r/f", "/r", true);
    assert_eq!(cmd.args, vec!["worktree", "remove", "--force", "/silos/r/f"]);
    assert_eq!(cmd.mode, Mode::Verbose);
    assert_eq!(cmd.failure, "Failed to remove worktree");
    assert_eq!(delete_branch("/r", "f").args, vec!["branch", "-d", "f"]);
    assert_eq!(delete_branch_verbose("/r", "f").mode, Mode::Verbose);
    assert_eq!(delete_branch("/r", "f").failure, "Failed to delete branch");
    assert_eq!(rebase_onto("/w", "main").args, vec!["rebase", "main"]);
    assert_eq!(rebase_onto_interactive("/w", "main").mode, Mode::Interactive);
    assert_eq!(rebase_onto("/w", "main").failure, "Failed to rebase");
    assert_eq!(merge_branch("/w", "f").args, vec!["merge", "f"]);
    assert_eq!(merge_branch_interactive("/w", "f").mode, Mode::Interactive);
    assert_eq!(merge_branch("/w", "f").failure, "Failed to merge");
    assert_eq!(
        list_worktrees_command("/r").args,
        vec!["worktree", "list", "--porcelain"]
    );
    assert_eq!(
        ahead_behind_command("/w", "f", "main").args,
        vec!["rev-list", "--left-right", "--count", "main...f"]
    );
    assert_eq!(
        diff_stats_command("/w", "f", "main").args,
        vec!["diff", "--numstat", "main...f"]
    );
    assert_eq!(status_command("/w").args, vec!["status", "--porcelain"]);
    assert_eq!(status_command("/w").dir, "/w");
    assert_eq!(
        merged_command("/r", "f", "main").args,
        vec!["merge-base", "--is-ancestor", "f", "main"]
    );
}

#[test]
fn list_worktrees_reads_or_fails() {
    let listed = list_worktrees(&ok("worktree /r\nHEAD 1\nbranch refs/heads/main\n")).unwrap();
    assert_eq!(listed.len(), 1);
    assert_eq!(listed[0].path, "/r");
    assert_eq!(
        list_worktrees(&failed("fatal: not a repository")).unwrap_err(),
        "Failed to list worktrees: fatal: not a repository"
    );
}

#[test]
fn ahead_behind_counts() {
    assert_eq!(get_ahead_behind(&ok("3\t5\n")), (5, 3));
    assert_eq!(get_ahead_behind(&ok("0\t0")), (0, 0));
    assert_eq!(get_ahead_behind(&ok("x\t5\n")), (5, 0));
    assert_eq!(get_ahead_behind(&ok("3\t5\t7\n")), (0, 0));
    assert_eq!(get_ahead_behind(&ok("3 5\n")), (0, 0));
    assert_eq!(get_ahead_behind(&ok("")), (0, 0));
    assert_eq!(get_ahead_behind(&failed("fatal")), (0, 0));
    assert_eq!(get_ahead_behind(&not_started()), (0, 0));
}

#[test]
fn diff_stats_sums() {
    assert_eq!(get_diff_stats(&ok("10\t2\tsrc/a.rs\n3\t4\tsrc/b.rs\n")), (13, 6));
    assert_eq!(get_diff_stats(&ok("-\t-\timage.png\n1\t1\ta\n")), (1, 1));
    assert_eq!(get_diff_stats(&ok("junk\n")), (0, 0));
    assert_eq!(get_diff_stats(&ok("")), (0, 0));
    assert_eq!(get_diff_stats(&failed("fatal")), (0, 0));
    assert_eq!(get_diff_stats(&not_started()), (0, 0));
    assert_eq!(
        get_diff_stats(&ok("4294967295\t1\ta\n5\t4294967295\tb\n")),
        (4294967295, 4294967295)
    );
}

#[test]
fn worktree_cleanliness() {
    assert!(is_worktree_clean(&ok("")));
    assert!(!is_worktree_clean(&ok(" M file\n")));
    assert!(!is_worktree_clean(&failed("")));
    assert!(!is_worktree_clean(&not_started()));
}

#[test]
fn uncommitted_stats_by_kind() {
    let stats = get_uncommitted_stats(&ok("M  staged.rs\n M modified.rs\n?? new.rs\nA  added.rs\nMM both.rs\n"));
    assert_eq!(stats.staged, 3);
    assert_eq!(stats.modified, 1);
    assert_eq!(stats.untracked, 1);
    assert_eq!(stats.total(), 5);
    assert!(!stats.is_clean());
    let stats = get_uncommitted_stats(&ok(""));
    assert!(stats.is_clean());
    assert_eq!(stats.total(), 0);
    let stats = get_uncommitted_stats(&ok("x\n\n  \n"));
    assert!(stats.is_clean());
    assert!(get_uncommitted_stats(&failed("fatal")).is_clean());
    assert!(get_uncommitted_stats(&not_started()).is_clean());
    let full = UncommittedStats {
        staged: u32::MAX,
        modified: 1,
        untracked: 1,
    };
    assert_eq!(full.total(), u32::MAX);
    assert!(UncommittedStats::default().is_clean());
}

#[test]
fn uncommitted_files_by_name() {
    assert_eq!(
        get_uncommitted_files(&ok(" M src/a.rs\n?? b.txt\nR  old.rs -> new.rs\nxy\n")),
        vec!["src/a.rs", "b.txt", "new.rs"]
    );
    assert!(get_uncommitted_files(&ok("")).is_empty());
    assert!(get_uncommitted_files(&failed("fatal")).is_empty());
    assert!(get_uncommitted_files(&not_started()).is_empty());
    assert_eq!(get_uncommitted_files(&ok("?? \n")), vec![""]);
}

#[test]
fn branch_cleanup() {
    assert!(is_branch_merged(&ok("")));
    assert!(!is_branch_merged(&failed("")));
    assert!(!is_branch_merged(&not_started()));
    let (result, follow_up) = cleanup_branch("/r", "f", &ok(""));
    assert!(result.was_merged);
    let cmd = follow_up.unwrap();
    assert_eq!(cmd.args, vec!["branch", "-d", "f"]);
    assert_eq!(cmd.mode, Mode::Quiet);
    let (result, follow_up) = cleanup_branch_verbose("/r", "f", &ok(""));
    assert!(result.was_merged);
    assert_eq!(follow_up.unwrap().mode, Mode::Verbose);
    let (result, follow_up) = cleanup_branch("/r", "f", &failed(""));
    assert!(!result.was_merged);
    assert!(follow_up.is_none());
}

#[test]
fn main_worktree_from_the_git_file() {
    assert_eq!(
        get_main_worktree_from_silo("gitdir: /main/repo/.git/worktrees/branch\n"),
        Some("/main/repo".to_string())
    );
    assert_eq!(get_main_worktree_from_silo("/main/repo/.git/worktrees/branch"), None);
    assert_eq!(get_main_worktree_from_silo("gitdir: /a/b\n"), None);
    assert_eq!(get_main_worktree_from_silo("gitdir: /a/b/c\n"), Some("/".to_string()));
    assert_eq!(get_main_worktree_from_silo(""), None);
}

fn reference_stats(stdout: &str) -> (u32, u32, u32) {
    let mut stats = (0u32, 0u32, 0u32);
    for line in stdout.lines() {
        if line.len() < 2 {
            continue;
        }
        let index_status = line.chars().next().unwrap_or(' ');
        let worktree_status = line.chars().nth(1).unwrap_or(' ');
        if index_status != ' ' && index_status != '?' {
            stats.0 += 1;
        } else if worktree_status != ' ' && worktree_status != '?' {
            stats.1 += 1;
        } else if index_status == '?' {
            stats.2 += 1;
        }
    }
    stats
}

fn reference_files(stdout: &str) -> Vec<String> {
    let mut files = Vec::new();
    for line in stdout.lines() {
        if line.len() < 3 || !line.is_char_boundary(3) {
            continue;
        }
        let filename = &line[3..];
        let filename = filename.split(" -> ").last().unwrap_or(filename);
        files.push(filename.to_string());
    }
    files
}

#[test]
fn status_reports_agree_with_the_reference() {
    let reports = [
        "",
        "\n",
        " M a\n?? b\nA  c\n",
        "é\n?é x\n é y\n??\né\u{e9}z\n",
        "x\n?\n \n",
        "日本語\n?? 日本語.txt\nR  old -> new -> newer\n",
        "M  a -> -> b\r\nD  gone\r\n",
        "ab\nabc\nab \n",
        "?日x\n",
    ];
    for report in reports {
        let stats = get_uncommitted_stats(&ok(report));
        assert_eq!(
            (stats.staged, stats.modified, stats.untracked),
            reference_stats(report),
            "{:?}",
            report
        );
        assert_eq!(get_uncommitted_files(&ok(report)), reference_files(report), "{:?}", report);
    }
}
