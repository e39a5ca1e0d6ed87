use silo::git::UncommittedStats;
use silo::listing::{
    format_process_count, format_suffix, format_uncommitted_short,
    format_uncommitted_with_files, group_by_repo, order_by_ahead, plain_suffix, quiet_lines, run,
    run_all, run_repo, RepoGroup, SiloDisplayInfo,
};
use silo::order::{order_by_text, order_largest_first, str_lt};
use silo::silo::{RepoId, Silo};

fn row(name: &str, branch: &str, counts: [u32; 4], changed: u32, processes: usize) -> SiloDisplayInfo {
    SiloDisplayInfo {
        display_name: name.to_string(),
        branch: branch.to_string(),
        ahead: counts[0],
        behind: counts[1],
        added: counts[2],
        removed: counts[3],
        uncommitted: UncommittedStats { staged: 0, modified: changed, untracked: 0 },
        files: (0..changed).map(|i| format!("file{}.rs", i)).collect(),
        process_count: processes,
        is_current: processes == 2,
    }
}

fn green(value: u32, color: bool) -> String {
    if color {
        format!("\x1b[32m+{}\x1b[0m", value)
    } else {
        format!("+{}", value)
    }
}

fn red(value: u32, color: bool) -> String {
    if color {
        format!("\x1b[31m-{}\x1b[0m", value)
    } else {
        format!("-{}", value)
    }
}

fn expected_short(info: &SiloDisplayInfo, color: bool) -> String {
    if info.uncommitted.is_clean() {
        return String::new();
    }
    let total = info.uncommitted.total();
    let count = if color {
        format!("\x1b[33m~{}\x1b[0m", total)
    } else {
        format!("~{}", total)
    };
    let list = if info.files.len() <= 3 {
        info.files.join(", ")
    } else {
        format!("{}, +{} more", info.files[..3].join(", "), info.files.len() - 3)
    };
    format!("{} files: {}", count, list)
}

fn expected_long(info: &SiloDisplayInfo, color: bool) -> String {
    if info.uncommitted.is_clean() {
        return String::new();
    }
    let total = info.uncommitted.total();
    let count = if color {
        format!("\x1b[33m~{}\x1b[0m", total)
    } else {
        format!("~{}", total)
    };
    let list = if info.files.len() <= 3 {
        info.files.join(", ")
    } else {
        format!("{}, ... and {} more", info.files[..3].join(", "), info.files.len() - 3)
    };
    format!(", {} uncommitted files: {}", count, list)
}

fn expected_processes(count: usize, color: bool) -> String {
    if count == 0 {
        return String::new();
    }
    let label = if count == 1 { "process" } else { "processes" };
    let count_str = if color {
        format!("\x1b[1;35m{}\x1b[0m", count)
    } else {
        count.to_string()
    };
    format!("{} {}", count_str, label)
}

fn expected_table_line(info: &SiloDisplayInfo, nw: usize, bw: usize, color: bool) -> String {
    let marker = if info.is_current { "*" } else { " " };
    let commits = format!("{} {}", green(info.ahead, color), red(info.behind, color));
    let lines = format!("{} {}", green(info.added, color), red(info.removed, color));
    let uncommitted = expected_short(info, color);
    let process = expected_processes(info.process_count, color);
    let suffix = match (uncommitted.is_empty(), process.is_empty()) {
        (true, true) => String::new(),
        (true, false) => process.to_string(),
        (false, true) => uncommitted.to_string(),
        (false, false) => format!("{}, {}", uncommitted, process),
    };
    let commits_visible = format!("+{} -{}", info.ahead, info.behind);
    let lines_visible = format!("+{} -{}", info.added, info.removed);
    let cp = 12_usize.saturating_sub(commits_visible.len());
    let lp = 14_usize.saturating_sub(lines_visible.len());
    format!(
        "{} {:<nw$}  {:<bw$}  {:>cp$}{}  {:>lp$}{}  {}",
        marker,
        info.display_name,
        info.branch,
        "",
        commits,
        "",
        lines,
        suffix,
        nw = nw,
        bw = bw,
        cp = cp,
        lp = lp,
    )
}

fn expected_plain_line(info: &SiloDisplayInfo, color: bool) -> String {
    let marker = if info.is_current { "*" } else { " " };
    let uncommitted = expected_long(info, color);
    let process = expected_processes(info.process_count, color);
    let suffix = match (uncommitted.is_empty(), process.is_empty()) {
        (true, true) => String::new(),
        (true, false) => format!(", {}", process),
        (false, true) => uncommitted,
        (false, false) => format!("{}, {}", uncommitted, process),
    };
    format!(
        "{} {} ({})  {} {} commits, {} {} lines{}",
        marker,
        info.display_name,
        info.branch,
        green(info.ahead, color),
        red(info.behind, color),
        green(info.added, color),
        red(info.removed, color),
        suffix
    )
}

fn expected_header(nw: usize, bw: usize) -> String {
    format!(
        "  {:<nw$}  {:<bw$}  {:>12}  {:>14}  UNCOMMITTED",
        "NAME",
        "BRANCH",
        "COMMITS",
        "LINES",
        nw = nw,
        bw = bw
    )
}

fn expected_repo(main_branch: &str, current: bool, rows: &[SiloDisplayInfo], color: bool, tty: bool) -> Vec<String> {
    let mut sorted: Vec<SiloDisplayInfo> = rows.to_vec();
    sorted.sort_by(|a, b| b.ahead.cmp(&a.ahead));
    let mut out = Vec::new();
    let marker = if current { "*" } else { " " };
    if tty {
        let nw = sorted
            .iter()
            .map(|s| s.display_name.len())
            .chain(std::iter::once(main_branch.len()))
            .max()
            .unwrap_or(4)
            .max(4);
        let bw = sorted
            .iter()
            .map(|s| s.branch.len())
            .chain(std::iter::once(main_branch.len()))
            .max()
            .unwrap_or(6)
            .max(6);
        out.push(expected_header(nw, bw));
        out.push(format!(
            "{} {:<nw$}  {:<bw$}  (main)",
            marker,
            main_branch,
            main_branch,
            nw = nw,
            bw = bw
        ));
        for info in &sorted {
            out.push(expected_table_line(info, nw, bw, color));
        }
    } else {
        out.push(format!("{} {} ({})  (main)", marker, main_branch, main_branch));
        for info in &sorted {
            out.push(expected_plain_line(info, color));
        }
    }
    out
}

fn samples() -> Vec<SiloDisplayInfo> {
    vec![
        row("feature", "feature", [2, 0, 10, 3], 0, 0),
        row("a-much-longer-silo-name", "topic/with/slashes", [15, 120, 4000, 12345], 2, 1),
        row("wip", "(detached)", [2, 1, 0, 0], 5, 2),
        row("zürich", "grüße", [0, 0, 4294967295, 4294967295], 0, 3),
        row("late", "late", [15, 0, 1, 1], 4, 0),
    ]
}

#[test]
fn repo_listing_agrees_with_the_format() {
    for main in ["main", "a-rather-long-main-branch-name", "m"] {
        for current in [false, true] {
            for color in [false, true] {
                for tty in [false, true] {
                    assert_eq!(
                        run_repo(main, current, &samples(), color, tty),
                        expected_repo(main, current, &samples(), color, tty)
                    );
                    assert_eq!(
                        run_repo(main, current, &Vec::new(), color, tty),
                        expected_repo(main, current, &[], color, tty)
                    );
                }
            }
        }
    }
}

#[test]
fn repo_listing_exact() {
    let rows = vec![row("f", "f", [1, 2, 3, 4], 0, 0), row("g", "topic", [5, 0, 0, 0], 1, 1)];
    assert_eq!(
        run_repo("main", true, &rows, false, true),
        vec![
            "  NAME  BRANCH       COMMITS           LINES  UNCOMMITTED",
            "* main  main    (main)",
            "  g     topic          +5 -0           +0 -0  ~1 files: file0.rs, 1 process",
            "  f     f              +1 -2           +3 -4  ",
        ]
    );
    assert_eq!(
        run_repo("main", false, &rows, false, false),
        vec![
            "  main (main)  (main)",
            "  g (topic)  +5 -0 commits, +0 -0 lines, ~1 uncommitted files: file0.rs, 1 process",
            "  f (f)  +1 -2 commits, +3 -4 lines",
        ]
    );
}

#[test]
fn order_is_by_commits_ahead_and_stable() {
    let rows = samples();
    assert_eq!(order_by_ahead(&rows), vec![1, 4, 0, 2, 3]);
    assert!(order_by_ahead(&Vec::new()).is_empty());
}

#[test]
fn suffixes() {
    assert_eq!(format_suffix("", ""), "");
    assert_eq!(format_suffix("", "1 process"), "1 process");
    assert_eq!(format_suffix("~1 files: a", ""), "~1 files: a");
    assert_eq!(format_suffix("~1 files: a", "1 process"), "~1 files: a, 1 process");
    assert_eq!(plain_suffix("", ""), "");
    assert_eq!(plain_suffix("", "1 process"), ", 1 process");
    assert_eq!(plain_suffix(", ~1 uncommitted files: a", ""), ", ~1 uncommitted files: a");
    assert_eq!(
        plain_suffix(", ~1 uncommitted files: a", "2 processes"),
        ", ~1 uncommitted files: a, 2 processes"
    );
}

#[test]
fn uncommitted_and_processes() {
    for changed in [0u32, 1, 3, 4, 10] {
        for color in [false, true] {
            let info = row("x", "x", [0, 0, 0, 0], changed, 0);
            assert_eq!(
                format_uncommitted_short(&info.uncommitted, &info.files, color),
                expected_short(&info, color)
            );
            assert_eq!(
                format_uncommitted_with_files(&info.uncommitted, &info.files, color),
                expected_long(&info, color)
            );
        }
    }
    let info = row("x", "x", [0, 0, 0, 0], 5, 0);
    assert_eq!(
        format_uncommitted_short(&info.uncommitted, &info.files, false),
        "~5 files: file0.rs, file1.rs, file2.rs, +2 more"
    );
    assert_eq!(
        format_uncommitted_with_files(&info.uncommitted, &info.files, false),
        ", ~5 uncommitted files: file0.rs, file1.rs, file2.rs, ... and 2 more"
    );
    for count in [0usize, 1, 2, 17] {
        for color in [false, true] {
            assert_eq!(format_process_count(count, color), expected_processes(count, color));
        }
    }
    assert_eq!(format_process_count(1, false), "1 process");
    assert_eq!(format_process_count(2, true), "\x1b[1;35m2\x1b[0m processes");
}

fn silo_in(repo_path: &str, repo_name: &str, name: &str) -> Silo {
    Silo {
        name: name.to_string(),
        branch: Some(name.to_string()),
        main_worktree: RepoId::new(repo_path.to_string()),
        storage_path: format!("/silos/{}/{}", repo_name, name),
        repo_name: repo_name.to_string(),
    }
}

#[test]
fn silos_are_grouped_by_repository() {
    let silos = vec![
        silo_in("/p/zeta", "zeta", "a"),
        silo_in("/p/alpha", "alpha", "b"),
        silo_in("/p/zeta", "zeta", "c"),
        silo_in("/q/alpha", "alpha", "d"),
        silo_in("/p/alpha", "alpha", "e"),
        silo_in("/p/Beta", "Beta", "f"),
    ];
    assert_eq!(
        group_by_repo(&silos),
        vec![vec![5], vec![1, 4], vec![3], vec![0, 2]]
    );
    assert!(group_by_repo(&[]).is_empty());
    assert_eq!(
        quiet_lines(&silos, true),
        vec!["zeta/a", "alpha/b", "zeta/c", "alpha/d", "alpha/e", "Beta/f"]
    );
    assert_eq!(quiet_lines(&silos, false), vec!["a", "b", "c", "d", "e", "f"]);
}

#[test]
fn orders_agree_with_std() {
    let numbers: Vec<u32> = vec![3, 9, 3, 0, 9, 1, 4294967295, 3];
    let mut expected: Vec<usize> = (0..numbers.len()).collect();
    expected.sort_by(|a, b| numbers[*b].cmp(&numbers[*a]));
    assert_eq!(order_largest_first(&numbers), expected);
    let texts: Vec<String> = ["b", "a", "", "ab", "a", "B", "é", "zz", "z", "a"]
        .iter()
        .map(|s| s.to_string())
        .collect();
    let mut expected: Vec<usize> = (0..texts.len()).collect();
    expected.sort_by(|a, b| texts[*a].cmp(&texts[*b]));
    assert_eq!(order_by_text(&texts), expected);
    assert!(order_by_text(&Vec::new()).is_empty());
}

#[test]
fn string_order_agrees_with_std() {
    let samples = ["", "a", "b", "ab", "abc", "B", "é", "z", "zz", "Zürich", "10", "9", "日本"];
    for a in samples {
        for b in samples {
            assert_eq!(str_lt(a, b), a < b, "{:?} < {:?}", a, b);
        }
    }
}

fn expected_all(groups: &[RepoGroup], color: bool, tty: bool) -> Vec<String> {
    let mut out = Vec::new();
    let (nw, bw) = if tty {
        let nw = groups
            .iter()
            .flat_map(|g| {
                let main_name_len = g.repo_name.len() + 1 + g.repo_name.len();
                g.rows
                    .iter()
                    .map(|s| s.display_name.len())
                    .chain(std::iter::once(main_name_len))
            })
            .max()
            .unwrap_or(4)
            .max(4);
        let bw = groups
            .iter()
            .flat_map(|g| g.rows.iter().map(|s| s.branch.len()))
            .max()
            .unwrap_or(6)
            .max(6);
        (nw, bw)
    } else {
        (0, 0)
    };
    if tty {
        out.push(expected_header(nw, bw));
    }
    let mut first = true;
    for group in groups {
        if !first {
            out.push(String::new());
        }
        first = false;
        let mut sorted: Vec<SiloDisplayInfo> = group.rows.clone();
        sorted.sort_by(|a, b| b.ahead.cmp(&a.ahead));
        let marker = if group.current_main { "*" } else { " " };
        let main_display_name = format!("{}/{}", group.repo_name, group.main_branch);
        if tty {
            out.push(format!(
                "{} {:<nw$}  {:<bw$}  {}",
                marker,
                main_display_name,
                group.main_branch,
                group.main_worktree,
                nw = nw,
                bw = bw
            ));
            for info in &sorted {
                out.push(expected_table_line(info, nw, bw, color));
            }
        } else {
            out.push(format!(
                "{} {} ({})  {}",
                marker, main_display_name, group.main_branch, group.main_worktree
            ));
            for info in &sorted {
                out.push(expected_plain_line(info, color));
            }
        }
    }
    out
}

fn groups() -> Vec<RepoGroup> {
    vec![
        RepoGroup {
            repo_name: "alpha".to_string(),
            main_worktree: "/p/alpha".to_string(),
            main_branch: "main".to_string(),
            current_main: false,
            rows: vec![
                row("alpha/b", "b", [0, 1, 2, 3], 1, 0),
                row("alpha/e", "(detached)", [7, 0, 0, 0], 0, 2),
            ],
        },
        RepoGroup {
            repo_name: "a-very-long-repository-name".to_string(),
            main_worktree: "/q/a-very-long-repository-name".to_string(),
            main_branch: "trunk".to_string(),
            current_main: true,
            rows: vec![row("a-very-long-repository-name/x", "x", [1, 1, 1, 1], 0, 0)],
        },
    ]
}

#[test]
fn all_listing_agrees_with_the_format() {
    for color in [false, true] {
        for tty in [false, true] {
            assert_eq!(run_all(&groups(), color, tty), expected_all(&groups(), color, tty));
            assert_eq!(run_all(&Vec::new(), color, tty), expected_all(&[], color, tty));
        }
    }
    assert!(run(true, true));
    assert!(run(false, false));
    assert!(!run(false, true));
}
