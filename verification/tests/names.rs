use silo::names::{
    build_display_name, generate_display_names, hex_prefix, matches_suffix, path_hash,
    repo_storage_name,
    resolve_name, silo_storage_path, ResolveResult,
};
use silo::paths::path_components;
use silo::silo::{RepoId, Silo};

fn make_silo(repo_path: &str, repo_name: &str, silo_name: &str) -> Silo {
    Silo {
        name: silo_name.to_string(),
        branch: Some(silo_name.to_string()),
        main_worktree: RepoId::new(repo_path.to_string()),
        storage_path: format!(
            "/silos/{}-{}/{}",
            repo_name,
            &path_hash(repo_path)[..4],
            silo_name
        ),
        repo_name: repo_name.to_string(),
    }
}

fn strings(items: &[&str]) -> Vec<String> {
    items.iter().map(|s| s.to_string()).collect()
}

#[test]
fn test_path_hash_consistent() {
    let path = "/Users/me/projects/repo";
    let hash1 = path_hash(path);
    let hash2 = path_hash(path);
    assert_eq!(hash1, hash2);
    assert_eq!(hash1.len(), 8);
}

#[test]
fn test_path_hash_different_for_different_paths() {
    let hash1 = path_hash("/dir1/repo");
    let hash2 = path_hash("/dir2/repo");
    assert_ne!(hash1, hash2);
}

#[test]
fn path_hash_is_the_head_of_sha256_in_hex() {
    // SHA-256 of the empty input starts with e3 b0 c4 42.
    assert_eq!(path_hash(""), "e3b0c442");
    // SHA-256 of "abc" starts with ba 78 16 bf.
    assert_eq!(path_hash("abc"), "ba7816bf");
}

#[test]
fn hex_prefix_of_given_bytes() {
    assert_eq!(hex_prefix(&[0xe3, 0xb0, 0xc4, 0x42, 0x98], 4), "e3b0c442");
    assert_eq!(hex_prefix(&[0x00, 0x0f, 0xf0, 0xff], 4), "000ff0ff");
    assert_eq!(hex_prefix(&[0xab], 4), "ab");
    assert_eq!(hex_prefix(&[0xab, 0xcd], 0), "");
    assert_eq!(hex_prefix(&[], 4), "");
}

#[test]
fn path_hash_takes_the_path_as_given() {
    assert_ne!(path_hash("/a/b"), path_hash("/a/b/"));
}

#[test]
fn repo_storage_name_appends_the_hash() {
    assert_eq!(repo_storage_name("repo", "abc"), "repo-ba7816bf");
}

#[test]
fn test_silo_storage_path() {
    let path = silo_storage_path("/silos", "repo", "/Users/me/repo", "feature");
    assert!(path.starts_with("/silos/repo-"), "path was: {}", path);
    assert!(path.ends_with("/feature"), "path was: {}", path);
}

#[test]
fn silo_storage_path_exact() {
    assert_eq!(
        silo_storage_path("/silos", "repo", "abc", "feature"),
        "/silos/repo-ba7816bf/feature"
    );
    assert_eq!(
        silo_storage_path("/silos/", "repo", "abc", "feature"),
        "/silos/repo-ba7816bf/feature"
    );
}

#[test]
fn test_path_components() {
    let components = path_components("/a/b/c/repo");
    assert_eq!(components, vec!["repo", "c", "b", "a"]);
}

#[test]
fn path_components_edge_cases() {
    assert!(path_components("").is_empty());
    assert!(path_components("/").is_empty());
    assert_eq!(path_components("/a//b/"), vec!["b", "a"]);
    assert_eq!(path_components("/a/./b"), vec!["b", "a"]);
    assert_eq!(path_components("/x/../a/b"), vec!["b", "a"]);
    assert!(path_components("/a/..").is_empty());
    assert_eq!(path_components("./a"), vec!["a"]);
}

#[test]
fn build_display_name_by_depth() {
    let chain = strings(&["repoA", "projects"]);
    assert_eq!(build_display_name("feature", &chain, 0), "feature");
    assert_eq!(build_display_name("feature", &chain, 1), "repoA/feature");
    assert_eq!(build_display_name("feature", &chain, 2), "projects/repoA/feature");
    assert_eq!(build_display_name("feature", &chain, 9), "projects/repoA/feature");
    assert_eq!(build_display_name("feature", &Vec::new(), 1), "feature");
}

#[test]
fn test_display_names_unique_branches() {
    let silos = vec![
        make_silo("/projects/repoA", "repoA", "feature1"),
        make_silo("/projects/repoA", "repoA", "feature2"),
    ];
    let names = generate_display_names(&silos, false);
    assert_eq!(names, vec!["feature1", "feature2"]);
}

#[test]
fn test_display_names_same_branch_different_repos() {
    let silos = vec![
        make_silo("/projects/repoA", "repoA", "feature"),
        make_silo("/projects/repoB", "repoB", "feature"),
    ];
    let names = generate_display_names(&silos, false);
    assert_eq!(names, vec!["repoA/feature", "repoB/feature"]);
}

#[test]
fn test_display_names_same_repo_name_different_paths() {
    let silos = vec![
        make_silo("/org1/repo", "repo", "feature"),
        make_silo("/org2/repo", "repo", "feature"),
    ];
    let names = generate_display_names(&silos, false);
    assert_eq!(names, vec!["org1/repo/feature", "org2/repo/feature"]);
}

#[test]
fn test_display_names_mixed_uniqueness() {
    let silos = vec![
        make_silo("/projects/repoA", "repoA", "main"),
        make_silo("/projects/repoA", "repoA", "feature"),
        make_silo("/projects/repoB", "repoB", "feature"),
    ];
    let names = generate_display_names(&silos, false);
    assert_eq!(names, vec!["main", "repoA/feature", "repoB/feature"]);
}

#[test]
fn test_display_names_require_repo_prefix() {
    let silos = vec![
        make_silo("/projects/repoA", "repoA", "feature1"),
        make_silo("/projects/repoA", "repoA", "feature2"),
    ];
    let names = generate_display_names(&silos, true);
    assert_eq!(names, vec!["repoA/feature1", "repoA/feature2"]);
}

#[test]
fn test_display_names_require_repo_prefix_with_duplicates() {
    let silos = vec![
        make_silo("/org1/repo", "repo", "feature"),
        make_silo("/org2/repo", "repo", "feature"),
    ];
    let names = generate_display_names(&silos, true);
    assert_eq!(names, vec!["org1/repo/feature", "org2/repo/feature"]);
}

#[test]
fn test_display_names_require_repo_prefix_mixed() {
    let silos = vec![
        make_silo("/projects/repoA", "repoA", "main"),
        make_silo("/org1/repo", "repo", "feature"),
        make_silo("/org2/repo", "repo", "feature"),
    ];
    let names = generate_display_names(&silos, true);
    assert_eq!(
        names,
        vec!["repoA/main", "org1/repo/feature", "org2/repo/feature"]
    );
}

#[test]
fn test_resolve_simple_name() {
    let silos = vec![
        make_silo("/projects/repoA", "repoA", "feature1"),
        make_silo("/projects/repoA", "repoA", "feature2"),
    ];
    let result = resolve_name("feature1", &silos, None);
    assert!(matches!(result, ResolveResult::Found(s) if s.name == "feature1"));
}

#[test]
fn test_resolve_current_repo_priority() {
    let silos = vec![
        make_silo("/projects/repoA", "repoA", "feature"),
        make_silo("/projects/repoB", "repoB", "feature"),
    ];
    let current = RepoId::new("/projects/repoA".to_string());
    let result = resolve_name("feature", &silos, Some(current));
    assert!(matches!(result, ResolveResult::Found(s) if s.main_worktree.as_str() == "/projects/repoA"));
}

#[test]
fn test_resolve_qualified_name() {
    let silos = vec![
        make_silo("/projects/repoA", "repoA", "feature"),
        make_silo("/projects/repoB", "repoB", "feature"),
    ];
    let result = resolve_name("repoB/feature", &silos, None);
    assert!(matches!(result, ResolveResult::Found(s) if s.main_worktree.as_str() == "/projects/repoB"));
}

#[test]
fn test_resolve_ambiguous_without_current_repo() {
    let silos = vec![
        make_silo("/projects/repoA", "repoA", "feature"),
        make_silo("/projects/repoB", "repoB", "feature"),
    ];
    let result = resolve_name("feature", &silos, None);
    assert!(matches!(result, ResolveResult::Ambiguous(v) if v.len() == 2));
}

#[test]
fn test_resolve_not_found() {
    let silos = vec![make_silo("/projects/repoA", "repoA", "feature")];
    let result = resolve_name("nonexistent", &silos, None);
    assert!(matches!(result, ResolveResult::NotFound));
}

#[test]
fn test_resolve_deeply_qualified() {
    let silos = vec![
        make_silo("/org1/repo", "repo", "feature"),
        make_silo("/org2/repo", "repo", "feature"),
    ];
    let result = resolve_name("org2/repo/feature", &silos, None);
    assert!(matches!(result, ResolveResult::Found(s) if s.main_worktree.as_str() == "/org2/repo"));
}

#[test]
fn test_display_names_deep_path_difference() {
    let silos = vec![
        make_silo("/workspace/org1/system/repo", "repo", "feature"),
        make_silo("/workspace/org2/system/repo", "repo", "feature"),
    ];
    let names = generate_display_names(&silos, false);
    assert_eq!(
        names,
        vec!["org1/system/repo/feature", "org2/system/repo/feature"]
    );
}

#[test]
fn test_display_names_very_deep_path_difference() {
    let silos = vec![
        make_silo("/root/a/b/c/d/e/repo", "repo", "silo"),
        make_silo("/root/x/b/c/d/e/repo", "repo", "silo"),
    ];
    let names = generate_display_names(&silos, false);
    assert_eq!(names, vec!["a/b/c/d/e/repo/silo", "x/b/c/d/e/repo/silo"]);
}

#[test]
fn test_display_names_difference_at_root() {
    let silos = vec![
        make_silo("/alpha/shared/path/to/repo", "repo", "feature"),
        make_silo("/beta/shared/path/to/repo", "repo", "feature"),
    ];
    let names = generate_display_names(&silos, false);
    assert_eq!(
        names,
        vec![
            "alpha/shared/path/to/repo/feature",
            "beta/shared/path/to/repo/feature"
        ]
    );
}

#[test]
fn test_display_names_partial_path_overlap() {
    let silos = vec![
        make_silo("/workspace/team1/project/repo", "repo", "main"),
        make_silo("/workspace/team1/other/repo", "repo", "main"),
        make_silo("/workspace/team2/project/repo", "repo", "main"),
    ];
    let names = generate_display_names(&silos, false);
    assert_eq!(
        names,
        vec![
            "team1/project/repo/main",
            "other/repo/main",
            "team2/project/repo/main"
        ]
    );
}

#[test]
fn display_names_of_no_silos() {
    let silos: Vec<Silo> = Vec::new();
    assert!(generate_display_names(&silos, false).is_empty());
    assert!(generate_display_names(&silos, true).is_empty());
}

#[test]
fn display_names_deep_escalation_from_chains() {
    // The chains differ only at the sixth level up.
    let silos = vec![
        make_silo("/repo/e/d/c/b/a", "a", "leaf"),
        make_silo("/repo/e/d/c/b/x", "x", "leaf"),
    ];
    assert_eq!(
        path_components("/repo/e/d/c/b/a"),
        vec!["a", "b", "c", "d", "e", "repo"]
    );
    let names = generate_display_names(&silos, false);
    assert_eq!(names, vec!["a/leaf", "x/leaf"]);
    let silos = vec![
        make_silo("/a/e/d/c/b/repo", "repo", "leaf"),
        make_silo("/x/e/d/c/b/repo", "repo", "leaf"),
    ];
    let names = generate_display_names(&silos, false);
    assert_eq!(names, vec!["a/e/d/c/b/repo/leaf", "x/e/d/c/b/repo/leaf"]);
}

#[test]
fn display_names_true_duplicates_end_equal() {
    let silos = vec![
        make_silo("/projects/repoA", "repoA", "feature"),
        make_silo("/projects/repoA", "repoA", "feature"),
    ];
    let names = generate_display_names(&silos, false);
    assert_eq!(names, vec!["projects/repoA/feature", "projects/repoA/feature"]);
}

#[test]
fn display_names_are_distinct_for_distinct_silos() {
    let silos = vec![
        make_silo("/w/a/repo", "repo", "x"),
        make_silo("/w/b/repo", "repo", "x"),
        make_silo("/w/b/repo", "repo", "y"),
        make_silo("/w/c/other", "other", "y"),
    ];
    for flag in [false, true] {
        let names = generate_display_names(&silos, flag);
        assert_eq!(names.len(), silos.len());
        for i in 0..names.len() {
            for j in (i + 1)..names.len() {
                assert_ne!(names[i], names[j]);
            }
        }
    }
}

#[test]
fn display_names_all_hold_a_slash_with_prefix() {
    let silos = vec![
        make_silo("/projects/repoA", "repoA", "one"),
        make_silo("/projects/repoB", "repoB", "two"),
    ];
    let bare = generate_display_names(&silos, false);
    assert_eq!(bare, vec!["one", "two"]);
    let prefixed = generate_display_names(&silos, true);
    assert!(prefixed.iter().all(|n| n.contains('/')));
    // A repository at the root has no component to show.
    let rootless = vec![make_silo("/", "", "one")];
    assert_eq!(generate_display_names(&rootless, true), vec!["one"]);
}

#[test]
fn display_names_are_the_same_on_every_call() {
    let silos = vec![
        make_silo("/org1/repo", "repo", "feature"),
        make_silo("/org2/repo", "repo", "feature"),
    ];
    assert_eq!(
        generate_display_names(&silos, false),
        generate_display_names(&silos, false)
    );
}

#[test]
fn matches_suffix_by_components() {
    let name = "org/repoA/feature";
    assert!(matches_suffix(name, &strings(&["feature"])));
    assert!(matches_suffix(name, &strings(&["repoA", "feature"])));
    assert!(matches_suffix(name, &strings(&["org", "repoA", "feature"])));
    assert!(!matches_suffix(name, &strings(&["repo", "feature"])));
    assert!(!matches_suffix(name, &strings(&["A", "feature"])));
    assert!(!matches_suffix(name, &strings(&["x", "org", "repoA", "feature"])));
}

#[test]
fn resolve_exact_match() {
    let silos = vec![
        make_silo("/projects/repoA", "repoA", "feature"),
        make_silo("/projects/repoB", "repoB", "feature"),
    ];
    let result = resolve_name("repoA/feature", &silos, None);
    assert_eq!(result, ResolveResult::Found(&silos[0]));
}

#[test]
fn resolve_ambiguity_keeps_order() {
    let silos = vec![
        make_silo("/projects/repoA", "repoA", "feature"),
        make_silo("/projects/repoB", "repoB", "feature"),
    ];
    let result = resolve_name("feature", &silos, None);
    assert_eq!(result, ResolveResult::Ambiguous(vec![&silos[0], &silos[1]]));
}

#[test]
fn resolve_scope_priority() {
    let silos = vec![
        make_silo("/projects/repoA", "repoA", "feature"),
        make_silo("/projects/repoB", "repoB", "feature"),
    ];
    let result = resolve_name("feature", &silos, Some(RepoId::new("/projects/repoA".to_string())));
    assert_eq!(result, ResolveResult::Found(&silos[0]));
    let result = resolve_name("feature", &silos, Some(RepoId::new("/projects/repoB".to_string())));
    assert_eq!(result, ResolveResult::Found(&silos[1]));
    // A scope that holds no such silo falls back to the names.
    let result = resolve_name("feature", &silos, Some(RepoId::new("/elsewhere".to_string())));
    assert_eq!(result, ResolveResult::Ambiguous(vec![&silos[0], &silos[1]]));
    // The scope wins even over a qualified name of another repository.
    let result = resolve_name("repoB/feature", &silos, Some(RepoId::new("/projects/repoA".to_string())));
    assert_eq!(result, ResolveResult::Found(&silos[0]));
}

#[test]
fn resolve_absence() {
    let silos = vec![
        make_silo("/projects/repoA", "repoA", "feature"),
        make_silo("/projects/repoB", "repoB", "feature"),
    ];
    assert_eq!(resolve_name("nonexistent", &silos, None), ResolveResult::NotFound);
    let none: Vec<Silo> = Vec::new();
    assert_eq!(resolve_name("feature", &none, None), ResolveResult::NotFound);
    assert_eq!(
        resolve_name("feature", &none, Some(RepoId::new("/projects/repoA".to_string()))),
        ResolveResult::NotFound
    );
}

#[test]
fn resolve_does_not_match_part_of_a_component() {
    let silos = vec![
        make_silo("/projects/repoA", "repoA", "feature"),
        make_silo("/projects/repoB", "repoB", "feature"),
    ];
    assert_eq!(resolve_name("A/feature", &silos, None), ResolveResult::NotFound);
    assert_eq!(resolve_name("eature", &silos, None), ResolveResult::NotFound);
}
