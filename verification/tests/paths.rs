use silo::paths::{file_name, join_path, parent, path_components};
use std::path::Path;

const SAMPLES: [&str; 40] = [
    "",
    "/",
    "//",
    ".",
    "..",
    "./",
    "./a",
    "a",
    "a/",
    "a/b",
    "a//b",
    "a/./b",
    "a/b/.",
    "a/b/..",
    "a/../b",
    "/a",
    "/a/",
    "/a/b",
    "/a//b/",
    "/a/b/c/repo",
    "/a/./b",
    "/a/..",
    "/..",
    "/.",
    "/./a",
    "../a",
    "..a",
    ".a",
    "a.",
    "a/.b",
    "/var/silo/repo-abc123/feature",
    "//a",
    "///a//b///",
    "a/b/./",
    "a/.//",
    "./.",
    "././a",
    ".//",
    "/a/b/../c",
    "relative/path/to/file.txt",
];

fn std_components(path: &str) -> Vec<String> {
    let mut components = Vec::new();
    let mut current = Path::new(path);
    while let Some(name) = current.file_name() {
        components.push(name.to_string_lossy().to_string());
        match current.parent() {
            Some(parent) if parent != current => current = parent,
            _ => break,
        }
    }
    components
}

#[test]
fn path_components_agree_with_std() {
    for sample in SAMPLES {
        assert_eq!(path_components(sample), std_components(sample), "path {:?}", sample);
    }
}

#[test]
fn file_name_agrees_with_std() {
    for sample in SAMPLES {
        let expected = Path::new(sample)
            .file_name()
            .map(|n| n.to_string_lossy().to_string());
        assert_eq!(file_name(sample), expected, "path {:?}", sample);
    }
}

#[test]
fn parent_agrees_with_std() {
    for sample in SAMPLES {
        let expected = Path::new(sample)
            .parent()
            .map(|p| p.to_string_lossy().to_string());
        assert_eq!(parent(sample), expected, "path {:?}", sample);
    }
}

#[test]
fn join_path_agrees_with_std() {
    for base in SAMPLES {
        for child in SAMPLES {
            let expected = Path::new(base).join(child).to_string_lossy().to_string();
            assert_eq!(join_path(base, child), expected, "{:?} + {:?}", base, child);
        }
    }
}

#[test]
fn parent_exact_values() {
    assert_eq!(parent("/a/b"), Some("/a".to_string()));
    assert_eq!(parent("/a"), Some("/".to_string()));
    assert_eq!(parent("/"), None);
    assert_eq!(parent(""), None);
    assert_eq!(parent("a"), Some("".to_string()));
}

#[test]
fn join_path_exact_values() {
    assert_eq!(join_path("/silos", "repo"), "/silos/repo");
    assert_eq!(join_path("/silos/", "repo"), "/silos/repo");
    assert_eq!(join_path("/silos", "/abs"), "/abs");
    assert_eq!(join_path("", "repo"), "repo");
    assert_eq!(join_path("/silos", ""), "/silos/");
}
