use silo::config::{ArgTable, Config};
use silo::runner::{apply_extra_args, command_line, run_command};

#[test]
fn runner_test_apply_extra_args_no_match() {
    let command = vec!["cargo".to_string(), "build".to_string()];
    let mut extra_args = ArgTable::new();
    extra_args.insert("git".to_string(), vec!["--color".to_string()]);

    let result = apply_extra_args(&command, &extra_args);
    assert_eq!(result, vec!["cargo", "build"]);
}

#[test]
fn runner_test_apply_extra_args_empty_command() {
    let command: Vec<String> = vec![];
    let mut extra_args = ArgTable::new();
    extra_args.insert("git".to_string(), vec!["--color".to_string()]);

    let result = apply_extra_args(&command, &extra_args);
    assert!(result.is_empty());
}

#[test]
fn runner_test_apply_extra_args_empty_config() {
    let command = vec!["git".to_string(), "status".to_string()];
    let extra_args = ArgTable::new();

    let result = apply_extra_args(&command, &extra_args);
    assert_eq!(result, vec!["git", "status"]);
}

#[test]
fn runner_test_apply_extra_args_single_prefix_match() {
    let command = vec!["git".to_string(), "status".to_string()];
    let mut extra_args = ArgTable::new();
    extra_args.insert(
        "git".to_string(),
        vec!["-c".to_string(), "color.ui=always".to_string()],
    );

    let result = apply_extra_args(&command, &extra_args);
    assert_eq!(result, vec!["git", "-c", "color.ui=always", "status"]);
}

#[test]
fn runner_test_apply_extra_args_multi_word_prefix_match() {
    let command = vec![
        "git".to_string(),
        "diff".to_string(),
        "file.txt".to_string(),
    ];
    let mut extra_args = ArgTable::new();
    extra_args.insert("git diff".to_string(), vec!["--stat".to_string()]);

    let result = apply_extra_args(&command, &extra_args);
    assert_eq!(result, vec!["git", "diff", "--stat", "file.txt"]);
}

#[test]
fn runner_test_apply_extra_args_both_prefixes_match() {
    let command = vec![
        "git".to_string(),
        "diff".to_string(),
        "file.txt".to_string(),
    ];
    let mut extra_args = ArgTable::new();
    extra_args.insert(
        "git".to_string(),
        vec!["-c".to_string(), "color.ui=always".to_string()],
    );
    extra_args.insert("git diff".to_string(), vec!["--stat".to_string()]);

    let result = apply_extra_args(&command, &extra_args);
    assert_eq!(
        result,
        vec!["git", "-c", "color.ui=always", "diff", "--stat", "file.txt"]
    );
}

#[test]
fn runner_test_apply_extra_args_only_longer_prefix_matches() {
    let command = vec!["git".to_string(), "status".to_string()];
    let mut extra_args = ArgTable::new();
    extra_args.insert("git diff".to_string(), vec!["--stat".to_string()]);

    let result = apply_extra_args(&command, &extra_args);
    assert_eq!(result, vec!["git", "status"]);
}

#[test]
fn runner_test_apply_extra_args_command_shorter_than_prefix() {
    let command = vec!["git".to_string()];
    let mut extra_args = ArgTable::new();
    extra_args.insert("git diff".to_string(), vec!["--stat".to_string()]);

    let result = apply_extra_args(&command, &extra_args);
    assert_eq!(result, vec!["git"]);
}

#[test]
fn runner_test_apply_extra_args_preserves_remaining_args() {
    let command = vec![
        "git".to_string(),
        "diff".to_string(),
        "--cached".to_string(),
        "file.txt".to_string(),
    ];
    let mut extra_args = ArgTable::new();
    extra_args.insert("git".to_string(), vec!["--no-pager".to_string()]);

    let result = apply_extra_args(&command, &extra_args);
    assert_eq!(
        result,
        vec!["git", "--no-pager", "diff", "--cached", "file.txt"]
    );
}

#[test]
fn run_command_applies_the_configuration() {
    let mut config = Config::default();
    config
        .extra_command_args
        .insert("git".to_string(), vec!["--no-pager".to_string()]);
    let command = vec!["git".to_string(), "log".to_string()];
    assert_eq!(
        run_command(&command, &config),
        Ok(vec!["git".to_string(), "--no-pager".to_string(), "log".to_string()])
    );
    let nothing: Vec<String> = Vec::new();
    assert_eq!(
        run_command(&nothing, &config),
        Err("No command specified".to_string())
    );
}

#[test]
fn command_line_joins_with_blanks() {
    let command = vec!["git".to_string(), "log".to_string(), "-1".to_string()];
    assert_eq!(command_line(&command), "git log -1");
    let nothing: Vec<String> = Vec::new();
    assert_eq!(command_line(&nothing), "");
}
