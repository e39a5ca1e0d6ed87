use silo::sandbox::DockerSandboxConfig;

#[test]
fn agent_config_basic() {
    let config = DockerSandboxConfig::agent("pilot", "/test/workspace", vec![], "/home/me");

    assert_eq!(config.runner, "pilot");
    assert_eq!(config.workspace, "/test/workspace");
    assert_eq!(config.credentials_mode, "none");
    assert_eq!(config.mounts.len(), 3);
}

#[test]
fn agent_config_with_args() {
    let args = vec!["-c".to_string(), "--verbose".to_string()];
    let config = DockerSandboxConfig::agent("pilot", "/test/workspace", args.clone(), "/home/me");

    assert_eq!(config.args, args);
}

#[test]
fn test_to_command_basic_structure() {
    let config = DockerSandboxConfig {
        runner: "pilot".to_string(),
        workspace: "/test/workspace".to_string(),
        credentials_mode: "none".to_string(),
        mounts: vec![],
        args: vec![],
    };

    let cmd = config.to_command(&[]);
    assert_eq!(cmd[0], "docker");
    assert_eq!(cmd[1], "sandbox");
    assert_eq!(cmd[2], "run");
    assert_eq!(cmd[3], "--credentials=none");
    assert_eq!(cmd[4], "-w");
    assert_eq!(cmd[5], "/test/workspace");
    assert_eq!(cmd[6], "pilot");
}

#[test]
fn test_to_command_with_args() {
    let config = DockerSandboxConfig {
        runner: "pilot".to_string(),
        workspace: "/test/workspace".to_string(),
        credentials_mode: "none".to_string(),
        mounts: vec![],
        args: vec!["-c".to_string(), "hello".to_string()],
    };

    let cmd = config.to_command(&[]);
    assert!(cmd.contains(&"-c".to_string()));
    assert!(cmd.contains(&"hello".to_string()));
}

#[test]
fn to_command_mounts_what_is_there() {
    let config = DockerSandboxConfig::agent("pilot", "/w", vec!["--x".to_string()], "/home/me");
    assert_eq!(config.mounts[0].0, "/home/me/.gitconfig");
    assert_eq!(config.mounts[0].1, "/home/agent/.gitconfig");
    assert_eq!(config.mounts[1].0, "/home/me/.pilot/settings.json");
    assert_eq!(
        config.mounts[2].0,
        "/home/me/.config/gcloud/application_default_credentials.json"
    );
    let cmd = config.to_command(&[true, false, true]);
    assert_eq!(
        cmd,
        vec![
            "docker",
            "sandbox",
            "run",
            "--credentials=none",
            "-w",
            "/w",
            "-v",
            "/home/me/.gitconfig:/home/agent/.gitconfig:ro",
            "-v",
            "/home/me/.config/gcloud/application_default_credentials.json:/home/agent/.config/gcloud/application_default_credentials.json:ro",
            "pilot",
            "--x"
        ]
    );
    // Of a mount that nothing is said of, nothing is mounted.
    let cmd = config.to_command(&[false]);
    assert_eq!(cmd.len(), 8);
}
