//! Running an agent in a Docker sandbox: the command that starts it.

use vstd::prelude::*;
use vstd::string::StringExecFns;
use crate::text::{concat_str, push_str};

verus! {

/// What a sandbox is started with.
pub struct DockerSandboxConfig {
    /// The agent that runs.
    pub runner: String,
    /// The directory that the agent works in.
    pub workspace: String,
    /// How credentials reach the sandbox; `none` leaves it to the mounts.
    pub credentials_mode: String,
    /// Files to mount: the path on the host, then the path in the sandbox.
    pub mounts: Vec<(String, String)>,
    /// Arguments for the agent.
    pub args: Vec<String>,
}

/// One mount as docker takes it, read-only.
pub open spec fn mount_arg(mount: (String, String)) -> Seq<char> {
    mount.0@ + ":"@ + mount.1@ + ":ro"@
}

/// The arguments for those of the first `upto` mounts whose file is there.
pub open spec fn mount_args(mounts: Seq<(String, String)>, present: Seq<bool>, upto: int) -> Seq<
    Seq<char>,
>
    decreases upto,
{
    if upto <= 0 {
        Seq::<Seq<char>>::empty()
    } else {
        let before = mount_args(mounts, present, upto - 1);
        if upto - 1 < present.len() && present[upto - 1] {
            before.push("-v"@).push(mount_arg(mounts[upto - 1]))
        } else {
            before
        }
    }
}

/// The docker command for a sandbox.
pub open spec fn command_of(config: DockerSandboxConfig, present: Seq<bool>) -> Seq<Seq<char>> {
    seq![
        "docker"@,
        "sandbox"@,
        "run"@,
        "--credentials="@ + config.credentials_mode@,
        "-w"@,
        config.workspace@,
    ] + mount_args(config.mounts@, present, config.mounts@.len() as int) + seq![config.runner@]
        + config.args.deep_view()
}

impl DockerSandboxConfig {
    /// The sandbox for the agent `runner`: no credentials of docker's own,
    /// but the user's git configuration, the agent's settings and the Google
    /// Cloud credentials mounted from the home directory `home`.
    pub fn agent(runner: &str, workspace: &str, args: Vec<String>, home: &str) -> (config:
        DockerSandboxConfig)
        ensures
            config.runner@ == runner@,
            config.workspace@ == workspace@,
            config.credentials_mode@ == "none"@,
            config.args == args,
            config.mounts@.len() == 3,
            config.mounts@[0].0@ == home@ + "/.gitconfig"@,
            config.mounts@[0].1@ == "/home/agent/.gitconfig"@,
            config.mounts@[1].0@ == home@ + "/."@ + runner@ + "/settings.json"@,
            config.mounts@[1].1@ == "/home/agent/."@ + runner@ + "/settings.json"@,
            config.mounts@[2].0@ == home@
                + "/.config/gcloud/application_default_credentials.json"@,
            config.mounts@[2].1@
                == "/home/agent/.config/gcloud/application_default_credentials.json"@,
    {
        let mut mounts: Vec<(String, String)> = Vec::new();
        mounts.push(
            (concat_str(home, "/.gitconfig"), String::from_str("/home/agent/.gitconfig")),
        );
        let mut settings = concat_str(home, "/.");
        settings.append(runner);
        settings.append("/settings.json");
        let mut inside = concat_str("/home/agent/.", runner);
        inside.append("/settings.json");
        mounts.push((settings, inside));
        mounts.push(
            (
                concat_str(home, "/.config/gcloud/application_default_credentials.json"),
                String::from_str(
                    "/home/agent/.config/gcloud/application_default_credentials.json",
                ),
            ),
        );
        DockerSandboxConfig {
            runner: String::from_str(runner),
            workspace: String::from_str(workspace),
            credentials_mode: String::from_str("none"),
            mounts,
            args,
        }
    }

    /// The docker command as a list of words. `present` says of every mount,
    /// in order, whether its file is there on the host; a mount whose file
    /// is not there, or of which `present` says nothing, is left out.
    pub fn to_command(&self, present: &[bool]) -> (cmd: Vec<String>)
        ensures
            cmd.deep_view() == command_of(*self, present@),
    {
        let mut cmd: Vec<String> = Vec::new();
        push_str(&mut cmd, "docker");
        push_str(&mut cmd, "sandbox");
        push_str(&mut cmd, "run");
        let credentials = concat_str("--credentials=", self.credentials_mode.as_str());
        push_str(&mut cmd, credentials.as_str());
        push_str(&mut cmd, "-w");
        push_str(&mut cmd, self.workspace.as_str());
        let ghost head = cmd.deep_view();
        let mut i: usize = 0;
        while i < self.mounts.len()
            invariant
                i <= self.mounts.len(),
                cmd.deep_view() == head + mount_args(self.mounts@, present@, i as int),
            decreases self.mounts.len() - i,
        {
            if i < present.len() && present[i] {
                let mut mount = concat_str(self.mounts[i].0.as_str(), ":");
                mount.append(self.mounts[i].1.as_str());
                mount.append(":ro");
                push_str(&mut cmd, "-v");
                push_str(&mut cmd, mount.as_str());
            }
            i += 1;
        }
        push_str(&mut cmd, self.runner.as_str());
        let ghost started = cmd.deep_view();
        let mut k: usize = 0;
        while k < self.args.len()
            invariant
                k <= self.args.len(),
                cmd.deep_view() == started + self.args.deep_view().take(k as int),
            decreases self.args.len() - k,
        {
            push_str(&mut cmd, self.args[k].as_str());
            k += 1;
        }
        cmd
    }
}

} // verus!
