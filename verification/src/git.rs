//! Git as this tool uses it: the commands it runs and how it reads what they
//! print. Running a command is the caller's part; what came back is handed
//! in as plain values.

use vstd::prelude::*;
use vstd::string::StringExecFns;
use vstd::utf8::{decode_utf8, encode_utf8, encode_utf8_decode_utf8, is_char_boundary};
use crate::numbers::{parse_u32, parsed_u32};
use crate::paths::{file_name, file_name_of, parent, parent_of};
use crate::scan::{
    after_last, after_last_match, after_prefix, has_prefix, lines, lines_of, starts_with,
    strip_prefix, trim, trim_end_matches, trimmed, without_suffixes,
};
use crate::text::{
    chars_of, concat_str, lemma_split_nonempty, opt_text, push_str, res_text, split,
    split_on, unit_text,
};

verus! {

/// A worktree as git lists it.
#[derive(Debug, Clone)]
pub struct Worktree {
    pub path: String,
    /// The branch checked out in it; `None` on a detached HEAD.
    pub branch: Option<String>,
}

/// What a worktree holds, as plain sequences of characters.
pub struct WorktreeView {
    pub path: Seq<char>,
    pub branch: Option<Seq<char>>,
}

impl View for Worktree {
    type V = WorktreeView;

    open spec fn view(&self) -> WorktreeView {
        WorktreeView { path: self.path@, branch: opt_text(self.branch) }
    }
}

impl DeepView for Worktree {
    type V = WorktreeView;

    open spec fn deep_view(&self) -> WorktreeView {
        self@
    }
}

impl Worktree {
    /// The name of the worktree's directory, or `unknown` where the path does
    /// not end in a name.
    pub fn name(&self) -> (out: String)
        ensures
            out@ == match file_name_of(self.path@) {
                Some(n) => n,
                None => "unknown"@,
            },
    {
        match file_name(self.path.as_str()) {
            Some(n) => n,
            None => String::from_str("unknown"),
        }
    }

    /// The branch's name, or `(detached)` on a detached HEAD.
    pub fn branch_name(&self) -> (out: &str)
        ensures
            out@ == match self@.branch {
                Some(b) => b,
                None => "(detached)"@,
            },
    {
        match &self.branch {
            Some(b) => b.as_str(),
            None => "(detached)",
        }
    }
}

/// What naming needs to know of a repository.
#[derive(Debug, Clone)]
pub struct RepoInfo {
    /// The path of the main worktree.
    pub main_worktree: String,
    /// The repository's name.
    pub name: String,
}

/// How the output of a command is treated.
#[derive(Debug, Clone, Copy, PartialEq, Eq)]
pub enum Mode {
    /// The output is captured and kept to the caller.
    Quiet,
    /// The output is captured and shown once the command has ended.
    Verbose,
    /// The command talks to the terminal itself.
    Interactive,
}

/// A git command that is ready to run.
#[derive(Debug, Clone)]
pub struct GitCommand {
    /// The directory in which git runs.
    pub dir: String,
    /// The arguments after `git`.
    pub args: Vec<String>,
    pub mode: Mode,
    /// What the error says first if the command fails.
    pub failure: String,
}

/// What a command holds, as plain sequences of characters.
pub struct GitCommandView {
    pub dir: Seq<char>,
    pub args: Seq<Seq<char>>,
    pub mode: Mode,
    pub failure: Seq<char>,
}

impl View for GitCommand {
    type V = GitCommandView;

    open spec fn view(&self) -> GitCommandView {
        GitCommandView {
            dir: self.dir@,
            args: self.args.deep_view(),
            mode: self.mode,
            failure: self.failure@,
        }
    }
}

/// What a command that ran to its end left behind.
#[derive(Debug, Clone)]
pub struct CommandOutput {
    /// Whether it exited with status zero.
    pub success: bool,
    pub stdout: String,
    pub stderr: String,
}

/// A command in `dir` with no arguments yet.
pub fn git_command(dir: &str, mode: Mode, failure: &str) -> (cmd: GitCommand)
    ensures
        cmd@ == (GitCommandView {
            dir: dir@,
            args: Seq::<Seq<char>>::empty(),
            mode: mode,
            failure: failure@,
        }),
{
    let cmd = GitCommand {
        dir: String::from_str(dir),
        args: Vec::new(),
        mode,
        failure: String::from_str(failure),
    };
    assert(cmd.args.deep_view() =~= Seq::<Seq<char>>::empty());
    cmd
}

/// What a captured run comes to: its output on success, an error that
/// starts with `context` and ends with what git wrote to stderr otherwise.
pub open spec fn captured(ran: Result<CommandOutput, String>, context: Seq<char>) -> Result<
    Seq<char>,
    Seq<char>,
> {
    match ran {
        Err(e) => Err("Failed to run git: "@ + e@),
        Ok(out) => if out.success {
            Ok(out.stdout@)
        } else {
            Err(context + ": "@ + trimmed(out.stderr@))
        },
    }
}

/// The result of a captured run. `ran` is `Err` with the reason where git
/// could not be started.
pub fn run_git(ran: &Result<CommandOutput, String>, error_context: &str) -> (res: Result<
    String,
    String,
>)
    ensures
        res_text(res) == captured(*ran, error_context@),
{
    match ran {
        Err(e) => Err(concat_str("Failed to run git: ", e.as_str())),
        Ok(out) => {
            if out.success {
                Ok(out.stdout.clone())
            } else {
                let mut msg = concat_str(error_context, ": ");
                let detail = trim(out.stderr.as_str());
                msg.append(detail.as_str());
                Err(msg)
            }
        },
    }
}

/// What a verbose run shows of the output it captured.
#[derive(Debug, Clone)]
pub struct Echo {
    /// What goes to standard output, if anything.
    pub to_stdout: Option<String>,
    /// What goes to standard error, if anything.
    pub to_stderr: Option<String>,
}

/// A verbose run shows standard output unless it is blank, and standard
/// error unless it is blank or the command failed (the error holds it then).
pub open spec fn echoed(ran: Result<CommandOutput, String>) -> (Option<Seq<char>>, Option<Seq<char>>) {
    match ran {
        Err(_) => (None, None),
        Ok(out) => (
            if trimmed(out.stdout@).len() > 0 {
                Some(out.stdout@)
            } else {
                None
            },
            if trimmed(out.stderr@).len() > 0 && out.success {
                Some(out.stderr@)
            } else {
                None
            },
        ),
    }
}

/// The result of a verbose run, and what is to be shown of its output.
pub fn run_git_verbose(ran: &Result<CommandOutput, String>, error_context: &str) -> (res: (
    Result<String, String>,
    Echo,
))
    ensures
        res_text(res.0) == captured(*ran, error_context@),
        (opt_text(res.1.to_stdout), opt_text(res.1.to_stderr)) == echoed(*ran),
{
    let result = run_git(ran, error_context);
    let echo = match ran {
        Err(_) => Echo { to_stdout: None, to_stderr: None },
        Ok(out) => {
            let shown_out = if trim(out.stdout.as_str()).as_str().unicode_len() > 0 {
                Some(out.stdout.clone())
            } else {
                None
            };
            let shown_err = if trim(out.stderr.as_str()).as_str().unicode_len() > 0
                && out.success {
                Some(out.stderr.clone())
            } else {
                None
            };
            Echo { to_stdout: shown_out, to_stderr: shown_err }
        },
    };
    (result, echo)
}

/// What an interactive run comes to: nothing on success, `context` alone
/// where git failed.
pub open spec fn interacted(status: Result<bool, String>, context: Seq<char>) -> Result<
    (),
    Seq<char>,
> {
    match status {
        Err(e) => Err("Failed to run git: "@ + e@),
        Ok(success) => if success {
            Ok(())
        } else {
            Err(context)
        },
    }
}

/// The result of an interactive run. `status` says whether git exited with
/// status zero, or why it could not be started.
pub fn run_git_interactive(status: &Result<bool, String>, error_context: &str) -> (res: Result<
    (),
    String,
>)
    ensures
        unit_text(res) == interacted(*status, error_context@),
{
    match status {
        Err(e) => Err(concat_str("Failed to run git: ", e.as_str())),
        Ok(success) => {
            if *success {
                Ok(())
            } else {
                Err(String::from_str(error_context))
            }
        },
    }
}

/// The root of the repository, from what `git rev-parse --show-toplevel`
/// printed; `None` outside a repository.
pub open spec fn repo_root_of(ran: Result<CommandOutput, String>) -> Option<Seq<char>> {
    match ran {
        Ok(out) => if out.success {
            Some(trimmed(out.stdout@))
        } else {
            None
        },
        Err(_) => None,
    }
}

/// The arguments that ask git for the root of the repository.
pub fn repo_root_args() -> (args: Vec<String>)
    ensures
        args.deep_view() == seq!["rev-parse"@, "--show-toplevel"@],
{
    let mut args: Vec<String> = Vec::new();
    push_str(&mut args, "rev-parse");
    push_str(&mut args, "--show-toplevel");
    args
}

/// The root of the current repository, if there is one.
pub fn try_get_repo_root(ran: &Result<CommandOutput, String>) -> (root: Option<String>)
    ensures
        opt_text(root) == repo_root_of(*ran),
{
    match ran {
        Ok(out) => {
            if out.success {
                Some(trim(out.stdout.as_str()))
            } else {
                None
            }
        },
        Err(_) => None,
    }
}

/// The root of the current repository, or the error that says there is
/// none.
pub fn get_repo_root(ran: &Result<CommandOutput, String>) -> (root: Result<String, String>)
    ensures
        res_text(root) == match repo_root_of(*ran) {
            Some(path) => Ok::<Seq<char>, Seq<char>>(path),
            None => Err("Not in a git repository"@),
        },
{
    match try_get_repo_root(ran) {
        Some(path) => Ok(path),
        None => Err(String::from_str("Not in a git repository")),
    }
}

/// The name in a remote's URL: what follows the last `/`, once every
/// `.git` at the end is taken off.
pub open spec fn repo_name_in(url: Seq<char>) -> Seq<char> {
    split_on(without_suffixes(url, ".git"@), '/').last()
}

/// The repository's name as a remote's URL gives it, for URLs such as
/// `git@host:user/repo.git` and `https://host/user/repo`.
pub fn extract_repo_name_from_url(url: &str) -> (name: Option<String>)
    ensures
        opt_text(name) == Some(repo_name_in(url@)),
{
    let stem = trim_end_matches(url, ".git");
    let pieces = split(stem.as_str(), '/');
    Some(pieces[pieces.len() - 1].clone())
}

/// The repository's name: from the URL of `origin` where git gave one, from
/// the name of the root directory otherwise.
pub open spec fn repo_name_of(origin: Result<CommandOutput, String>, root: Result<
    Seq<char>,
    Seq<char>,
>) -> Result<Seq<char>, Seq<char>> {
    match origin {
        Err(e) => Err("Failed to run git: "@ + e@),
        Ok(out) => if out.success {
            Ok(repo_name_in(trimmed(out.stdout@)))
        } else {
            match root {
                Err(e) => Err(e),
                Ok(path) => match file_name_of(path) {
                    Some(n) => Ok(n),
                    None => Err("Could not determine repository name"@),
                },
            }
        },
    }
}

/// The repository's name. `origin` is what `git remote get-url origin`
/// came to, `root` what `get_repo_root` gave.
pub fn get_repo_name(origin: &Result<CommandOutput, String>, root: &Result<String, String>) -> (name:
    Result<String, String>)
    ensures
        res_text(name) == repo_name_of(*origin, res_text(*root)),
{
    match origin {
        Err(e) => Err(concat_str("Failed to run git: ", e.as_str())),
        Ok(out) => {
            if out.success {
                let url = trim(out.stdout.as_str());
                let pieces = split(trim_end_matches(url.as_str(), ".git").as_str(), '/');
                Ok(pieces[pieces.len() - 1].clone())
            } else {
                match root {
                    Err(e) => Err(e.clone()),
                    Ok(path) => match file_name(path.as_str()) {
                        Some(n) => Ok(n),
                        None => Err(String::from_str("Could not determine repository name")),
                    },
                }
            }
        },
    }
}

/// The root and the name of the repository together; the root's error comes
/// first.
pub fn get_repo_info(root: Result<String, String>, name: Result<String, String>) -> (info: Result<
    RepoInfo,
    String,
>)
    ensures
        match (root, name) {
            (Err(e), _) => info is Err && info->Err_0@ == e@,
            (Ok(_), Err(e)) => info is Err && info->Err_0@ == e@,
            (Ok(r), Ok(n)) => info is Ok && info->Ok_0.main_worktree@ == r@ && info->Ok_0.name@
                == n@,
        },
{
    match root {
        Err(e) => Err(e),
        Ok(main_worktree) => match name {
            Err(e) => Err(e),
            Ok(name) => Ok(RepoInfo { main_worktree, name }),
        },
    }
}

fn worktree_add(path: &str, branch: &str, repo_root: &str, mode: Mode) -> (cmd: GitCommand)
    ensures
        cmd@ == (GitCommandView {
            dir: repo_root@,
            args: seq!["worktree"@, "add"@, "-b"@, branch@, path@],
            mode: mode,
            failure: "Failed to create worktree"@,
        }),
{
    let mut cmd = git_command(repo_root, mode, "Failed to create worktree");
    push_str(&mut cmd.args, "worktree");
    push_str(&mut cmd.args, "add");
    push_str(&mut cmd.args, "-b");
    push_str(&mut cmd.args, branch);
    push_str(&mut cmd.args, path);
    assert(cmd.args.deep_view() =~= seq!["worktree"@, "add"@, "-b"@, branch@, path@]);
    cmd
}

/// The command that makes a new worktree at `path` on a new branch.
pub fn create_worktree(path: &str, branch: &str, repo_root: &str) -> (cmd: GitCommand)
    ensures
        cmd@ == (GitCommandView {
            dir: repo_root@,
            args: seq!["worktree"@, "add"@, "-b"@, branch@, path@],
            mode: Mode::Quiet,
            failure: "Failed to create worktree"@,
        }),
{
    worktree_add(path, branch, repo_root, Mode::Quiet)
}

/// The same command, with git's output shown.
pub fn create_worktree_verbose(path: &str, branch: &str, repo_root: &str) -> (cmd: GitCommand)
    ensures
        cmd@ == (GitCommandView {
            dir: repo_root@,
            args: seq!["worktree"@, "add"@, "-b"@, branch@, path@],
            mode: Mode::Verbose,
            failure: "Failed to create worktree"@,
        }),
{
    worktree_add(path, branch, repo_root, Mode::Verbose)
}

/// The arguments that remove the worktree at `path`; `--force` removes it
/// with its uncommitted changes.
pub open spec fn removal_args(path: Seq<char>, force: bool) -> Seq<Seq<char>> {
    if force {
        seq!["worktree"@, "remove"@, "--force"@, path]
    } else {
        seq!["worktree"@, "remove"@, path]
    }
}

fn worktree_remove(path: &str, repo_root: &str, force: bool, mode: Mode) -> (cmd: GitCommand)
    ensures
        cmd@ == (GitCommandView {
            dir: repo_root@,
            args: removal_args(path@, force),
            mode: mode,
            failure: "Failed to remove worktree"@,
        }),
{
    let mut cmd = git_command(repo_root, mode, "Failed to remove worktree");
    push_str(&mut cmd.args, "worktree");
    push_str(&mut cmd.args, "remove");
    if force {
        push_str(&mut cmd.args, "--force");
    }
    push_str(&mut cmd.args, path);
    assert(cmd.args.deep_view() =~= removal_args(path@, force));
    cmd
}

/// The command that removes the worktree at `path`.
pub fn remove_worktree(path: &str, repo_root: &str, force: bool) -> (cmd: GitCommand)
    ensures
        cmd@ == (GitCommandView {
            dir: repo_root@,
            args: removal_args(path@, force),
            mode: Mode::Quiet,
            failure: "Failed to remove worktree"@,
        }),
{
    worktree_remove(path, repo_root, force, Mode::Quiet)
}

/// The same command, with git's output shown.
pub fn remove_worktree_verbose(path: &str, repo_root: &str, force: bool) -> (cmd: GitCommand)
    ensures
        cmd@ == (GitCommandView {
            dir: repo_root@,
            args: removal_args(path@, force),
            mode: Mode::Verbose,
            failure: "Failed to remove worktree"@,
        }),
{
    worktree_remove(path, repo_root, force, Mode::Verbose)
}

fn two_words(dir: &str, first: &str, second: &str, last: &str, mode: Mode, failure: &str) -> (cmd:
    GitCommand)
    ensures
        cmd@ == (GitCommandView {
            dir: dir@,
            args: seq![first@, second@, last@],
            mode: mode,
            failure: failure@,
        }),
{
    let mut cmd = git_command(dir, mode, failure);
    push_str(&mut cmd.args, first);
    push_str(&mut cmd.args, second);
    push_str(&mut cmd.args, last);
    assert(cmd.args.deep_view() =~= seq![first@, second@, last@]);
    cmd
}

fn one_word(dir: &str, first: &str, last: &str, mode: Mode, failure: &str) -> (cmd: GitCommand)
    ensures
        cmd@ == (GitCommandView {
            dir: dir@,
            args: seq![first@, last@],
            mode: mode,
            failure: failure@,
        }),
{
    let mut cmd = git_command(dir, mode, failure);
    push_str(&mut cmd.args, first);
    push_str(&mut cmd.args, last);
    assert(cmd.args.deep_view() =~= seq![first@, last@]);
    cmd
}

/// The command that deletes `branch` if git holds it for merged.
pub fn delete_branch(repo_root: &str, branch: &str) -> (cmd: GitCommand)
    ensures
        cmd@ == (GitCommandView {
            dir: repo_root@,
            args: seq!["branch"@, "-d"@, branch@],
            mode: Mode::Quiet,
            failure: "Failed to delete branch"@,
        }),
{
    two_words(repo_root, "branch", "-d", branch, Mode::Quiet, "Failed to delete branch")
}

/// The same command, with git's output shown.
pub fn delete_branch_verbose(repo_root: &str, branch: &str) -> (cmd: GitCommand)
    ensures
        cmd@ == (GitCommandView {
            dir: repo_root@,
            args: seq!["branch"@, "-d"@, branch@],
            mode: Mode::Verbose,
            failure: "Failed to delete branch"@,
        }),
{
    two_words(repo_root, "branch", "-d", branch, Mode::Verbose, "Failed to delete branch")
}

/// The command that rebases the branch of the worktree onto `base_branch`.
pub fn rebase_onto(worktree_path: &str, base_branch: &str) -> (cmd: GitCommand)
    ensures
        cmd@ == (GitCommandView {
            dir: worktree_path@,
            args: seq!["rebase"@, base_branch@],
            mode: Mode::Quiet,
            failure: "Failed to rebase"@,
        }),
{
    one_word(worktree_path, "rebase", base_branch, Mode::Quiet, "Failed to rebase")
}

/// The same command, run at the terminal.
pub fn rebase_onto_interactive(worktree_path: &str, base_branch: &str) -> (cmd: GitCommand)
    ensures
        cmd@ == (GitCommandView {
            dir: worktree_path@,
            args: seq!["rebase"@, base_branch@],
            mode: Mode::Interactive,
            failure: "Failed to rebase"@,
        }),
{
    one_word(worktree_path, "rebase", base_branch, Mode::Interactive, "Failed to rebase")
}

/// The command that merges `branch` into the branch of the worktree.
pub fn merge_branch(worktree_path: &str, branch: &str) -> (cmd: GitCommand)
    ensures
        cmd@ == (GitCommandView {
            dir: worktree_path@,
            args: seq!["merge"@, branch@],
            mode: Mode::Quiet,
            failure: "Failed to merge"@,
        }),
{
    one_word(worktree_path, "merge", branch, Mode::Quiet, "Failed to merge")
}

/// The same command, run at the terminal.
pub fn merge_branch_interactive(worktree_path: &str, branch: &str) -> (cmd: GitCommand)
    ensures
        cmd@ == (GitCommandView {
            dir: worktree_path@,
            args: seq!["merge"@, branch@],
            mode: Mode::Interactive,
            failure: "Failed to merge"@,
        }),
{
    one_word(worktree_path, "merge", branch, Mode::Interactive, "Failed to merge")
}

/// The command that lists the worktrees of a repository.
pub fn list_worktrees_command(repo_root: &str) -> (cmd: GitCommand)
    ensures
        cmd@ == (GitCommandView {
            dir: repo_root@,
            args: seq!["worktree"@, "list"@, "--porcelain"@],
            mode: Mode::Quiet,
            failure: "Failed to list worktrees"@,
        }),
{
    two_words(repo_root, "worktree", "list", "--porcelain", Mode::Quiet, "Failed to list worktrees")
}

/// The command that counts the commits on either side of two branches.
pub fn ahead_behind_command(worktree_path: &str, branch: &str, base_branch: &str) -> (cmd:
    GitCommand)
    ensures
        cmd@ == (GitCommandView {
            dir: worktree_path@,
            args: seq![
                "rev-list"@,
                "--left-right"@,
                "--count"@,
                base_branch@ + "..."@ + branch@,
            ],
            mode: Mode::Quiet,
            failure: ""@,
        }),
{
    let mut cmd = git_command(worktree_path, Mode::Quiet, "");
    push_str(&mut cmd.args, "rev-list");
    push_str(&mut cmd.args, "--left-right");
    push_str(&mut cmd.args, "--count");
    let mut range = concat_str(base_branch, "...");
    range.append(branch);
    push_str(&mut cmd.args, range.as_str());
    assert(cmd.args.deep_view() =~= seq![
        "rev-list"@,
        "--left-right"@,
        "--count"@,
        base_branch@ + "..."@ + branch@,
    ]);
    cmd
}

/// The command that counts the lines changed between two branches.
pub fn diff_stats_command(worktree_path: &str, branch: &str, base_branch: &str) -> (cmd:
    GitCommand)
    ensures
        cmd@ == (GitCommandView {
            dir: worktree_path@,
            args: seq!["diff"@, "--numstat"@, base_branch@ + "..."@ + branch@],
            mode: Mode::Quiet,
            failure: ""@,
        }),
{
    let mut range = concat_str(base_branch, "...");
    range.append(branch);
    two_words(worktree_path, "diff", "--numstat", range.as_str(), Mode::Quiet, "")
}

/// The command that lists the uncommitted changes of a worktree.
pub fn status_command(path: &str) -> (cmd: GitCommand)
    ensures
        cmd@ == (GitCommandView {
            dir: path@,
            args: seq!["status"@, "--porcelain"@],
            mode: Mode::Quiet,
            failure: ""@,
        }),
{
    one_word(path, "status", "--porcelain", Mode::Quiet, "")
}

/// The command that succeeds exactly if `branch` is an ancestor of
/// `main_branch`.
pub fn merged_command(repo_root: &str, branch: &str, main_branch: &str) -> (cmd: GitCommand)
    ensures
        cmd@ == (GitCommandView {
            dir: repo_root@,
            args: seq!["merge-base"@, "--is-ancestor"@, branch@, main_branch@],
            mode: Mode::Quiet,
            failure: ""@,
        }),
{
    let mut cmd = git_command(repo_root, Mode::Quiet, "");
    push_str(&mut cmd.args, "merge-base");
    push_str(&mut cmd.args, "--is-ancestor");
    push_str(&mut cmd.args, branch);
    push_str(&mut cmd.args, main_branch);
    assert(cmd.args.deep_view() =~= seq![
        "merge-base"@,
        "--is-ancestor"@,
        branch@,
        main_branch@,
    ]);
    cmd
}

/// A number that git printed, or zero where it printed something else.
pub open spec fn count_or_zero(s: Seq<char>) -> u32 {
    match parsed_u32(s) {
        Some(n) => n,
        None => 0,
    }
}

/// The commits ahead and behind, from the two tab-separated counts that git
/// prints, behind first. Anything else reads as no commits either way.
pub open spec fn ahead_behind_of(ran: Result<CommandOutput, String>) -> (u32, u32) {
    match ran {
        Ok(out) => {
            let parts = split_on(trimmed(out.stdout@), '\t');
            if out.success && parts.len() == 2 {
                (count_or_zero(parts[1]), count_or_zero(parts[0]))
            } else {
                (0u32, 0u32)
            }
        },
        Err(_) => (0u32, 0u32),
    }
}

fn count_in(s: &str) -> (n: u32)
    ensures
        n == count_or_zero(s@),
{
    match parse_u32(s) {
        Some(n) => n,
        None => 0,
    }
}

/// How many commits the branch is ahead of the base and how many behind,
/// in that order.
pub fn get_ahead_behind(ran: &Result<CommandOutput, String>) -> (counts: (u32, u32))
    ensures
        counts == ahead_behind_of(*ran),
{
    match ran {
        Ok(out) => {
            if !out.success {
                return (0, 0);
            }
            let text = trim(out.stdout.as_str());
            let parts = split(text.as_str(), '\t');
            if parts.len() == 2 {
                let behind = count_in(parts[0].as_str());
                let ahead = count_in(parts[1].as_str());
                (ahead, behind)
            } else {
                (0, 0)
            }
        },
        Err(_) => (0, 0),
    }
}

/// The lines added and removed that one line of `--numstat` reports; zero
/// for a count that is no number, as for binary files.
pub open spec fn line_changes(line: Seq<char>) -> (nat, nat) {
    let parts = split_on(line, '\t');
    if parts.len() >= 2 {
        (count_or_zero(parts[0]) as nat, count_or_zero(parts[1]) as nat)
    } else {
        (0nat, 0nat)
    }
}

/// The lines added and removed over all lines of a report.
pub open spec fn total_changes(report: Seq<Seq<char>>) -> (nat, nat)
    decreases report.len(),
{
    if report.len() == 0 {
        (0nat, 0nat)
    } else {
        let before = total_changes(report.drop_last());
        let here = line_changes(report.last());
        (before.0 + here.0, before.1 + here.1)
    }
}

/// A count as a 32-bit number, held at the largest one where it is beyond.
pub open spec fn capped(n: nat) -> u32 {
    if n > u32::MAX {
        u32::MAX
    } else {
        n as u32
    }
}

/// The lines added and removed between two branches.
pub open spec fn diff_stats_of(ran: Result<CommandOutput, String>) -> (u32, u32) {
    match ran {
        Ok(out) => if out.success {
            let sums = total_changes(lines_of(out.stdout@));
            (capped(sums.0), capped(sums.1))
        } else {
            (0u32, 0u32)
        },
        Err(_) => (0u32, 0u32),
    }
}

/// The lines added and removed between two branches, in that order. Counts
/// beyond 32 bits stay at the largest number.
pub fn get_diff_stats(ran: &Result<CommandOutput, String>) -> (counts: (u32, u32))
    ensures
        counts == diff_stats_of(*ran),
{
    match ran {
        Ok(out) => {
            if !out.success {
                return (0, 0);
            }
            let report = lines(out.stdout.as_str());
            let mut added: u32 = 0;
            let mut removed: u32 = 0;
            let mut i: usize = 0;
            while i < report.len()
                invariant
                    i <= report.len(),
                    added == capped(total_changes(report.deep_view().take(i as int)).0),
                    removed == capped(total_changes(report.deep_view().take(i as int)).1),
                decreases report.len() - i,
            {
                let ghost upto = report.deep_view().take(i as int);
                let ghost next = report.deep_view().take(i + 1);
                assert(next.drop_last() =~= upto);
                let parts = split(report[i].as_str(), '\t');
                if parts.len() >= 2 {
                    added = added.saturating_add(count_in(parts[0].as_str()));
                    removed = removed.saturating_add(count_in(parts[1].as_str()));
                }
                i += 1;
            }
            assert(report.deep_view().take(i as int) =~= report.deep_view());
            (added, removed)
        },
        Err(_) => (0, 0),
    }
}

/// Whether a worktree has nothing uncommitted. Where git could not say, it
/// counts as not clean.
pub fn is_worktree_clean(ran: &Result<CommandOutput, String>) -> (clean: bool)
    ensures
        clean == match *ran {
            Ok(out) => out.success && out.stdout@.len() == 0,
            Err(_) => false,
        },
{
    match ran {
        Ok(out) => out.success && out.stdout.as_str().unicode_len() == 0,
        Err(_) => false,
    }
}

/// How many files have uncommitted changes, by kind.
#[derive(Debug, Default, Clone, Copy)]
pub struct UncommittedStats {
    pub staged: u32,
    pub modified: u32,
    pub untracked: u32,
}

impl UncommittedStats {
    /// Whether nothing is uncommitted.
    pub fn is_clean(&self) -> (clean: bool)
        ensures
            clean == (self.staged == 0 && self.modified == 0 && self.untracked == 0),
    {
        self.staged == 0 && self.modified == 0 && self.untracked == 0
    }

    /// The number of files with uncommitted changes, held at the largest
    /// 32-bit number where it is beyond.
    pub fn total(&self) -> (sum: u32)
        ensures
            sum == capped((self.staged + self.modified + self.untracked) as nat),
    {
        self.staged.saturating_add(self.modified).saturating_add(self.untracked)
    }
}

/// What one line of `git status --porcelain` reports.
pub enum Change {
    /// A change in the index.
    Staged,
    /// A change in the worktree that is not staged.
    Modified,
    /// A file that git does not track.
    Untracked,
    /// Nothing that is counted.
    Nothing,
}

/// The kind of change in a status line, by its first two characters: the
/// state of the index, then that of the worktree. A line of less than two
/// bytes reports nothing; a character that is not there counts as a blank.
pub open spec fn change_in(line: Seq<char>) -> Change {
    let index = if line.len() > 0 {
        line[0]
    } else {
        ' '
    };
    let worktree = if line.len() > 1 {
        line[1]
    } else {
        ' '
    };
    if encode_utf8(line).len() < 2 {
        Change::Nothing
    } else if index != ' ' && index != '?' {
        Change::Staged
    } else if worktree != ' ' && worktree != '?' {
        Change::Modified
    } else if index == '?' {
        Change::Untracked
    } else {
        Change::Nothing
    }
}

/// How many lines of a report show each kind of change: staged, modified,
/// untracked.
pub open spec fn change_counts(report: Seq<Seq<char>>) -> (nat, nat, nat)
    decreases report.len(),
{
    if report.len() == 0 {
        (0nat, 0nat, 0nat)
    } else {
        let before = change_counts(report.drop_last());
        match change_in(report.last()) {
            Change::Staged => (before.0 + 1, before.1, before.2),
            Change::Modified => (before.0, before.1 + 1, before.2),
            Change::Untracked => (before.0, before.1, before.2 + 1),
            Change::Nothing => before,
        }
    }
}

/// The report of `git status --porcelain`, line by line; empty where git
/// failed.
pub open spec fn status_report(ran: Result<CommandOutput, String>) -> Seq<Seq<char>> {
    match ran {
        Ok(out) => if out.success {
            lines_of(out.stdout@)
        } else {
            Seq::<Seq<char>>::empty()
        },
        Err(_) => Seq::<Seq<char>>::empty(),
    }
}

fn change_of(line: &str) -> (change: Change)
    ensures
        change == change_in(line@),
{
    let chars = chars_of(line);
    let index = if chars.len() > 0 {
        chars[0]
    } else {
        ' '
    };
    let worktree = if chars.len() > 1 {
        chars[1]
    } else {
        ' '
    };
    if line.as_bytes().len() < 2 {
        Change::Nothing
    } else if index != ' ' && index != '?' {
        Change::Staged
    } else if worktree != ' ' && worktree != '?' {
        Change::Modified
    } else if index == '?' {
        Change::Untracked
    } else {
        Change::Nothing
    }
}

fn status_lines(ran: &Result<CommandOutput, String>) -> (report: Vec<String>)
    ensures
        report.deep_view() == status_report(*ran),
{
    match ran {
        Ok(out) => {
            if out.success {
                return lines(out.stdout.as_str());
            }
        },
        Err(_) => {},
    }
    let report: Vec<String> = Vec::new();
    report
}

/// The uncommitted changes of a worktree, counted by kind. Each count stays
/// at the largest 32-bit number where it is beyond.
pub fn get_uncommitted_stats(ran: &Result<CommandOutput, String>) -> (stats: UncommittedStats)
    ensures
        stats.staged == capped(change_counts(status_report(*ran)).0),
        stats.modified == capped(change_counts(status_report(*ran)).1),
        stats.untracked == capped(change_counts(status_report(*ran)).2),
{
    let report = status_lines(ran);
    let mut stats = UncommittedStats { staged: 0, modified: 0, untracked: 0 };
    let mut i: usize = 0;
    while i < report.len()
        invariant
            i <= report.len(),
            stats.staged == capped(change_counts(report.deep_view().take(i as int)).0),
            stats.modified == capped(change_counts(report.deep_view().take(i as int)).1),
            stats.untracked == capped(change_counts(report.deep_view().take(i as int)).2),
        decreases report.len() - i,
    {
        let ghost upto = report.deep_view().take(i as int);
        let ghost next = report.deep_view().take(i + 1);
        assert(next.drop_last() =~= upto);
        match change_of(report[i].as_str()) {
            Change::Staged => {
                stats.staged = stats.staged.saturating_add(1);
            },
            Change::Modified => {
                stats.modified = stats.modified.saturating_add(1);
            },
            Change::Untracked => {
                stats.untracked = stats.untracked.saturating_add(1);
            },
            Change::Nothing => {},
        }
        i += 1;
    }
    assert(report.deep_view().take(i as int) =~= report.deep_view());
    stats
}

/// Whether a status line names a file: whether it is three bytes long at
/// least and a character begins behind the third.
pub open spec fn names_file(line: Seq<char>) -> bool {
    encode_utf8(line).len() >= 3 && is_char_boundary(encode_utf8(line), 3)
}

/// The file that a status line names: what follows the first three bytes,
/// which hold the two status characters and a blank, and of a rename only
/// the new name.
pub open spec fn file_in(line: Seq<char>) -> Seq<char> {
    after_last_match(decode_utf8(encode_utf8(line).skip(3)), " -> "@)
}

/// The files that a report names; lines that name none are passed over.
pub open spec fn files_in(report: Seq<Seq<char>>) -> Seq<Seq<char>>
    decreases report.len(),
{
    if report.len() == 0 {
        Seq::<Seq<char>>::empty()
    } else if names_file(report.last()) {
        files_in(report.drop_last()).push(file_in(report.last()))
    } else {
        files_in(report.drop_last())
    }
}

/// The names of the files with uncommitted changes, in the order in which
/// git reports them.
pub fn get_uncommitted_files(ran: &Result<CommandOutput, String>) -> (files: Vec<String>)
    ensures
        files.deep_view() == files_in(status_report(*ran)),
{
    let report = status_lines(ran);
    let mut files: Vec<String> = Vec::new();
    let mut i: usize = 0;
    proof {
        reveal_strlit(" -> ");
    }
    while i < report.len()
        invariant
            i <= report.len(),
            " -> "@.len() == 4,
            files.deep_view() == files_in(report.deep_view().take(i as int)),
        decreases report.len() - i,
    {
        let ghost upto = report.deep_view().take(i as int);
        let ghost next = report.deep_view().take(i + 1);
        assert(next.drop_last() =~= upto);
        let line = report[i].as_str();
        if line.as_bytes().len() >= 3 && line.is_char_boundary(3) {
            let (_status, rest) = line.split_at(3);
            proof {
                encode_utf8_decode_utf8(rest@);
            }
            let name = after_last(rest, " -> ");
            push_str(&mut files, name.as_str());
        }
        i += 1;
    }
    assert(report.deep_view().take(i as int) =~= report.deep_view());
    files
}

/// Whether the branch is merged: whether `git merge-base --is-ancestor`
/// ran and succeeded.
pub fn is_branch_merged(ran: &Result<CommandOutput, String>) -> (merged: bool)
    ensures
        merged == match *ran {
            Ok(out) => out.success,
            Err(_) => false,
        },
{
    match ran {
        Ok(out) => out.success,
        Err(_) => false,
    }
}

/// What became of a branch once its worktree was removed.
#[derive(Debug, Clone, Copy)]
pub struct BranchCleanupResult {
    pub was_merged: bool,
}

fn cleanup_branch_internal(
    repo_root: &str,
    branch: &str,
    merged: &Result<CommandOutput, String>,
    verbose: bool,
) -> (plan: (BranchCleanupResult, Option<GitCommand>))
    ensures
        plan.0.was_merged == match *merged {
            Ok(out) => out.success,
            Err(_) => false,
        },
        plan.1 is Some == plan.0.was_merged,
        plan.1 matches Some(cmd) ==> cmd@ == (GitCommandView {
            dir: repo_root@,
            args: seq!["branch"@, "-d"@, branch@],
            mode: if verbose {
                Mode::Verbose
            } else {
                Mode::Quiet
            },
            failure: "Failed to delete branch"@,
        }),
{
    let was_merged = is_branch_merged(merged);
    let follow_up = if was_merged {
        if verbose {
            Some(delete_branch_verbose(repo_root, branch))
        } else {
            Some(delete_branch(repo_root, branch))
        }
    } else {
        None
    };
    (BranchCleanupResult { was_merged }, follow_up)
}

/// What to do with a branch whose worktree is gone: delete it if it was
/// merged into the main branch, keep it otherwise. `merged` is what the
/// command of `merged_command` came to. The command to run, if any, comes
/// with the answer; whether it succeeds does not matter.
pub fn cleanup_branch(repo_root: &str, branch: &str, merged: &Result<CommandOutput, String>) -> (plan:
    (BranchCleanupResult, Option<GitCommand>))
    ensures
        plan.0.was_merged == match *merged {
            Ok(out) => out.success,
            Err(_) => false,
        },
        plan.1 is Some == plan.0.was_merged,
        plan.1 matches Some(cmd) ==> cmd@ == (GitCommandView {
            dir: repo_root@,
            args: seq!["branch"@, "-d"@, branch@],
            mode: Mode::Quiet,
            failure: "Failed to delete branch"@,
        }),
{
    cleanup_branch_internal(repo_root, branch, merged, false)
}

/// The same, with git's output shown.
pub fn cleanup_branch_verbose(repo_root: &str, branch: &str, merged: &Result<
    CommandOutput,
    String,
>) -> (plan: (BranchCleanupResult, Option<GitCommand>))
    ensures
        plan.0.was_merged == match *merged {
            Ok(out) => out.success,
            Err(_) => false,
        },
        plan.1 is Some == plan.0.was_merged,
        plan.1 matches Some(cmd) ==> cmd@ == (GitCommandView {
            dir: repo_root@,
            args: seq!["branch"@, "-d"@, branch@],
            mode: Mode::Verbose,
            failure: "Failed to delete branch"@,
        }),
{
    cleanup_branch_internal(repo_root, branch, merged, true)
}

/// Where the reading of a worktree list stands: the worktrees that are
/// complete, and what has been read of the one that is open.
pub struct ListState {
    pub done: Seq<WorktreeView>,
    pub path: Option<Seq<char>>,
    pub has_head: bool,
    pub branch: Option<Seq<char>>,
}

/// The complete worktrees, with the open one if it has a path and a HEAD.
pub open spec fn closed(state: ListState) -> Seq<WorktreeView> {
    match state.path {
        Some(path) => if state.has_head {
            state.done.push(WorktreeView { path: path, branch: state.branch })
        } else {
            state.done
        },
        None => state.done,
    }
}

/// The name of a branch: its ref without `refs/heads/` in front.
pub open spec fn short_branch(full: Seq<char>) -> Seq<char> {
    match after_prefix(full, "refs/heads/"@) {
        Some(short) => short,
        None => full,
    }
}

/// What one line adds. A `worktree` line closes the open worktree and opens
/// the next; a `HEAD` line and a `branch` line say more of the open one;
/// every other line is passed over.
pub open spec fn list_step(state: ListState, line: Seq<char>) -> ListState {
    if starts_with(line, "worktree "@) {
        ListState {
            done: closed(state),
            path: after_prefix(line, "worktree "@),
            has_head: false,
            branch: None,
        }
    } else if starts_with(line, "HEAD "@) {
        ListState { done: state.done, path: state.path, has_head: true, branch: state.branch }
    } else if starts_with(line, "branch "@) {
        ListState {
            done: state.done,
            path: state.path,
            has_head: state.has_head,
            branch: Some(short_branch(line.skip("branch "@.len() as int))),
        }
    } else {
        state
    }
}

/// Where the reading stands after all of `report`.
pub open spec fn list_scan(report: Seq<Seq<char>>) -> ListState
    decreases report.len(),
{
    if report.len() == 0 {
        ListState {
            done: Seq::<WorktreeView>::empty(),
            path: None,
            has_head: false,
            branch: None,
        }
    } else {
        list_step(list_scan(report.drop_last()), report.last())
    }
}

/// The worktrees that `git worktree list --porcelain` reports: one for
/// every `worktree` line that a `HEAD` line follows before the next one.
pub open spec fn worktrees_in(output: Seq<char>) -> Seq<WorktreeView> {
    closed(list_scan(lines_of(output)))
}

/// Reads the output of `git worktree list --porcelain`.
pub fn parse_worktree_list(output: &str) -> (worktrees: Vec<Worktree>)
    ensures
        worktrees.deep_view() == worktrees_in(output@),
{
    let report = lines(output);
    let mut worktrees: Vec<Worktree> = Vec::new();
    let mut current_path: Option<String> = None;
    let mut has_head = false;
    let mut current_branch: Option<String> = None;
    let mut i: usize = 0;
    assert(worktrees.deep_view() =~= Seq::<WorktreeView>::empty());
    while i < report.len()
        invariant
            i <= report.len(),
            list_scan(report.deep_view().take(i as int)) == (ListState {
                done: worktrees.deep_view(),
                path: opt_text(current_path),
                has_head: has_head,
                branch: opt_text(current_branch),
            }),
        decreases report.len() - i,
    {
        let ghost upto = report.deep_view().take(i as int);
        let ghost next = report.deep_view().take(i + 1);
        let ghost done = worktrees.deep_view();
        assert(next.drop_last() =~= upto);
        let line = report[i].as_str();
        match strip_prefix(line, "worktree ") {
            Some(path) => {
                match current_path {
                    Some(open) => {
                        if has_head {
                            let ghost view = WorktreeView {
                                path: open@,
                                branch: opt_text(current_branch),
                            };
                            worktrees.push(Worktree { path: open, branch: current_branch });
                            assert(worktrees.deep_view() =~= done.push(view));
                        }
                    },
                    None => {},
                }
                current_path = Some(path);
                has_head = false;
                current_branch = None;
            },
            None => {
                if has_prefix(line, "HEAD ") {
                    has_head = true;
                } else {
                    match strip_prefix(line, "branch ") {
                        Some(full) => {
                            match strip_prefix(full.as_str(), "refs/heads/") {
                                Some(short) => {
                                    current_branch = Some(short);
                                },
                                None => {
                                    current_branch = Some(full);
                                },
                            }
                        },
                        None => {},
                    }
                }
            },
        }
        i += 1;
    }
    assert(report.deep_view().take(i as int) =~= report.deep_view());
    match current_path {
        Some(open) => {
            if has_head {
                worktrees.push(Worktree { path: open, branch: current_branch });
            }
        },
        None => {},
    }
    worktrees
}

/// The worktrees of a repository, the main one first, from what the command
/// of `list_worktrees_command` came to.
pub fn list_worktrees(ran: &Result<CommandOutput, String>) -> (listed: Result<Vec<Worktree>, String>)
    ensures
        match captured(*ran, "Failed to list worktrees"@) {
            Ok(output) => listed is Ok && listed->Ok_0.deep_view() == worktrees_in(output),
            Err(e) => listed is Err && listed->Err_0@ == e,
        },
{
    match run_git(ran, "Failed to list worktrees") {
        Ok(output) => Ok(parse_worktree_list(output.as_str())),
        Err(e) => Err(e),
    }
}

/// The directory `levels` levels above a path, if the path is that deep.
pub open spec fn ancestor_of(path: Seq<char>, levels: nat) -> Option<Seq<char>>
    decreases levels,
{
    if levels == 0 {
        Some(path)
    } else {
        match parent_of(path) {
            Some(above) => ancestor_of(above, (levels - 1) as nat),
            None => None,
        }
    }
}

/// The main worktree that the `.git` file of a silo points back to. The
/// file reads `gitdir: <main>/.git/worktrees/<name>`; the main worktree is
/// three levels above that directory.
pub open spec fn main_worktree_in(content: Seq<char>) -> Option<Seq<char>> {
    match after_prefix(content, "gitdir: "@) {
        Some(rest) => ancestor_of(trimmed(rest), 3),
        None => None,
    }
}

/// The main worktree of a silo, from the content of the silo's `.git` file.
pub fn get_main_worktree_from_silo(content: &str) -> (main: Option<String>)
    ensures
        opt_text(main) == main_worktree_in(content@),
{
    let rest = match strip_prefix(content, "gitdir: ") {
        Some(rest) => rest,
        None => {
            return None;
        },
    };
    let gitdir = trim(rest.as_str());
    proof {
        reveal_with_fuel(ancestor_of, 4);
    }
    let worktrees = match parent(gitdir.as_str()) {
        Some(p) => p,
        None => {
            return None;
        },
    };
    let git_dir = match parent(worktrees.as_str()) {
        Some(p) => p,
        None => {
            return None;
        },
    };
    parent(git_dir.as_str())
}

} // verus!
