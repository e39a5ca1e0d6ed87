//! Removing a silo: what stands in the way, and what removal does.

use vstd::prelude::*;
use vstd::string::StringExecFns;
use crate::git::{remove_worktree, remove_worktree_verbose, GitCommand, GitCommandView, Mode,
    UncommittedStats, Worktree, removal_args};
use crate::numbers::{decimal, push_decimal};
use crate::process::ProcessInfo;
use crate::silo::Silo;
use crate::text::{concat_str, join, join_with, push_str};

verus! {

/// A reason why a silo is not removed unless removal is forced.
#[derive(Debug, Clone)]
pub enum RemovalBlocker {
    /// The silo has uncommitted changes.
    UncommittedChanges(UncommittedStats),
    /// Processes are running in the silo.
    ActiveProcesses(Vec<ProcessInfo>),
    /// The silo has commits that the main branch lacks.
    UnmergedCommits(u32),
}

/// One process as a blocker shows it: its number and, in brackets, its
/// command.
pub open spec fn process_shown(process: ProcessInfo) -> Seq<char> {
    decimal(process.pid as nat) + " ("@ + process.command@ + ")"@
}

/// Every process as a blocker shows it, in order.
pub open spec fn processes_shown(processes: Seq<ProcessInfo>) -> Seq<Seq<char>> {
    Seq::new(processes.len(), |i: int| process_shown(processes[i]))
}

/// How a blocker reads.
pub open spec fn blocker_message(blocker: RemovalBlocker) -> Seq<char> {
    match blocker {
        RemovalBlocker::UncommittedChanges(stats) => "Uncommitted changes: "@ + decimal(
            stats.staged as nat,
        ) + " staged, "@ + decimal(stats.modified as nat) + " modified, "@ + decimal(
            stats.untracked as nat,
        ) + " untracked"@,
        RemovalBlocker::ActiveProcesses(processes) => if processes@.len() == 0 {
            "Active processes: 0"@
        } else {
            "Active processes ("@ + decimal(processes@.len()) + "): "@ + join_with(
                processes_shown(processes@),
                ", "@,
            )
        },
        RemovalBlocker::UnmergedCommits(count) => "Unmerged commits: "@ + decimal(count as nat)
            + " commit(s) not in main branch"@,
    }
}

impl RemovalBlocker {
    /// This blocker in words.
    pub fn message(&self) -> (text: String)
        ensures
            text@ == blocker_message(*self),
    {
        match self {
            RemovalBlocker::UncommittedChanges(stats) => {
                let mut text = String::from_str("Uncommitted changes: ");
                push_decimal(&mut text, stats.staged as u64);
                text.append(" staged, ");
                push_decimal(&mut text, stats.modified as u64);
                text.append(" modified, ");
                push_decimal(&mut text, stats.untracked as u64);
                text.append(" untracked");
                text
            },
            RemovalBlocker::ActiveProcesses(processes) => {
                if processes.len() == 0 {
                    return String::from_str("Active processes: 0");
                }
                let ghost wanted = processes_shown(processes@);
                let mut details: Vec<String> = Vec::new();
                let mut i: usize = 0;
                while i < processes.len()
                    invariant
                        i <= processes.len(),
                        wanted == processes_shown(processes@),
                        details.deep_view() == wanted.take(i as int),
                    decreases processes.len() - i,
                {
                    let mut shown = String::new();
                    push_decimal(&mut shown, processes[i].pid as u64);
                    shown.append(" (");
                    shown.append(processes[i].command.as_str());
                    shown.append(")");
                    push_str(&mut details, shown.as_str());
                    i += 1;
                }
                assert(wanted.take(i as int) =~= wanted);
                let mut text = String::from_str("Active processes (");
                push_decimal(&mut text, processes.len() as u64);
                text.append("): ");
                let listed = join(&details, ", ");
                text.append(listed.as_str());
                text
            },
            RemovalBlocker::UnmergedCommits(count) => {
                let mut text = String::from_str("Unmerged commits: ");
                push_decimal(&mut text, *count as u64);
                text.append(" commit(s) not in main branch");
                text
            },
        }
    }
}

/// A silo that is not removed, and why.
#[derive(Debug)]
pub struct RemovalError {
    pub silo: Silo,
    pub blockers: Vec<RemovalBlocker>,
}

/// The lines that list blockers, one line each.
pub open spec fn blocker_lines(blockers: Seq<RemovalBlocker>) -> Seq<char>
    decreases blockers.len(),
{
    if blockers.len() == 0 {
        Seq::<char>::empty()
    } else {
        blocker_lines(blockers.drop_last()) + "\n  - "@ + blocker_message(blockers.last())
    }
}

impl RemovalError {
    /// This error in words: the silo, then one line for every blocker.
    pub fn message(&self) -> (text: String)
        ensures
            text@ == "Silo '"@ + self.silo.name@ + "' cannot be removed:"@ + blocker_lines(
                self.blockers@,
            ),
    {
        let mut text = concat_str("Silo '", self.silo.name.as_str());
        text.append("' cannot be removed:");
        let ghost head = text@;
        let mut i: usize = 0;
        while i < self.blockers.len()
            invariant
                i <= self.blockers.len(),
                text@ == head + blocker_lines(self.blockers@.take(i as int)),
            decreases self.blockers.len() - i,
        {
            assert(self.blockers@.take(i + 1).drop_last() =~= self.blockers@.take(i as int));
            text.append("\n  - ");
            let line = self.blockers[i].message();
            text.append(line.as_str());
            i += 1;
        }
        assert(self.blockers@.take(i as int) =~= self.blockers@);
        text
    }
}

/// What stands in the way of removing a silo, in the order in which it is
/// looked for: uncommitted changes, running processes, unmerged commits.
pub open spec fn blockers_for(uncommitted: UncommittedStats, processes: Vec<ProcessInfo>, ahead: u32) -> Seq<
    RemovalBlocker,
> {
    let first = if uncommitted.staged != 0 || uncommitted.modified != 0 || uncommitted.untracked
        != 0 {
        seq![RemovalBlocker::UncommittedChanges(uncommitted)]
    } else {
        Seq::<RemovalBlocker>::empty()
    };
    let second = if processes@.len() > 0 {
        first.push(RemovalBlocker::ActiveProcesses(processes))
    } else {
        first
    };
    if ahead > 0 {
        second.push(RemovalBlocker::UnmergedCommits(ahead))
    } else {
        second
    }
}

/// A silo that may be removed: because nothing stands in the way, or because
/// nobody asked.
#[derive(Debug)]
pub struct RemovableSilo {
    silo: Silo,
    main_branch: String,
    would_delete_branch: bool,
}

impl RemovableSilo {
    /// The silo that is to be removed.
    pub closed spec fn silo_of(self) -> Silo {
        self.silo
    }

    /// The main branch of the silo's repository.
    pub closed spec fn main_branch_of(self) -> Seq<char> {
        self.main_branch@
    }

    /// Whether the silo's branch goes with it.
    pub closed spec fn deletes_branch(self) -> bool {
        self.would_delete_branch
    }

    /// The silo as one that may be removed, if nothing stands in the way.
    ///
    /// `uncommitted`, `processes` and `ahead` say how the silo stands;
    /// `merged` says whether its branch is merged into `main_branch`.
    pub fn try_from(
        silo: Silo,
        uncommitted: UncommittedStats,
        processes: Vec<ProcessInfo>,
        main_branch: String,
        ahead: u32,
        merged: bool,
    ) -> (checked: Result<RemovableSilo, RemovalError>)
        ensures
            match checked {
                Ok(removable) => blockers_for(uncommitted, processes, ahead).len() == 0
                    && removable.silo_of() == silo && removable.main_branch_of() == main_branch@
                    && removable.deletes_branch() == merged,
                Err(error) => error.blockers@ == blockers_for(uncommitted, processes, ahead)
                    && error.blockers@.len() > 0 && error.silo == silo,
            },
    {
        let mut blockers: Vec<RemovalBlocker> = Vec::new();
        if !uncommitted.is_clean() {
            blockers.push(RemovalBlocker::UncommittedChanges(uncommitted));
        }
        if processes.len() > 0 {
            blockers.push(RemovalBlocker::ActiveProcesses(processes));
        }
        if ahead > 0 {
            blockers.push(RemovalBlocker::UnmergedCommits(ahead));
        }
        if blockers.len() > 0 {
            return Err(RemovalError { silo, blockers });
        }
        Ok(RemovableSilo { silo, main_branch, would_delete_branch: merged })
    }

    /// The silo as one that may be removed, whatever its state.
    pub fn from_silo_unchecked(silo: Silo, main_branch: String, merged: bool) -> (removable:
        RemovableSilo)
        ensures
            removable.silo_of() == silo,
            removable.main_branch_of() == main_branch@,
            removable.deletes_branch() == merged,
    {
        RemovableSilo { silo, main_branch, would_delete_branch: merged }
    }

    /// The main branch of a repository: the branch of the first worktree
    /// that git lists, or `main` where git lists none or the first is
    /// detached.
    pub fn get_main_branch(listed: &Result<Vec<Worktree>, String>) -> (branch: String)
        ensures
            branch@ == main_branch_in(*listed),
    {
        main_branch(listed)
    }

    /// The name of the silo.
    pub fn name(&self) -> (name: &str)
        ensures
            name@ == self.silo_of().name@,
    {
        self.silo.name.as_str()
    }

    /// The silo itself.
    pub fn silo(&self) -> (silo: &Silo)
        ensures
            *silo == self.silo_of(),
    {
        &self.silo
    }

    /// What removal would do, line by line.
    pub fn dry_run_lines(&self) -> (report: Vec<String>)
        ensures
            report.deep_view() == seq![
                "Would remove silo: "@ + self.silo_of().name@,
                "  Path: "@ + self.silo_of().storage_path@,
                if self.deletes_branch() {
                    "  Would delete branch '"@ + self.silo_of()@.branch_or_name()
                        + "' (merged into "@ + self.main_branch_of() + ")"@
                } else {
                    "  Would preserve branch '"@ + self.silo_of()@.branch_or_name()
                        + "' (not merged)"@
                },
            ],
    {
        let mut report: Vec<String> = Vec::new();
        let first = concat_str("Would remove silo: ", self.silo.name.as_str());
        push_str(&mut report, first.as_str());
        let second = concat_str("  Path: ", self.silo.storage_path.as_str());
        push_str(&mut report, second.as_str());
        let branch = self.silo.branch_name();
        let mut third = String::new();
        if self.would_delete_branch {
            third.append("  Would delete branch '");
            third.append(branch);
            third.append("' (merged into ");
            third.append(self.main_branch.as_str());
            third.append(")");
        } else {
            third.append("  Would preserve branch '");
            third.append(branch);
            third.append("' (not merged)");
        }
        push_str(&mut report, third.as_str());
        report
    }

    /// The command that removes the silo's worktree: quiet or with git's
    /// output shown.
    pub fn removal_command(&self, force: bool, quiet: bool) -> (cmd: GitCommand)
        ensures
            cmd@ == (GitCommandView {
                dir: self.silo_of().main_worktree@,
                args: removal_args(self.silo_of().storage_path@, force),
                mode: if quiet {
                    Mode::Quiet
                } else {
                    Mode::Verbose
                },
                failure: "Failed to remove worktree"@,
            }),
    {
        if quiet {
            remove_worktree(self.silo.storage_path.as_str(), self.silo.main_worktree.as_str(), force)
        } else {
            remove_worktree_verbose(
                self.silo.storage_path.as_str(),
                self.silo.main_worktree.as_str(),
                force,
            )
        }
    }

    /// What is said once the silo is gone and its branch was kept; nothing
    /// where the branch was merged or output is off.
    pub fn preserved_message(&self, quiet: bool, was_merged: bool) -> (text: Option<String>)
        ensures
            crate::text::opt_text(text) == if !quiet && !was_merged {
                Some(
                    "Preserved branch '"@ + self.silo_of()@.branch_or_name() + "' (not merged)"@,
                )
            } else {
                None
            },
    {
        if !quiet && !was_merged {
            let mut text = concat_str("Preserved branch '", self.silo.branch_name());
            text.append("' (not merged)");
            Some(text)
        } else {
            None
        }
    }
}

/// The branch of the first worktree listed, or `main`.
pub open spec fn main_branch_in(listed: Result<Vec<Worktree>, String>) -> Seq<char> {
    match listed {
        Ok(worktrees) => if worktrees@.len() > 0 {
            match worktrees@[0].branch {
                Some(branch) => branch@,
                None => "main"@,
            }
        } else {
            "main"@
        },
        Err(_) => "main"@,
    }
}

/// The main branch of a repository, from the list of its worktrees.
pub fn main_branch(listed: &Result<Vec<Worktree>, String>) -> (branch: String)
    ensures
        branch@ == main_branch_in(*listed),
{
    match listed {
        Ok(worktrees) => {
            if worktrees.len() > 0 {
                match &worktrees[0].branch {
                    Some(branch) => branch.clone(),
                    None => String::from_str("main"),
                }
            } else {
                String::from_str("main")
            }
        },
        Err(_) => String::from_str("main"),
    }
}

} // verus!
