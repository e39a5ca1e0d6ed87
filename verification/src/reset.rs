//! Resetting a silo to the commit of the main worktree.

use vstd::prelude::*;
use vstd::string::StringExecFns;
use vstd::utf8::{decode_utf8, encode_utf8, encode_utf8_decode_utf8, is_char_boundary};
use crate::git::{UncommittedStats, Worktree};
use crate::removal::{main_branch, main_branch_in, RemovalBlocker};

verus! {

/// What a reset would throw away: uncommitted changes first, then commits
/// that the main branch lacks.
pub open spec fn dirt_of(uncommitted: UncommittedStats, ahead: u32) -> Seq<RemovalBlocker> {
    let first = if uncommitted.staged != 0 || uncommitted.modified != 0 || uncommitted.untracked
        != 0 {
        seq![RemovalBlocker::UncommittedChanges(uncommitted)]
    } else {
        Seq::<RemovalBlocker>::empty()
    };
    if ahead > 0 {
        first.push(RemovalBlocker::UnmergedCommits(ahead))
    } else {
        first
    }
}

/// The work in a silo that a reset would throw away: none for a silo that
/// is clean and has nothing ahead of the main branch.
pub fn check_dirty(uncommitted: UncommittedStats, ahead: u32) -> (blockers: Vec<RemovalBlocker>)
    ensures
        blockers@ == dirt_of(uncommitted, ahead),
{
    let mut blockers: Vec<RemovalBlocker> = Vec::new();
    if !uncommitted.is_clean() {
        blockers.push(RemovalBlocker::UncommittedChanges(uncommitted));
    }
    if ahead > 0 {
        blockers.push(RemovalBlocker::UnmergedCommits(ahead));
    }
    blockers
}

/// The main branch of a repository: the branch of the first worktree that
/// git lists, or `main`.
pub fn get_main_branch(listed: &Result<Vec<Worktree>, String>) -> (branch: String)
    ensures
        branch@ == main_branch_in(*listed),
{
    main_branch(listed)
}

/// A commit as it is shown: its first twelve bytes. A name of twelve bytes
/// or less, and one whose twelfth byte ends no character, is shown whole.
pub open spec fn shortened(commit: Seq<char>) -> Seq<char> {
    let bytes = encode_utf8(commit);
    if bytes.len() > 12 && is_char_boundary(bytes, 12) {
        decode_utf8(bytes.take(12))
    } else {
        commit
    }
}

/// The short form of a commit's name.
pub fn short_commit(commit: &str) -> (short: String)
    ensures
        short@ == shortened(commit@),
{
    if commit.as_bytes().len() > 12 && commit.is_char_boundary(12) {
        let (head, _rest) = commit.split_at(12);
        proof {
            encode_utf8_decode_utf8(head@);
        }
        String::from_str(head)
    } else {
        String::from_str(commit)
    }
}

/// What is said of a reset: that it would happen, or that it did.
pub fn reset_message(silo_name: &str, commit: &str, done: bool) -> (text: String)
    ensures
        text@ == (if done {
            "Reset silo '"@
        } else {
            "Would reset silo '"@
        }) + silo_name@ + "' to commit "@ + shortened(commit@),
{
    let mut text = String::new();
    if done {
        text.append("Reset silo '");
    } else {
        text.append("Would reset silo '");
    }
    text.append(silo_name);
    text.append("' to commit ");
    let short = short_commit(commit);
    text.append(short.as_str());
    text
}

} // verus!
