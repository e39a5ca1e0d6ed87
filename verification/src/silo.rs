//! The silo: one isolated worktree of a repository.

use vstd::prelude::*;
use vstd::string::StringExecFns;
use crate::config::{expanded, Config, DEFAULT_WORKTREE_DIR};
use crate::git::Worktree;
use crate::names::{silo_storage_path, storage_name};
use crate::paths::{file_name, file_name_of, is_within, joined_path, starts_with_path};
use crate::text::{clone_opt, opt_text, res_text, str_eq};

verus! {

/// The identity of a repository: the path of its main worktree. Two
/// repositories are one exactly if their paths are equal character by
/// character; the identity is never shown in the place of a name.
#[derive(Debug, Clone, PartialEq, Eq)]
pub struct RepoId {
    path: String,
}

impl View for RepoId {
    type V = Seq<char>;

    closed spec fn view(&self) -> Seq<char> {
        self.path@
    }
}

impl RepoId {
    /// The identity of the repository whose main worktree is at `path`.
    pub fn new(path: String) -> (id: RepoId)
        ensures
            id@ == path@,
    {
        RepoId { path }
    }

    /// The path of the main worktree.
    pub fn as_str(&self) -> (path: &str)
        ensures
            path@ == self@,
    {
        self.path.as_str()
    }

    /// Whether two identities are one.
    pub fn same_as(&self, other: &RepoId) -> (same: bool)
        ensures
            same == (self@ == other@),
    {
        str_eq(self.path.as_str(), other.path.as_str())
    }
}

/// One isolated worktree.
#[derive(Debug, Clone, PartialEq, Eq)]
pub struct Silo {
    /// The name of the silo's directory.
    pub name: String,
    /// The branch checked out in it; `None` on a detached HEAD.
    pub branch: Option<String>,
    /// The repository that the silo belongs to.
    pub main_worktree: RepoId,
    /// The path where the silo itself is stored.
    pub storage_path: String,
    /// The repository's name.
    pub repo_name: String,
}

/// What a silo holds, as plain sequences of characters.
pub struct SiloView {
    pub name: Seq<char>,
    pub branch: Option<Seq<char>>,
    pub main_worktree: Seq<char>,
    pub storage_path: Seq<char>,
    pub repo_name: Seq<char>,
}

impl SiloView {
    /// The branch's name, or the silo's own name on a detached HEAD.
    pub open spec fn branch_or_name(self) -> Seq<char> {
        match self.branch {
            Some(b) => b,
            None => self.name,
        }
    }
}

impl View for Silo {
    type V = SiloView;

    open spec fn view(&self) -> SiloView {
        SiloView {
            name: self.name@,
            branch: opt_text(self.branch),
            main_worktree: self.main_worktree@,
            storage_path: self.storage_path@,
            repo_name: self.repo_name@,
        }
    }
}

impl Silo {
    /// A silo that holds the same as this one.
    pub fn duplicate(&self) -> (out: Silo)
        ensures
            out@ == self@,
    {
        Silo {
            name: self.name.clone(),
            branch: clone_opt(&self.branch),
            main_worktree: RepoId::new(String::from_str(self.main_worktree.as_str())),
            storage_path: self.storage_path.clone(),
            repo_name: self.repo_name.clone(),
        }
    }

    /// Whether two silos hold the same.
    pub fn same_as(&self, other: &Silo) -> (same: bool)
        ensures
            same == (self@ == other@),
    {
        let same_branch = match (&self.branch, &other.branch) {
            (Some(a), Some(b)) => str_eq(a.as_str(), b.as_str()),
            (None, None) => true,
            _ => false,
        };
        same_branch && str_eq(self.name.as_str(), other.name.as_str())
            && self.main_worktree.same_as(&other.main_worktree) && str_eq(self.storage_path.as_str(), other.storage_path.as_str()) && str_eq(
            self.repo_name.as_str(),
            other.repo_name.as_str(),
        )
    }

    /// The branch's name, or the silo's own name on a detached HEAD.
    pub fn branch_name(&self) -> (out: &str)
        ensures
            out@ == self@.branch_or_name(),
    {
        match &self.branch {
            Some(b) => b.as_str(),
            None => self.name.as_str(),
        }
    }
}

/// The directory under which all silos are kept, as the configuration
/// gives it. `home` is the home directory, `None` where the environment
/// names none.
pub fn get_silo_base_dir(config: &Config, home: Option<&str>) -> (dir: Result<String, String>)
    ensures
        res_text(dir) == base_dir_of(*config, crate::text::opt_text_ref(home)),
{
    config.get_worktree_dir(home)
}

/// The directory for silos, or the error that the home directory is not
/// known.
pub open spec fn base_dir_of(config: Config, home: Option<Seq<char>>) -> Result<Seq<char>, Seq<char>> {
    match home {
        None => Err("HOME environment variable not set"@),
        Some(h) => Ok(
            expanded(
                match config.worktree_dir {
                    Some(d) => d@,
                    None => DEFAULT_WORKTREE_DIR@,
                },
                h,
            ),
        ),
    }
}

/// Where the silo of `branch` in a repository is kept: under the base
/// directory, in the repository's storage directory.
pub fn get_silo_path(
    config: &Config,
    home: Option<&str>,
    repo_name: &str,
    repo_path: &str,
    branch: &str,
) -> (path: Result<String, String>)
    ensures
        res_text(path) == match base_dir_of(*config, crate::text::opt_text_ref(home)) {
            Ok(base) => Ok(
                joined_path(joined_path(base, storage_name(repo_name@, repo_path@)), branch@),
            ),
            Err(e) => Err(e),
        },
{
    match get_silo_base_dir(config, home) {
        Ok(base) => Ok(silo_storage_path(base.as_str(), repo_name, repo_path, branch)),
        Err(e) => Err(e),
    }
}

/// Whether a path lies where silos are kept. `base` is the base directory,
/// `None` where it could not be had; both paths are taken as they are.
pub fn is_silo_path(path: &str, base: Option<&str>) -> (inside: bool)
    ensures
        inside == match base {
            Some(b) => is_within(path@, b@),
            None => false,
        },
{
    match base {
        Some(b) => starts_with_path(path, b),
        None => false,
    }
}

/// Whether the worktree at `at` is taken for a silo: every worktree but the
/// first that is flagged and whose path ends in a name.
pub open spec fn is_taken(worktrees: Seq<Worktree>, flags: Seq<bool>, at: int) -> bool {
    at >= 1 && at < flags.len() && flags[at] && file_name_of(worktrees[at].path@) is Some
}

/// The silo that a worktree of the repository at `repo_root` is.
pub open spec fn silo_for(worktree: Worktree, repo_root: Seq<char>, repo_name: Seq<char>) -> SiloView {
    SiloView {
        name: match file_name_of(worktree.path@) {
            Some(n) => n,
            None => Seq::<char>::empty(),
        },
        branch: opt_text(worktree.branch),
        main_worktree: repo_root,
        storage_path: worktree.path@,
        repo_name: repo_name,
    }
}

/// The silos among the first `upto` worktrees.
pub open spec fn silos_among(
    worktrees: Seq<Worktree>,
    flags: Seq<bool>,
    repo_root: Seq<char>,
    repo_name: Seq<char>,
    upto: int,
) -> Seq<SiloView>
    decreases upto,
{
    if upto <= 0 {
        Seq::<SiloView>::empty()
    } else {
        let before = silos_among(worktrees, flags, repo_root, repo_name, upto - 1);
        if is_taken(worktrees, flags, upto - 1) {
            before.push(silo_for(worktrees[upto - 1], repo_root, repo_name))
        } else {
            before
        }
    }
}

/// Where both flags are set.
pub open spec fn both(a: Seq<bool>, b: Seq<bool>) -> Seq<bool> {
    Seq::new(
        if a.len() <= b.len() {
            a.len()
        } else {
            b.len()
        },
        |i: int| a[i] && b[i],
    )
}

/// The views of a list of silos.
pub open spec fn views_of(silos: Seq<Silo>) -> Seq<SiloView> {
    Seq::new(silos.len(), |i: int| silos[i]@)
}

/// What collecting the silos of a repository comes to: the error of the
/// listing, the error that the repository's path ends in no name, or the
/// silos.
pub open spec fn collected(
    repo_root: Seq<char>,
    listed: Result<Vec<Worktree>, String>,
    flags: Seq<bool>,
) -> Result<Seq<SiloView>, Seq<char>> {
    match listed {
        Err(e) => Err(e@),
        Ok(worktrees) => match file_name_of(repo_root) {
            None => Err("Repository path has non-UTF-8 directory name"@),
            Some(repo_name) => Ok(
                silos_among(worktrees@, flags, repo_root, repo_name, worktrees@.len() as int),
            ),
        },
    }
}

fn gather(repo_root: &str, listed: &Result<Vec<Worktree>, String>, flags: &[bool], clean: Option<
    &[bool],
>) -> (silos: Result<Vec<Silo>, String>)
    ensures
        match collected(
            repo_root@,
            *listed,
            match clean {
                Some(c) => both(flags@, c@),
                None => flags@,
            },
        ) {
            Ok(wanted) => silos is Ok && views_of(silos->Ok_0@) == wanted,
            Err(e) => silos is Err && silos->Err_0@ == e,
        },
{
    let worktrees = match listed {
        Ok(worktrees) => worktrees,
        Err(e) => {
            return Err(e.clone());
        },
    };
    let repo_name = match file_name(repo_root) {
        Some(n) => n,
        None => {
            return Err(String::from_str("Repository path has non-UTF-8 directory name"));
        },
    };
    let ghost marks = match clean {
        Some(c) => both(flags@, c@),
        None => flags@,
    };
    let mut silos: Vec<Silo> = Vec::new();
    let mut i: usize = 0;
    while i < worktrees.len()
        invariant
            i <= worktrees.len(),
            marks == match clean {
                Some(c) => both(flags@, c@),
                None => flags@,
            },
            views_of(silos@) == silos_among(worktrees@, marks, repo_root@, repo_name@, i as int),
        decreases worktrees.len() - i,
    {
        let flagged = i < flags.len() && flags[i] && match clean {
            Some(c) => i < c.len() && c[i],
            None => true,
        };
        if i >= 1 && flagged {
            match file_name(worktrees[i].path.as_str()) {
                Some(name) => {
                    let silo = Silo {
                        name,
                        branch: clone_opt(&worktrees[i].branch),
                        main_worktree: RepoId::new(String::from_str(repo_root)),
                        storage_path: worktrees[i].path.clone(),
                        repo_name: repo_name.clone(),
                    };
                    silos.push(silo);
                },
                None => {},
            }
        }
        i += 1;
    }
    Ok(silos)
}

/// The silos of the repository at `repo_root`.
///
/// `listed` is what listing the repository's worktrees came to. `in_base`
/// says of every worktree, in order, whether it lies where silos are kept.
/// The first worktree is the main one and never a silo; every other
/// worktree that lies there and whose path ends in a name is one.
pub fn collect_silos_for_repo(repo_root: &str, listed: &Result<Vec<Worktree>, String>, in_base: &[bool]) -> (silos:
    Result<Vec<Silo>, String>)
    ensures
        match collected(repo_root@, *listed, in_base@) {
            Ok(wanted) => silos is Ok && views_of(silos->Ok_0@) == wanted,
            Err(e) => silos is Err && silos->Err_0@ == e,
        },
{
    gather(repo_root, listed, in_base, None)
}

/// The silos of the repository at `repo_root` that can be pruned: those
/// without uncommitted changes. `clean` says of every worktree, in order,
/// whether it has none.
pub fn collect_prunable_repo(
    repo_root: &str,
    listed: &Result<Vec<Worktree>, String>,
    in_base: &[bool],
    clean: &[bool],
) -> (silos: Result<Vec<Silo>, String>)
    ensures
        match collected(repo_root@, *listed, both(in_base@, clean@)) {
            Ok(wanted) => silos is Ok && views_of(silos->Ok_0@) == wanted,
            Err(e) => silos is Err && silos->Err_0@ == e,
        },
{
    gather(repo_root, listed, in_base, Some(clean))
}

/// Whether one of the silos is stored at `path`.
pub open spec fn stored_at(silos: Seq<SiloView>, path: Seq<char>) -> bool {
    exists|i: int| 0 <= i < silos.len() && #[trigger] silos[i].storage_path == path
}

/// `all` with those of `more` behind it that are stored where no silo
/// before them is.
pub open spec fn with_new(all: Seq<SiloView>, more: Seq<SiloView>, upto: int) -> Seq<SiloView>
    decreases upto,
{
    if upto <= 0 {
        all
    } else {
        let before = with_new(all, more, upto - 1);
        if stored_at(before, more[upto - 1].storage_path) {
            before
        } else {
            before.push(more[upto - 1])
        }
    }
}

/// Adds the silos of one repository to those collected so far, leaving out
/// every silo whose storage path is in the list already.
pub fn add_silos(all: &mut Vec<Silo>, more: Vec<Silo>)
    ensures
        views_of(final(all)@) == with_new(views_of(old(all)@), views_of(more@), more@.len() as int),
{
    let ghost start = views_of(all@);
    let mut i: usize = 0;
    while i < more.len()
        invariant
            i <= more.len(),
            views_of(all@) == with_new(start, views_of(more@), i as int),
        decreases more.len() - i,
    {
        let mut seen = false;
        let mut k: usize = 0;
        while k < all.len()
            invariant_except_break
                !seen,
                forall|j: int| 0 <= j < k ==> all@[j].storage_path@ != more@[i as int].storage_path@,
            invariant
                k <= all.len(),
                i < more.len(),
            ensures
                seen == stored_at(views_of(all@), more@[i as int].storage_path@),
            decreases all.len() - k,
        {
            if str_eq(all[k].storage_path.as_str(), more[i].storage_path.as_str()) {
                seen = true;
                assert(views_of(all@)[k as int].storage_path == more@[i as int].storage_path@);
                break ;
            }
            k += 1;
        }
        if !seen {
            all.push(more[i].duplicate());
        }
        i += 1;
    }
}

} // verus!
