//! Configuration: where silos are kept, whether to warn about the shell
//! integration, and the extra arguments that some commands get.

use vstd::prelude::*;
use vstd::string::StringExecFns;
use crate::scan::{after_prefix, has_prefix, starts_with, strip_prefix};
use crate::text::{clone_list, concat_str, opt_text, push_str, res_text, str_eq};

verus! {

/// The entries of a table of extra arguments: a command prefix and the
/// arguments that go behind it.
pub type Entries = Seq<(Seq<char>, Seq<Seq<char>>)>;

/// The position of the first entry for `key`.
pub open spec fn find(entries: Entries, key: Seq<char>) -> Option<int>
    decreases entries.len(),
{
    if entries.len() == 0 {
        None
    } else {
        match find(entries.drop_last(), key) {
            Some(at) => Some(at),
            None => if entries.last().0 == key {
                Some(entries.len() - 1)
            } else {
                None
            },
        }
    }
}

/// The arguments that the table holds for `key`.
pub open spec fn lookup(entries: Entries, key: Seq<char>) -> Option<Seq<Seq<char>>> {
    match find(entries, key) {
        Some(at) => Some(entries[at].1),
        None => None,
    }
}

/// The table with `args` as the arguments for `key`, in the place of what it
/// held for that key, or as a new last entry.
pub open spec fn inserted(entries: Entries, key: Seq<char>, args: Seq<Seq<char>>) -> Entries {
    match find(entries, key) {
        Some(at) => entries.update(at, (key, args)),
        None => entries.push((key, args)),
    }
}

/// The table with `args` behind the arguments that it held for `key`, or as
/// a new last entry.
pub open spec fn appended(entries: Entries, key: Seq<char>, args: Seq<Seq<char>>) -> Entries {
    match find(entries, key) {
        Some(at) => entries.update(at, (key, entries[at].1 + args)),
        None => entries.push((key, args)),
    }
}

/// `base` with every entry of `other` appended in turn.
pub open spec fn merged_entries(base: Entries, other: Entries) -> Entries
    decreases other.len(),
{
    if other.len() == 0 {
        base
    } else {
        appended(merged_entries(base, other.drop_last()), other.last().0, other.last().1)
    }
}

/// No two entries have the same key.
pub open spec fn distinct_keys(entries: Entries) -> bool {
    forall|i: int, j: int| 0 <= i < j < entries.len() ==> entries[i].0 != entries[j].0
}

/// What two tables hold for a key, taken together.
pub open spec fn combined(a: Option<Seq<Seq<char>>>, b: Option<Seq<Seq<char>>>) -> Option<
    Seq<Seq<char>>,
> {
    match (a, b) {
        (Some(x), Some(y)) => Some(x + y),
        (Some(x), None) => Some(x),
        (None, Some(y)) => Some(y),
        (None, None) => None,
    }
}

/// What `find` gives is the first entry with the key.
pub proof fn lemma_find(entries: Entries, key: Seq<char>)
    ensures
        match find(entries, key) {
            Some(at) => 0 <= at < entries.len() && entries[at].0 == key && forall|j: int|
                0 <= j < at ==> entries[j].0 != key,
            None => forall|j: int| 0 <= j < entries.len() ==> entries[j].0 != key,
        },
    decreases entries.len(),
{
    if entries.len() > 0 {
        let rest = entries.drop_last();
        lemma_find(rest, key);
        match find(rest, key) {
            Some(at) => {
                assert(entries[at] == rest[at]);
                assert forall|j: int| 0 <= j < at implies entries[j].0 != key by {
                    assert(rest[j] == entries[j]);
                }
            },
            None => {
                assert forall|j: int| 0 <= j < entries.len() - 1 implies entries[j].0 != key by {
                    assert(rest[j] == entries[j]);
                }
            },
        }
    }
}

/// The first entry with the key is what `find` gives.
pub proof fn lemma_found(entries: Entries, key: Seq<char>, at: int)
    requires
        0 <= at < entries.len(),
        entries[at].0 == key,
        forall|j: int| 0 <= j < at ==> entries[j].0 != key,
    ensures
        find(entries, key) == Some(at),
{
    lemma_find(entries, key);
}

/// Appending keeps the keys distinct and changes what the table holds for
/// the one key only.
pub proof fn lemma_appended(entries: Entries, key: Seq<char>, args: Seq<Seq<char>>, other: Seq<char>)
    requires
        distinct_keys(entries),
    ensures
        distinct_keys(appended(entries, key, args)),
        lookup(appended(entries, key, args), other) == if other == key {
            combined(lookup(entries, key), Some(args))
        } else {
            lookup(entries, other)
        },
{
    let after = appended(entries, key, args);
    lemma_find(entries, key);
    lemma_find(entries, other);
    lemma_find(after, other);
    match find(entries, key) {
        Some(at) => {
            assert forall|j: int| 0 <= j < after.len() implies after[j].0 == entries[j].0 by {}
            match find(entries, other) {
                Some(o) => {
                    lemma_found(after, other, o);
                },
                None => {},
            }
        },
        None => {
            assert forall|j: int| 0 <= j < entries.len() implies after[j] == entries[j] by {}
            if other == key {
                lemma_found(after, other, entries.len() as int);
            } else {
                match find(entries, other) {
                    Some(o) => {
                        lemma_found(after, other, o);
                    },
                    None => {},
                }
            }
        },
    }
}

/// A merged table holds, for every key, what the two tables held for it,
/// the arguments of the first before those of the second.
pub proof fn law_merge_combines(base: Entries, other: Entries, key: Seq<char>)
    requires
        distinct_keys(base),
        distinct_keys(other),
    ensures
        distinct_keys(merged_entries(base, other)),
        lookup(merged_entries(base, other), key) == combined(lookup(base, key), lookup(other, key)),
    decreases other.len(),
{
    if other.len() > 0 {
        let rest = other.drop_last();
        assert(distinct_keys(rest)) by {
            assert forall|i: int, j: int| 0 <= i < j < rest.len() implies rest[i].0
                != rest[j].0 by {
                assert(rest[i] == other[i] && rest[j] == other[j]);
            }
        }
        law_merge_combines(base, rest, key);
        law_merge_combines(base, rest, other.last().0);
        lemma_appended(merged_entries(base, rest), other.last().0, other.last().1, key);
        lemma_find(rest, other.last().0);
        lemma_find(rest, key);
        lemma_find(other, key);
        if key == other.last().0 {
            assert forall|j: int| 0 <= j < rest.len() implies rest[j].0 != key by {
                assert(rest[j] == other[j]);
            }
            lemma_found(other, key, other.len() - 1);
        } else {
            match find(rest, key) {
                Some(at) => {
                    assert(other[at] == rest[at]);
                    assert forall|j: int| 0 <= j < at implies other[j].0 != key by {
                        assert(rest[j] == other[j]);
                    }
                    lemma_found(other, key, at);
                },
                None => {
                    assert forall|j: int| 0 <= j < other.len() implies other[j].0 != key by {
                        if j < rest.len() {
                            assert(rest[j] == other[j]);
                        }
                    }
                },
            }
        }
    }
}

/// One entry of a table of extra arguments.
#[derive(Debug, Clone, PartialEq, Eq)]
pub struct ArgEntry {
    /// The words that a command begins with.
    pub prefix: String,
    /// The arguments that go behind those words.
    pub args: Vec<String>,
}

/// Extra arguments by command prefix. A prefix occurs once; the entries keep
/// the order in which their prefixes came in.
#[derive(Debug, PartialEq, Eq, Default)]
pub struct ArgTable {
    entries: Vec<ArgEntry>,
}

impl View for ArgTable {
    type V = Entries;

    closed spec fn view(&self) -> Entries {
        entries_of(self.entries@)
    }
}

impl Clone for ArgTable {
    fn clone(&self) -> (out: ArgTable)
        ensures
            out@ == self@,
    {
        proof {
            use_type_invariant(self);
        }
        let mut entries: Vec<ArgEntry> = Vec::new();
        let mut i: usize = 0;
        while i < self.entries.len()
            invariant
                i <= self.entries.len(),
                entries_of(entries@) == self@.take(i as int),
            decreases self.entries.len() - i,
        {
            let ghost before = entries_of(entries@);
            entries.push(
                ArgEntry {
                    prefix: self.entries[i].prefix.clone(),
                    args: clone_list(&self.entries[i].args),
                },
            );
            assert(entries_of(entries@) =~= before.push(self@[i as int]));
            i += 1;
        }
        ArgTable { entries }
    }
}

/// The entries as pairs of a prefix and its arguments.
pub open spec fn entries_of(entries: Seq<ArgEntry>) -> Entries {
    Seq::new(entries.len(), |i: int| (entries[i].prefix@, entries[i].args.deep_view()))
}

impl ArgTable {
    #[verifier::type_invariant]
    spec fn well_formed(&self) -> bool {
        distinct_keys(self@)
    }

    /// A table without entries.
    pub fn new() -> (table: ArgTable)
        ensures
            table@ == Seq::<(Seq<char>, Seq<Seq<char>>)>::empty(),
    {
        let entries: Vec<ArgEntry> = Vec::new();
        ArgTable { entries }
    }

    /// The number of entries, no two of which have the same prefix.
    pub fn len(&self) -> (n: usize)
        ensures
            n == self@.len(),
            distinct_keys(self@),
    {
        proof {
            use_type_invariant(self);
        }
        self.entries.len()
    }

    /// Whether the table has no entry.
    pub fn is_empty(&self) -> (empty: bool)
        ensures
            empty == (self@.len() == 0),
    {
        self.entries.len() == 0
    }

    /// The prefix of the entry at `at`.
    pub fn prefix_at(&self, at: usize) -> (prefix: &str)
        requires
            at < self@.len(),
        ensures
            prefix@ == self@[at as int].0,
    {
        self.entries[at].prefix.as_str()
    }

    /// The arguments of the entry at `at`.
    pub fn args_at(&self, at: usize) -> (args: &Vec<String>)
        requires
            at < self@.len(),
        ensures
            args.deep_view() == self@[at as int].1,
    {
        &self.entries[at].args
    }

    fn position(&self, key: &str) -> (at: Option<usize>)
        ensures
            match at {
                Some(i) => find(self@, key@) == Some(i as int) && i < self@.len(),
                None => find(self@, key@) is None,
            },
    {
        let mut i: usize = 0;
        while i < self.entries.len()
            invariant
                i <= self.entries.len(),
                forall|j: int| 0 <= j < i ==> self@[j].0 != key@,
            decreases self.entries.len() - i,
        {
            if str_eq(self.entries[i].prefix.as_str(), key) {
                proof {
                    lemma_found(self@, key@, i as int);
                }
                return Some(i);
            }
            i += 1;
        }
        proof {
            lemma_find(self@, key@);
        }
        None
    }

    /// The arguments for the prefix `key`, if the table has that prefix.
    pub fn get(&self, key: &str) -> (args: Option<&Vec<String>>)
        ensures
            match lookup(self@, key@) {
                Some(held) => args is Some && args->Some_0.deep_view() == held,
                None => args is None,
            },
    {
        match self.position(key) {
            Some(at) => Some(&self.entries[at].args),
            None => None,
        }
    }

    /// The entries with `entry` at `at`, or behind the others where `at` is
    /// `None`.
    fn with_entry(&self, at: Option<usize>, entry: ArgEntry) -> (out: Vec<ArgEntry>)
        requires
            at matches Some(i) ==> i < self@.len(),
        ensures
            entries_of(out@) == match at {
                Some(i) => self@.update(i as int, (entry.prefix@, entry.args.deep_view())),
                None => self@.push((entry.prefix@, entry.args.deep_view())),
            },
    {
        let ghost pair = (entry.prefix@, entry.args.deep_view());
        let ghost kept = match at {
            Some(i) => self@.update(i as int, pair),
            None => self@,
        };
        let mut out: Vec<ArgEntry> = Vec::new();
        let mut i: usize = 0;
        while i < self.entries.len()
            invariant
                i <= self.entries.len(),
                at matches Some(k) ==> k < self@.len(),
                pair == (entry.prefix@, entry.args.deep_view()),
                kept == match at {
                    Some(i) => self@.update(i as int, pair),
                    None => self@,
                },
                entries_of(out@) == kept.take(i as int),
            decreases self.entries.len() - i,
        {
            let ghost before = entries_of(out@);
            let replace = match at {
                Some(k) => k == i,
                None => false,
            };
            if replace {
                out.push(
                    ArgEntry { prefix: entry.prefix.clone(), args: clone_list(&entry.args) },
                );
            } else {
                out.push(
                    ArgEntry {
                        prefix: self.entries[i].prefix.clone(),
                        args: clone_list(&self.entries[i].args),
                    },
                );
            }
            assert(entries_of(out@) =~= before.push(kept[i as int]));
            i += 1;
        }
        assert(kept.take(i as int) =~= kept);
        if at.is_none() {
            out.push(entry);
        }
        out
    }

    /// Sets the arguments for the prefix `key`, in the place of those that
    /// the table held for it.
    pub fn insert(&mut self, key: String, args: Vec<String>)
        ensures
            final(self)@ == inserted(old(self)@, key@, args.deep_view()),
    {
        proof {
            use_type_invariant(&*self);
            lemma_find(self@, key@);
        }
        let at = self.position(key.as_str());
        let entries = self.with_entry(at, ArgEntry { prefix: key, args });
        *self = ArgTable { entries };
    }

    /// Puts `args` behind the arguments for the prefix `key`, or makes a new
    /// last entry of them.
    pub fn append(&mut self, key: &str, args: &Vec<String>)
        ensures
            final(self)@ == appended(old(self)@, key@, args.deep_view()),
    {
        proof {
            use_type_invariant(&*self);
            lemma_find(self@, key@);
        }
        let at = self.position(key);
        let mut longer: Vec<String> = match at {
            Some(i) => clone_list(&self.entries[i].args),
            None => Vec::new(),
        };
        let ghost held = longer.deep_view();
        let mut k: usize = 0;
        while k < args.len()
            invariant
                k <= args.len(),
                longer.deep_view() == held + args.deep_view().take(k as int),
            decreases args.len() - k,
        {
            push_str(&mut longer, args[k].as_str());
            k += 1;
        }
        assert(args.deep_view().take(k as int) =~= args.deep_view());
        let entries = self.with_entry(at, ArgEntry { prefix: String::from_str(key), args: longer });
        *self = ArgTable { entries };
    }
}

/// The settings of the tool. A setting that is `None` was not given.
#[derive(Debug, Default, Clone)]
pub struct Config {
    /// Where silos are kept.
    pub worktree_dir: Option<String>,
    /// Whether to warn when the shell integration is not enabled.
    pub warn_shell_integration: Option<bool>,
    /// Extra arguments for commands, by command prefix.
    pub extra_command_args: ArgTable,
}

/// The directory for silos where none is given, below the home directory.
pub const DEFAULT_WORKTREE_DIR: &'static str = ".local/var/silo";

/// The configuration file of the user, below the home directory.
pub const USER_CONFIG_PATH: &'static str = ".config/silo.toml";

/// The name of the configuration file of a directory.
pub const LOCAL_CONFIG_NAME: &'static str = ".silo.toml";

/// The directory for silos: `~` and a relative path are taken from the home
/// directory, an absolute path stands for itself.
pub open spec fn expanded(path: Seq<char>, home: Seq<char>) -> Seq<char> {
    match after_prefix(path, "~/"@) {
        Some(below) => home + "/"@ + below,
        None => if path == "~"@ {
            home
        } else if starts_with(path, "/"@) {
            path
        } else {
            home + "/"@ + path
        },
    }
}

impl Config {
    /// A configuration in which nothing is set.
    pub fn empty() -> (config: Config)
        ensures
            config.worktree_dir is None,
            config.warn_shell_integration is None,
            config.extra_command_args@.len() == 0,
    {
        Config {
            worktree_dir: None,
            warn_shell_integration: None,
            extra_command_args: ArgTable::new(),
        }
    }

    /// The configuration of one file, which has to exist: `found` is `None`
    /// where it does not, and what reading and parsing came to otherwise.
    pub fn load_file(path: &str, found: Option<Result<Config, String>>) -> (loaded: Result<
        Config,
        String,
    >)
        ensures
            match found {
                None => loaded is Err && loaded->Err_0@ == "Config file not found: "@ + path@,
                Some(read) => loaded == read,
            },
    {
        match found {
            None => Err(concat_str("Config file not found: ", path)),
            Some(read) => read,
        }
    }

    /// The configuration of one file that need not exist: a file that is not
    /// there sets nothing.
    pub fn load_from_path(found: Option<Result<Config, String>>) -> (loaded: Result<
        Config,
        String,
    >)
        ensures
            match found {
                None => loaded is Ok && loaded->Ok_0.worktree_dir is None
                    && loaded->Ok_0.warn_shell_integration is None
                    && loaded->Ok_0.extra_command_args@.len() == 0,
                Some(read) => loaded == read,
            },
    {
        match found {
            None => Ok(Config::empty()),
            Some(read) => read,
        }
    }

    /// This configuration with `other` laid over it: a setting of `other`
    /// wins where it is given; the extra arguments of both are kept, those
    /// of `other` behind.
    pub fn merge(self, other: Config) -> (merged: Config)
        ensures
            opt_text(merged.worktree_dir) == if other.worktree_dir is Some {
                opt_text(other.worktree_dir)
            } else {
                opt_text(self.worktree_dir)
            },
            merged.warn_shell_integration == if other.warn_shell_integration is Some {
                other.warn_shell_integration
            } else {
                self.warn_shell_integration
            },
            merged.extra_command_args@ == merged_entries(
                self.extra_command_args@,
                other.extra_command_args@,
            ),
    {
        let mut table = self.extra_command_args;
        let ghost base = table@;
        let ghost added = other.extra_command_args@;
        let mut i: usize = 0;
        while i < other.extra_command_args.len()
            invariant
                i <= other.extra_command_args@.len(),
                added == other.extra_command_args@,
                table@ == merged_entries(base, added.take(i as int)),
            decreases other.extra_command_args@.len() - i,
        {
            assert(added.take(i + 1).drop_last() =~= added.take(i as int));
            table.append(
                other.extra_command_args.prefix_at(i),
                other.extra_command_args.args_at(i),
            );
            i += 1;
        }
        assert(added.take(i as int) =~= added);
        Config {
            worktree_dir: match other.worktree_dir {
                Some(dir) => Some(dir),
                None => self.worktree_dir,
            },
            warn_shell_integration: match other.warn_shell_integration {
                Some(warn) => Some(warn),
                None => self.warn_shell_integration,
            },
            extra_command_args: table,
        }
    }

    /// The configuration in force: that of the user, then that of the main
    /// worktree where the current directory is a silo, then that of the
    /// current directory, each laid over the ones before.
    pub fn load(user: Config, main_worktree: Option<Config>, local: Option<Config>) -> (config:
        Config)
        ensures
            config.extra_command_args@ == merged_entries(
                merged_entries(
                    user.extra_command_args@,
                    match main_worktree {
                        Some(c) => c.extra_command_args@,
                        None => Seq::<(Seq<char>, Seq<Seq<char>>)>::empty(),
                    },
                ),
                match local {
                    Some(c) => c.extra_command_args@,
                    None => Seq::<(Seq<char>, Seq<Seq<char>>)>::empty(),
                },
            ),
            opt_text(config.worktree_dir) == match local {
                Some(l) if l.worktree_dir is Some => opt_text(l.worktree_dir),
                _ => match main_worktree {
                    Some(m) if m.worktree_dir is Some => opt_text(m.worktree_dir),
                    _ => opt_text(user.worktree_dir),
                },
            },
            config.warn_shell_integration == match local {
                Some(l) if l.warn_shell_integration is Some => l.warn_shell_integration,
                _ => match main_worktree {
                    Some(m) if m.warn_shell_integration is Some => m.warn_shell_integration,
                    _ => user.warn_shell_integration,
                },
            },
    {
        let mut config = user;
        match main_worktree {
            Some(over) => {
                config = config.merge(over);
            },
            None => {},
        }
        match local {
            Some(over) => {
                config = config.merge(over);
            },
            None => {},
        }
        config
    }

    /// The extra arguments for commands.
    pub fn extra_command_args(&self) -> (table: &ArgTable)
        ensures
            table == &self.extra_command_args,
    {
        &self.extra_command_args
    }

    /// Whether to warn when the shell integration is not enabled: yes,
    /// unless the configuration says no.
    pub fn warn_shell_integration(&self) -> (warn: bool)
        ensures
            warn == match self.warn_shell_integration {
                Some(w) => w,
                None => true,
            },
    {
        match self.warn_shell_integration {
            Some(w) => w,
            None => true,
        }
    }

    /// The directory in which silos are kept. `home` is the home directory,
    /// `None` where the environment names none.
    pub fn get_worktree_dir(&self, home: Option<&str>) -> (dir: Result<String, String>)
        ensures
            res_text(dir) == match home {
                None => Err::<Seq<char>, Seq<char>>("HOME environment variable not set"@),
                Some(h) => Ok(
                    expanded(
                        match self.worktree_dir {
                            Some(d) => d@,
                            None => DEFAULT_WORKTREE_DIR@,
                        },
                        h@,
                    ),
                ),
            },
    {
        let home = match home {
            None => {
                return Err(String::from_str("HOME environment variable not set"));
            },
            Some(h) => h,
        };
        let path: &str = match &self.worktree_dir {
            Some(d) => d.as_str(),
            None => DEFAULT_WORKTREE_DIR,
        };
        match strip_prefix(path, "~/") {
            Some(below) => {
                let mut out = concat_str(home, "/");
                out.append(below.as_str());
                Ok(out)
            },
            None => {
                if str_eq(path, "~") {
                    Ok(String::from_str(home))
                } else if has_prefix(path, "/") {
                    Ok(String::from_str(path))
                } else {
                    let mut out = concat_str(home, "/");
                    out.append(path);
                    Ok(out)
                }
            },
        }
    }
}

/// The keys at the top level of a TOML document, in the order in which the
/// parser keeps them; `None` for a text that is no TOML document.
pub uninterp spec fn toml_keys_of(contents: Seq<char>) -> Option<Seq<Seq<char>>>;

/// The keys of an optional list of strings.
pub open spec fn opt_list(keys: Option<Vec<String>>) -> Option<Seq<Seq<char>>> {
    match keys {
        Some(list) => Some(list.deep_view()),
        None => None,
    }
}

/// Parsing a text into a `toml::Table` and `Map::keys` of the toml crate:
/// the top-level keys of the document, which depend on the text alone;
/// nothing where the text does not parse.
#[verifier::external_body]
fn toml_keys(contents: &str) -> (keys: Option<Vec<String>>)
    ensures
        opt_list(keys) == toml_keys_of(contents@),
{
    contents.parse::<toml::Table>().ok().map(|table| table.keys().cloned().collect())
}

/// Whether a top-level key is a setting of the tool.
pub open spec fn known_key(key: Seq<char>) -> bool {
    key == "worktree_dir"@ || key == "warn_shell_integration"@ || key == "extra_command_args"@
}

/// Those of the first `upto` keys that are no setting of the tool.
pub open spec fn unknown_of(keys: Seq<Seq<char>>, upto: int) -> Seq<Seq<char>>
    decreases upto,
{
    if upto <= 0 {
        Seq::<Seq<char>>::empty()
    } else if known_key(keys[upto - 1]) {
        unknown_of(keys, upto - 1)
    } else {
        unknown_of(keys, upto - 1).push(keys[upto - 1])
    }
}

/// The keys among `keys` that are no setting of the tool, in order.
pub fn unknown_among(keys: &Vec<String>) -> (unknown: Vec<String>)
    ensures
        unknown.deep_view() == unknown_of(keys.deep_view(), keys.len() as int),
{
    let mut unknown: Vec<String> = Vec::new();
    let mut i: usize = 0;
    while i < keys.len()
        invariant
            i <= keys.len(),
            unknown.deep_view() == unknown_of(keys.deep_view(), i as int),
        decreases keys.len() - i,
    {
        let key = keys[i].as_str();
        let known = str_eq(key, "worktree_dir") || str_eq(key, "warn_shell_integration")
            || str_eq(key, "extra_command_args");
        if !known {
            push_str(&mut unknown, key);
        }
        i += 1;
    }
    unknown
}

/// The top-level keys of a configuration file that are no setting of the
/// tool and are passed over; none for a text that is no TOML document.
pub fn unknown_config_keys(contents: &str) -> (unknown: Vec<String>)
    ensures
        unknown.deep_view() == match toml_keys_of(contents@) {
            Some(keys) => unknown_of(keys, keys.len() as int),
            None => Seq::<Seq<char>>::empty(),
        },
{
    match toml_keys(contents) {
        Some(keys) => {
            unknown_among(&keys)
        },
        None => {
            let unknown: Vec<String> = Vec::new();
            unknown
        },
    }
}

/// The error for a configuration file that could not be read or parsed:
/// what failed, the file, and the reason.
pub fn load_failure(parsing: bool, path: &str, reason: &str) -> (text: String)
    ensures
        text@ == (if parsing {
            "Failed to parse "@
        } else {
            "Failed to read "@
        }) + path@ + ": "@ + reason@,
{
    let mut text = String::new();
    if parsing {
        text.append("Failed to parse ");
    } else {
        text.append("Failed to read ");
    }
    text.append(path);
    text.append(": ");
    text.append(reason);
    text
}

} // verus!
