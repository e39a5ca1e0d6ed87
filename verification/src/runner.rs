//! Getting a command ready to run in a silo.

use vstd::prelude::*;
use vstd::string::StringExecFns;
use crate::commands::with_extra_args;
use crate::config::{ArgTable, Config};
use crate::text::{join, join_with};

verus! {

/// The command with the extra arguments of the table put in, each set right
/// behind the words of its prefix.
pub fn apply_extra_args(command: &[String], extra_args: &ArgTable) -> (out: Vec<String>)
    ensures
        out.deep_view() == with_extra_args(command.deep_view(), extra_args@),
{
    crate::commands::apply_extra_args(command, extra_args)
}

/// The command that is to run: `command` with the extra arguments of the
/// configuration. A command without a single word is an error.
pub fn run_command(command: &[String], config: &Config) -> (ready: Result<Vec<String>, String>)
    ensures
        match ready {
            Ok(words) => command.len() > 0 && words.deep_view() == with_extra_args(
                command.deep_view(),
                config.extra_command_args@,
            ) && words.len() > 0,
            Err(e) => command.len() == 0 && e@ == "No command specified"@,
        },
{
    if command.len() == 0 {
        return Err(String::from_str("No command specified"));
    }
    let words = apply_extra_args(command, config.extra_command_args());
    proof {
        lemma_applied_grows(command.deep_view(), config.extra_command_args@, command.len() as int);
    }
    Ok(words)
}

/// Extra arguments never take a word of the command away.
pub proof fn lemma_applied_grows(command: Seq<Seq<char>>, entries: crate::config::Entries, upto: int)
    requires
        0 <= upto,
    ensures
        crate::commands::applied(command, entries, upto).len() >= upto,
    decreases upto,
{
    if upto > 0 {
        lemma_applied_grows(command, entries, upto - 1);
    }
}

/// The command as one line, a blank between its words.
pub fn command_line(command: &[String]) -> (line: String)
    ensures
        line@ == join_with(command.deep_view(), " "@),
{
    let mut words: Vec<String> = Vec::new();
    let mut i: usize = 0;
    while i < command.len()
        invariant
            i <= command.len(),
            words.deep_view() == command.deep_view().take(i as int),
        decreases command.len() - i,
    {
        crate::text::push_str(&mut words, command[i].as_str());
        i += 1;
    }
    assert(command.deep_view().take(i as int) =~= command.deep_view());
    join(&words, " ")
}

} // verus!
