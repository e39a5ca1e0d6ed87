//! Completions for the command line: what can follow the words typed so
//! far.

use vstd::prelude::*;
use vstd::string::StringExecFns;
use crate::git::Worktree;
use crate::names::{as_ints, entities_of, generate_display_names, minimized};
use crate::order::{in_text_order, order_by_text};
use crate::scan::{replace_char, replaced};
use crate::silo::Silo;
use crate::text::{clone_opt, concat_str, opt_text, str_eq};

verus! {

/// One word that can follow, with a description for the shell to show.
#[derive(Debug, Clone, PartialEq, Eq)]
pub struct Completion {
    pub value: String,
    pub description: Option<String>,
}

/// What a completion holds, as plain sequences of characters.
pub struct CompletionView {
    pub value: Seq<char>,
    pub description: Option<Seq<char>>,
}

impl View for Completion {
    type V = CompletionView;

    open spec fn view(&self) -> CompletionView {
        CompletionView { value: self.value@, description: opt_text(self.description) }
    }
}

impl DeepView for Completion {
    type V = CompletionView;

    open spec fn deep_view(&self) -> CompletionView {
        self@
    }
}

/// A completion as zsh takes it: the value, then a colon and the
/// description if there is one, every colon of the description escaped.
pub open spec fn zsh_form(completion: CompletionView) -> Seq<char> {
    match completion.description {
        Some(text) => completion.value + ":"@ + replaced(text, ':', "\\:"@),
        None => completion.value,
    }
}

impl Completion {
    /// A completion without a description.
    pub fn new(value: &str) -> (completion: Completion)
        ensures
            completion@ == (CompletionView { value: value@, description: None }),
    {
        Completion { value: String::from_str(value), description: None }
    }

    /// A completion with a description.
    pub fn with_desc(value: &str, desc: &str) -> (completion: Completion)
        ensures
            completion@ == (CompletionView { value: value@, description: Some(desc@) }),
    {
        Completion { value: String::from_str(value), description: Some(String::from_str(desc)) }
    }

    /// This completion as zsh takes it.
    pub fn format_zsh(&self) -> (line: String)
        ensures
            line@ == zsh_form(self@),
    {
        match &self.description {
            Some(desc) => {
                let mut line = concat_str(self.value.as_str(), ":");
                let escaped = replace_char(desc.as_str(), ':', "\\:");
                line.append(escaped.as_str());
                line
            },
            None => self.value.clone(),
        }
    }

    /// A completion that holds the same as this one.
    pub fn duplicate(&self) -> (copy: Completion)
        ensures
            copy@ == self@,
    {
        Completion { value: self.value.clone(), description: clone_opt(&self.description) }
    }
}

/// A command of the command line, with the commands below it.
#[derive(Debug)]
pub struct CommandNode {
    pub name: String,
    /// What the command is about, in a line.
    pub about: Option<String>,
    /// The other names of the command that are shown to the user.
    pub aliases: Vec<String>,
    /// Whether the command is kept out of help and completions.
    pub hidden: bool,
    /// Whether the first argument of the command is a silo.
    pub takes_silo: bool,
    pub subcommands: Vec<CommandNode>,
}

/// Whether a command goes by the name `word`.
pub open spec fn answers_to(node: CommandNode, word: Seq<char>) -> bool {
    node.name@ == word || node.aliases.deep_view().contains(word)
}

/// The position of the first command that goes by the name `word`.
pub open spec fn chosen(commands: Seq<CommandNode>, word: Seq<char>) -> Option<int>
    decreases commands.len(),
{
    if commands.len() == 0 {
        None
    } else {
        match chosen(commands.drop_last(), word) {
            Some(at) => Some(at),
            None => if answers_to(commands.last(), word) {
                Some(commands.len() - 1)
            } else {
                None
            },
        }
    }
}

/// The text that describes a command; empty where nothing is said of it.
pub open spec fn about_of(node: CommandNode) -> Seq<char> {
    match node.about {
        Some(text) => text@,
        None => Seq::<char>::empty(),
    }
}

/// The completions for the first `upto` aliases of a command.
pub open spec fn alias_offers(node: CommandNode, upto: int) -> Seq<CompletionView>
    decreases upto,
{
    if upto <= 0 {
        Seq::<CompletionView>::empty()
    } else {
        alias_offers(node, upto - 1).push(
            CompletionView {
                value: node.aliases@[upto - 1]@,
                description: Some(about_of(node) + " (alias)"@),
            },
        )
    }
}

/// The completions that one command gives: its name, then its aliases;
/// none for a hidden command.
pub open spec fn offers_of(node: CommandNode) -> Seq<CompletionView> {
    if node.hidden {
        Seq::<CompletionView>::empty()
    } else {
        seq![CompletionView { value: node.name@, description: Some(about_of(node)) }]
            + alias_offers(node, node.aliases@.len() as int)
    }
}

/// The completions that the first `upto` commands give.
pub open spec fn offered(commands: Seq<CommandNode>, upto: int) -> Seq<CompletionView>
    decreases upto,
{
    if upto <= 0 {
        Seq::<CompletionView>::empty()
    } else {
        offered(commands, upto - 1) + offers_of(commands[upto - 1])
    }
}

/// The completions behind a command that has no commands below it: the
/// silos, as long as the command takes a silo, was typed by its own name
/// and its first argument is being typed.
pub open spec fn leaf_offers(node: CommandNode, typed: Seq<char>, remaining: int, silos: Seq<
    CompletionView,
>) -> Seq<CompletionView> {
    if node.takes_silo && node.name@ == typed && remaining <= 1 {
        silos
    } else {
        Seq::<CompletionView>::empty()
    }
}

/// The completions for the words `args` below the command `node`.
///
/// Without a word, the commands below `node` are offered. A first word that
/// names one of them leads on: into that command if it has commands below
/// it, to the completions of its arguments otherwise. A first word that
/// names none, such as a word half typed, offers the commands below `node`
/// again.
pub open spec fn completions(node: CommandNode, args: Seq<Seq<char>>, silos: Seq<CompletionView>) -> Seq<
    CompletionView,
>
    decreases args.len(),
{
    if args.len() == 0 {
        offered(node.subcommands@, node.subcommands@.len() as int)
    } else {
        match chosen(node.subcommands@, args[0]) {
            Some(at) => if 0 <= at < node.subcommands@.len() && node.subcommands@[at].subcommands@.len()
                > 0 {
                completions(node.subcommands@[at], args.drop_first(), silos)
            } else {
                leaf_offers(node.subcommands@[at], args[0], args.len() - 1, silos)
            },
            None => offered(node.subcommands@, node.subcommands@.len() as int),
        }
    }
}

fn goes_by(node: &CommandNode, word: &str) -> (yes: bool)
    ensures
        yes == answers_to(*node, word@),
{
    if str_eq(node.name.as_str(), word) {
        return true;
    }
    let mut i: usize = 0;
    while i < node.aliases.len()
        invariant
            i <= node.aliases.len(),
            forall|j: int| 0 <= j < i ==> node.aliases.deep_view()[j] != word@,
        decreases node.aliases.len() - i,
    {
        if str_eq(node.aliases[i].as_str(), word) {
            assert(node.aliases.deep_view()[i as int] == word@);
            return true;
        }
        i += 1;
    }
    false
}

proof fn lemma_chosen_first(commands: Seq<CommandNode>, word: Seq<char>, at: int)
    requires
        0 <= at < commands.len(),
        answers_to(commands[at], word),
        forall|j: int| 0 <= j < at ==> !answers_to(commands[j], word),
    ensures
        chosen(commands, word) == Some(at),
    decreases commands.len(),
{
    let rest = commands.drop_last();
    if at < commands.len() - 1 {
        assert(rest[at] == commands[at]);
        assert forall|j: int| 0 <= j < at implies !answers_to(rest[j], word) by {
            assert(rest[j] == commands[j]);
        }
        lemma_chosen_first(rest, word, at);
    } else {
        lemma_chosen_none(rest, word);
    }
}

proof fn lemma_chosen_none(commands: Seq<CommandNode>, word: Seq<char>)
    requires
        forall|j: int| 0 <= j < commands.len() ==> !answers_to(#[trigger] commands[j], word),
    ensures
        chosen(commands, word) is None,
    decreases commands.len(),
{
    if commands.len() > 0 {
        let rest = commands.drop_last();
        assert forall|j: int| 0 <= j < rest.len() implies !answers_to(#[trigger] rest[j], word) by {
            assert(rest[j] == commands[j]);
        }
        lemma_chosen_none(rest, word);
        assert(commands.last() == commands[commands.len() - 1]);
    }
}

/// The completions for the commands below `cmd`.
pub fn subcommands(cmd: &CommandNode) -> (out: Vec<Completion>)
    ensures
        out.deep_view() == offered(cmd.subcommands@, cmd.subcommands@.len() as int),
{
    let mut out: Vec<Completion> = Vec::new();
    let mut i: usize = 0;
    while i < cmd.subcommands.len()
        invariant
            i <= cmd.subcommands.len(),
            out.deep_view() == offered(cmd.subcommands@, i as int),
        decreases cmd.subcommands.len() - i,
    {
        let sub = &cmd.subcommands[i];
        if !sub.hidden {
            let desc: String = match &sub.about {
                Some(text) => text.clone(),
                None => String::new(),
            };
            out.push(Completion::with_desc(sub.name.as_str(), desc.as_str()));
            let ghost named = out.deep_view();
            let label = concat_str(desc.as_str(), " (alias)");
            let mut k: usize = 0;
            while k < sub.aliases.len()
                invariant
                    k <= sub.aliases.len(),
                    label@ == about_of(*sub) + " (alias)"@,
                    out.deep_view() == named + alias_offers(*sub, k as int),
                decreases sub.aliases.len() - k,
            {
                let ghost sofar = out.deep_view();
                out.push(Completion::with_desc(sub.aliases[k].as_str(), label.as_str()));
                assert(out.deep_view() =~= sofar.push(
                    CompletionView {
                        value: sub.aliases@[k as int]@,
                        description: Some(about_of(*sub) + " (alias)"@),
                    },
                ));
                k += 1;
            }
        }
        i += 1;
    }
    out
}

fn clone_completions(list: &Vec<Completion>) -> (out: Vec<Completion>)
    ensures
        out.deep_view() == list.deep_view(),
{
    let mut out: Vec<Completion> = Vec::new();
    let mut i: usize = 0;
    while i < list.len()
        invariant
            i <= list.len(),
            out.deep_view() == list.deep_view().take(i as int),
        decreases list.len() - i,
    {
        out.push(list[i].duplicate());
        assert(out.deep_view() =~= list.deep_view().take(i as int).push(list[i as int]@));
        i += 1;
    }
    out
}

/// The completions behind the command `cmd`, which has no commands below
/// it and was typed as `typed`, with `remaining` words typed behind it.
pub fn complete_leaf(cmd: &CommandNode, typed: &str, remaining: usize, silo_names: &Vec<
    Completion,
>) -> (out: Vec<Completion>)
    ensures
        out.deep_view() == leaf_offers(*cmd, typed@, remaining as int, silo_names.deep_view()),
{
    if cmd.takes_silo && remaining <= 1 && str_eq(cmd.name.as_str(), typed) {
        clone_completions(silo_names)
    } else {
        let out: Vec<Completion> = Vec::new();
        out
    }
}

fn complete_from(cmd: &CommandNode, args: &[String], from: usize, silo_names: &Vec<Completion>) -> (out:
    Vec<Completion>)
    requires
        from <= args.len(),
    ensures
        out.deep_view() == completions(
            *cmd,
            args.deep_view().skip(from as int),
            silo_names.deep_view(),
        ),
    decreases args.len() - from,
{
    let ghost words = args.deep_view().skip(from as int);
    if from == args.len() {
        return subcommands(cmd);
    }
    let first = args[from].as_str();
    let mut i: usize = 0;
    while i < cmd.subcommands.len()
        invariant
            i <= cmd.subcommands.len(),
            from < args.len(),
            first@ == words[0],
            words == args.deep_view().skip(from as int),
            words.drop_first() == args.deep_view().skip(from + 1),
            forall|j: int| 0 <= j < i ==> !answers_to(cmd.subcommands@[j], first@),
        decreases cmd.subcommands.len() - i,
    {
        if goes_by(&cmd.subcommands[i], first) {
            proof {
                lemma_chosen_first(cmd.subcommands@, first@, i as int);
            }
            if cmd.subcommands[i].subcommands.len() > 0 {
                return complete_from(&cmd.subcommands[i], args, from + 1, silo_names);
            } else {
                return complete_leaf(
                    &cmd.subcommands[i],
                    first,
                    args.len() - from - 1,
                    silo_names,
                );
            }
        }
        i += 1;
    }
    proof {
        lemma_chosen_none(cmd.subcommands@, first@);
    }
    subcommands(cmd)
}

/// The completions for the words `args` below the command `cmd`;
/// `silo_names` is offered where a silo is asked for.
pub fn complete_command(cmd: &CommandNode, args: &[String], silo_names: &Vec<Completion>) -> (out:
    Vec<Completion>)
    ensures
        out.deep_view() == completions(*cmd, args.deep_view(), silo_names.deep_view()),
{
    assert(args.deep_view().skip(0) =~= args.deep_view());
    complete_from(cmd, args, 0, silo_names)
}

/// The completions for the words typed behind the name of the program,
/// whose commands are those of `cli`.
pub fn generate(cli: &CommandNode, args: &[String], silo_names: &Vec<Completion>) -> (out: Vec<
    Completion,
>)
    ensures
        out.deep_view() == completions(*cli, args.deep_view(), silo_names.deep_view()),
{
    complete_command(cli, args, silo_names)
}

/// The branches that are offered inside a repository: that of the first
/// `upto` worktrees that have one and are the main worktree or a silo.
pub open spec fn branch_offers(worktrees: Seq<Worktree>, is_silo: Seq<bool>, upto: int) -> Seq<
    CompletionView,
>
    decreases upto,
{
    if upto <= 0 {
        Seq::<CompletionView>::empty()
    } else {
        let before = branch_offers(worktrees, is_silo, upto - 1);
        let at = upto - 1;
        match worktrees[at].branch {
            Some(branch) => if at == 0 || (at < is_silo.len() && is_silo[at]) {
                before.push(CompletionView { value: branch@, description: None })
            } else {
                before
            },
            None => before,
        }
    }
}

/// The names of the silos that are offered inside a repository: the
/// branches of its worktrees. `is_silo` says of every worktree, in order,
/// whether it lies where silos are kept.
pub fn branch_names(worktrees: &Vec<Worktree>, is_silo: &[bool]) -> (out: Vec<Completion>)
    ensures
        out.deep_view() == branch_offers(worktrees@, is_silo@, worktrees@.len() as int),
{
    let mut out: Vec<Completion> = Vec::new();
    let mut i: usize = 0;
    while i < worktrees.len()
        invariant
            i <= worktrees.len(),
            out.deep_view() == branch_offers(worktrees@, is_silo@, i as int),
        decreases worktrees.len() - i,
    {
        match &worktrees[i].branch {
            Some(branch) => {
                if i == 0 || (i < is_silo.len() && is_silo[i]) {
                    out.push(Completion::new(branch.as_str()));
                }
            },
            None => {},
        }
        i += 1;
    }
    out
}

/// The display names of the silos, with the repository in front, in the
/// order of the names.
pub open spec fn sorted_names(silos: Seq<Silo>) -> Seq<CompletionView> {
    let names = minimized(entities_of(silos), true);
    let order = in_text_order(names, silos.len() as int);
    Seq::new(silos.len(), |k: int| CompletionView { value: names[order[k]], description: None })
}

/// The names of the silos that are offered outside a repository: the
/// display name of every silo, with its repository in front, in the order
/// of the names.
pub fn display_names(silos: &[Silo]) -> (out: Vec<Completion>)
    ensures
        out.deep_view() == sorted_names(silos@),
{
    let names = generate_display_names(silos, true);
    let order = order_by_text(&names);
    let ghost wanted = sorted_names(silos@);
    let mut out: Vec<Completion> = Vec::new();
    let mut k: usize = 0;
    while k < order.len()
        invariant
            k <= order.len(),
            order@.len() == silos@.len(),
            names@.len() == silos@.len(),
            names.deep_view() == minimized(entities_of(silos@), true),
            as_ints(order@) == in_text_order(names.deep_view(), silos@.len() as int),
            forall|j: int| 0 <= j < order@.len() ==> order@[j] < names@.len(),
            wanted == sorted_names(silos@),
            out.deep_view() == wanted.take(k as int),
        decreases order.len() - k,
    {
        out.push(Completion::new(names[order[k]].as_str()));
        assert(out.deep_view() =~= wanted.take(k as int).push(wanted[k as int]));
        k += 1;
    }
    out
}

} // verus!
