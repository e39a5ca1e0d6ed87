//! What the subcommands share: the silo that `-` stands for, the extra
//! arguments of a command, and the silo that a name means.

use vstd::prelude::*;
use vstd::string::StringExecFns;
use crate::config::{ArgTable, Entries};
use crate::names::{
    entities_of, generate_display_names, minimized, resolution, resolve_name, scope_of,
    Resolution, ResolveResult,
};
use crate::scan::{words, words_of};
use crate::silo::{RepoId, Silo};
use crate::text::{concat_str, join, join_with, push_str, res_text, str_eq};

verus! {

/// What `-` stands for: the silo that was used last.
pub open spec fn dash_resolved(name: Seq<char>, last: Option<Seq<char>>) -> Result<
    Seq<char>,
    Seq<char>,
> {
    if name != "-"@ {
        Ok(name)
    } else {
        match last {
            Some(silo) => Ok(silo),
            None => Err("No previous silo. Use a silo name instead of '-'."@),
        }
    }
}

/// The name of the silo that `name` stands for: `last_silo` for `-`, which
/// is an error where there is none; `name` itself otherwise.
pub fn resolve_dash_with_last(name: &str, last_silo: Option<String>) -> (resolved: Result<
    String,
    String,
>)
    ensures
        res_text(resolved) == dash_resolved(name@, crate::text::opt_text(last_silo)),
{
    if !str_eq(name, "-") {
        return Ok(String::from_str(name));
    }
    match last_silo {
        Some(silo) => Ok(silo),
        None => Err(String::from_str("No previous silo. Use a silo name instead of '-'.")),
    }
}

/// Whether a command begins with the words of `prefix`.
pub open spec fn prefix_matches(command: Seq<Seq<char>>, prefix: Seq<char>) -> bool {
    let wanted = words_of(prefix);
    wanted.len() > 0 && wanted.len() <= command.len() && command.take(wanted.len() as int)
        == wanted
}

/// The arguments of those of the first `upto` entries whose prefix has
/// `count` words and matches the command, in the order of the entries.
pub open spec fn extras(command: Seq<Seq<char>>, entries: Entries, count: int, upto: int) -> Seq<
    Seq<char>,
>
    decreases upto,
{
    if upto <= 0 {
        Seq::<Seq<char>>::empty()
    } else {
        let before = extras(command, entries, count, upto - 1);
        let entry = entries[upto - 1];
        if prefix_matches(command, entry.0) && words_of(entry.0).len() == count {
            before + entry.1
        } else {
            before
        }
    }
}

/// The first `upto` words of the command, each followed by the arguments of
/// the prefixes that end with it.
pub open spec fn applied(command: Seq<Seq<char>>, entries: Entries, upto: int) -> Seq<Seq<char>>
    decreases upto,
{
    if upto <= 0 {
        Seq::<Seq<char>>::empty()
    } else {
        applied(command, entries, upto - 1).push(command[upto - 1]) + extras(
            command,
            entries,
            upto,
            entries.len() as int,
        )
    }
}

/// The command with the extra arguments of every matching prefix put in
/// right behind the words of that prefix. The arguments of a shorter prefix
/// come before those of a longer one.
pub open spec fn with_extra_args(command: Seq<Seq<char>>, entries: Entries) -> Seq<Seq<char>> {
    applied(command, entries, command.len() as int)
}

/// How many words the prefix has if the command begins with them; zero
/// otherwise.
fn matched_words(command: &[String], prefix: &str) -> (count: usize)
    ensures
        count == if prefix_matches(command.deep_view(), prefix@) {
            words_of(prefix@).len()
        } else {
            0
        },
{
    let wanted = words(prefix);
    if wanted.len() == 0 || wanted.len() > command.len() {
        return 0;
    }
    let ghost head = command.deep_view().take(wanted.len() as int);
    let mut k: usize = 0;
    while k < wanted.len()
        invariant
            k <= wanted.len() <= command.len(),
            wanted.deep_view() == words_of(prefix@),
            head == command.deep_view().take(wanted.len() as int),
            forall|j: int| 0 <= j < k ==> head[j] == wanted.deep_view()[j],
        decreases wanted.len() - k,
    {
        if !(wanted[k] == command[k]) {
            assert(head[k as int] != wanted.deep_view()[k as int]);
            return 0;
        }
        k += 1;
    }
    assert(head =~= wanted.deep_view());
    wanted.len()
}

/// The command with the extra arguments of the table put in.
///
/// An entry applies where the command begins with the words of its prefix.
/// Its arguments go right behind those words; where several entries apply,
/// those with fewer words come first, and entries with equally many words
/// keep the order of the table.
pub fn apply_extra_args(command: &[String], extra_args: &ArgTable) -> (out: Vec<String>)
    ensures
        out.deep_view() == with_extra_args(command.deep_view(), extra_args@),
{
    let ghost words_in = command.deep_view();
    let ghost entries = extra_args@;
    let total = extra_args.len();
    let mut counts: Vec<usize> = Vec::new();
    let mut e: usize = 0;
    while e < total
        invariant
            e <= total,
            total == extra_args@.len(),
            counts.len() == e,
            words_in == command.deep_view(),
            entries == extra_args@,
            forall|j: int|
                0 <= j < e ==> counts[j] == if prefix_matches(words_in, entries[j].0) {
                    words_of(entries[j].0).len()
                } else {
                    0
                },
        decreases total - e,
    {
        counts.push(matched_words(command, extra_args.prefix_at(e)));
        e += 1;
    }
    let mut out: Vec<String> = Vec::new();
    let mut i: usize = 0;
    while i < command.len()
        invariant
            i <= command.len(),
            total == extra_args@.len(),
            counts.len() == total,
            words_in == command.deep_view(),
            entries == extra_args@,
            forall|j: int|
                0 <= j < total ==> counts[j] == if prefix_matches(words_in, entries[j].0) {
                    words_of(entries[j].0).len()
                } else {
                    0
                },
            out.deep_view() == applied(words_in, entries, i as int),
        decreases command.len() - i,
    {
        push_str(&mut out, command[i].as_str());
        let ghost base = out.deep_view();
        let mut e: usize = 0;
        while e < total
            invariant
                e <= total,
                i < command.len(),
                total == extra_args@.len(),
                counts.len() == total,
                words_in == command.deep_view(),
                entries == extra_args@,
                forall|j: int|
                    0 <= j < total ==> counts[j] == if prefix_matches(words_in, entries[j].0) {
                        words_of(entries[j].0).len()
                    } else {
                        0
                    },
                out.deep_view() == base + extras(words_in, entries, i + 1, e as int),
            decreases total - e,
        {
            if counts[e] == i + 1 {
                let args = extra_args.args_at(e);
                let ghost start = out.deep_view();
                let mut k: usize = 0;
                while k < args.len()
                    invariant
                        k <= args.len(),
                        out.deep_view() == start + args.deep_view().take(k as int),
                    decreases args.len() - k,
                {
                    push_str(&mut out, args[k].as_str());
                    k += 1;
                }
            }
            e += 1;
        }
        i += 1;
    }
    out
}

/// The first position at which the list holds the same silo as at `at`.
pub open spec fn first_same(silos: Seq<Silo>, at: int) -> int {
    choose|j: int|
        0 <= j <= at && silos[j]@ == silos[at]@ && forall|k: int|
            0 <= k < j ==> silos[k]@ != silos[at]@
}

/// The names under which the silos at `hits` are shown in an error: their
/// display names with the repository in front.
pub open spec fn shown_names(silos: Seq<Silo>, hits: Seq<int>) -> Seq<Seq<char>> {
    Seq::new(
        hits.len(),
        |k: int| minimized(entities_of(silos), true)[first_same(silos, hits[k])],
    )
}

/// The error for a name that several silos answer to.
pub open spec fn ambiguity_message(name: Seq<char>, shown: Seq<Seq<char>>) -> Seq<char> {
    "Ambiguous silo name '"@ + name + "'. Did you mean one of:\n  "@ + join_with(
        shown,
        "\n  "@,
    )
}

/// The position of the silo that `name` means, or the error that says why
/// there is none.
pub open spec fn silo_outcome(silos: Seq<Silo>, name: Seq<char>, scope: Option<Seq<char>>) -> Result<
    int,
    Seq<char>,
> {
    if silos.len() == 0 {
        Err("No silos found."@)
    } else {
        match resolution(entities_of(silos), name, scope) {
            Resolution::Found(at) => Ok(at),
            Resolution::NotFound => Err("Silo not found: "@ + name),
            Resolution::Ambiguous(hits) => Err(ambiguity_message(name, shown_names(silos, hits))),
        }
    }
}

fn position_of(silos: &[Silo], wanted: &Silo, Ghost(at): Ghost<int>) -> (found: usize)
    requires
        0 <= at < silos.len(),
        wanted@ == silos[at]@,
    ensures
        found == first_same(silos@, at),
        found < silos.len(),
{
    let mut j: usize = 0;
    while j < silos.len()
        invariant
            j <= at,
            0 <= at < silos.len(),
            wanted@ == silos[at]@,
            forall|k: int| 0 <= k < j ==> silos[k]@ != silos[at]@,
        decreases silos.len() - j,
    {
        if silos[j].same_as(wanted) {
            return j;
        }
        j += 1;
    }
    0
}

/// The silo that the user means by `name`, among `silos`, seen from the
/// repository `current_repo` if there is one.
///
/// The error says that there are no silos at all, that none answers to the
/// name, or which silos do, each under its display name with the repository
/// in front.
pub fn resolve_silo(name: &str, silos: &[Silo], current_repo: Option<RepoId>) -> (found: Result<
    Silo,
    String,
>)
    ensures
        match silo_outcome(silos@, name@, scope_of(current_repo)) {
            Ok(at) => found is Ok && 0 <= at < silos.len() && found->Ok_0@ == silos[at]@,
            Err(e) => found is Err && found->Err_0@ == e,
        },
{
    if silos.len() == 0 {
        return Err(String::from_str("No silos found."));
    }
    let ghost outcome = resolution(entities_of(silos@), name@, scope_of(current_repo));
    match resolve_name(name, silos, current_repo) {
        ResolveResult::Found(silo) => Ok(silo.duplicate()),
        ResolveResult::NotFound => Err(concat_str("Silo not found: ", name)),
        ResolveResult::Ambiguous(matches) => {
            let ghost hits = outcome->Ambiguous_0;
            let display_names = generate_display_names(silos, true);
            let ghost wanted = shown_names(silos@, hits);
            let mut shown: Vec<String> = Vec::new();
            let mut k: usize = 0;
            while k < matches.len()
                invariant
                    k <= matches.len(),
                    matches@.len() == hits.len(),
                    display_names.len() == silos.len(),
                    display_names.deep_view() == minimized(entities_of(silos@), true),
                    wanted == shown_names(silos@, hits),
                    forall|j: int|
                        0 <= j < hits.len() ==> 0 <= #[trigger] hits[j] < silos.len()
                            && *matches@[j] == silos[hits[j]],
                    shown.deep_view() == wanted.take(k as int),
                decreases matches.len() - k,
            {
                let at = position_of(silos, matches[k], Ghost(hits[k as int]));
                push_str(&mut shown, display_names[at].as_str());
                k += 1;
            }
            assert(wanted.take(k as int) =~= wanted);
            let mut message = concat_str("Ambiguous silo name '", name);
            message.append("'. Did you mean one of:\n  ");
            let listed = join(&shown, "\n  ");
            message.append(listed.as_str());
            Err(message)
        },
    }
}

/// A table without entries leaves every command as it is.
pub proof fn law_empty_table_changes_nothing(command: Seq<Seq<char>>)
    ensures
        with_extra_args(command, Seq::<(Seq<char>, Seq<Seq<char>>)>::empty()) == command,
{
    let none = Seq::<(Seq<char>, Seq<Seq<char>>)>::empty();
    assert forall|upto: int| 0 <= upto <= command.len() implies #[trigger] applied(
        command,
        none,
        upto,
    ) == command.take(upto) by {
        lemma_applied_plain(command, upto);
    }
    assert(command.take(command.len() as int) =~= command);
}

proof fn lemma_applied_plain(command: Seq<Seq<char>>, upto: int)
    requires
        0 <= upto <= command.len(),
    ensures
        applied(command, Seq::<(Seq<char>, Seq<Seq<char>>)>::empty(), upto) == command.take(upto),
    decreases upto,
{
    let none = Seq::<(Seq<char>, Seq<Seq<char>>)>::empty();
    if upto > 0 {
        lemma_applied_plain(command, upto - 1);
        assert(extras(command, none, upto, none.len() as int) =~= Seq::<Seq<char>>::empty());
        assert(command.take(upto) =~= command.take(upto - 1).push(command[upto - 1]));
        assert(applied(command, none, upto) =~= command.take(upto));
    } else {
        assert(command.take(0) =~= Seq::<Seq<char>>::empty());
    }
}

} // verus!
