//! The errors of the tool, and how each of them reads.

use vstd::prelude::*;
use vstd::string::StringExecFns;
use crate::text::concat_str;

verus! {

/// What can go wrong.
#[derive(Debug)]
pub enum SiloError {
    /// The current directory is in no git repository.
    NotInRepo,
    /// A git command failed.
    Git(String),
    /// No silo answers to the name.
    NotFound(String),
    /// Several silos answer to the name.
    Ambiguous { name: String, matches: Vec<String> },
    /// The configuration is wrong.
    Config(String),
    /// Reading or writing failed; the text is that of the system's error.
    Io(String),
    /// A command could not be run.
    Command(String),
    /// The user said no.
    Aborted,
    /// Anything else, in its own words.
    Other(String),
}

/// A list of strings in the notation of `Debug`: in square brackets, each
/// string in double quotes with its special characters escaped.
pub uninterp spec fn debug_list_of(items: Seq<Seq<char>>) -> Seq<char>;

/// `Debug::fmt` of std for a vector of strings, reached through `format!`
/// with `{:?}`. What it writes depends on the strings alone.
#[verifier::external_body]
fn debug_list(items: &Vec<String>) -> (out: String)
    ensures
        out@ == debug_list_of(items.deep_view()),
{
    format!("{:?}", items)
}

/// The message of an error.
pub open spec fn message_of(error: SiloError) -> Seq<char> {
    match error {
        SiloError::NotInRepo => "Not in a git repository"@,
        SiloError::Git(detail) => "Git command failed: "@ + detail@,
        SiloError::NotFound(name) => "Silo not found: "@ + name@,
        SiloError::Ambiguous { name, matches } => "Ambiguous silo name '"@ + name@
            + "': matches "@ + debug_list_of(matches.deep_view()),
        SiloError::Config(detail) => "Config error: "@ + detail@,
        SiloError::Io(detail) => "IO error: "@ + detail@,
        SiloError::Command(detail) => "Command failed: "@ + detail@,
        SiloError::Aborted => "Aborted"@,
        SiloError::Other(text) => text@,
    }
}

/// The message for a name that several silos answer to; `listed` is the
/// list of their names as it is shown.
pub fn ambiguous_text(name: &str, listed: &str) -> (text: String)
    ensures
        text@ == "Ambiguous silo name '"@ + name@ + "': matches "@ + listed@,
{
    let mut text = concat_str("Ambiguous silo name '", name);
    text.append("': matches ");
    text.append(listed);
    text
}

impl SiloError {
    /// The message of this error, as it is shown to the user.
    pub fn message(&self) -> (text: String)
        ensures
            text@ == message_of(*self),
    {
        match self {
            SiloError::NotInRepo => String::from_str("Not in a git repository"),
            SiloError::Git(detail) => concat_str("Git command failed: ", detail.as_str()),
            SiloError::NotFound(name) => concat_str("Silo not found: ", name.as_str()),
            SiloError::Ambiguous { name, matches } => {
                let listed = debug_list(matches);
                ambiguous_text(name.as_str(), listed.as_str())
            },
            SiloError::Config(detail) => concat_str("Config error: ", detail.as_str()),
            SiloError::Io(detail) => concat_str("IO error: ", detail.as_str()),
            SiloError::Command(detail) => concat_str("Command failed: ", detail.as_str()),
            SiloError::Aborted => String::from_str("Aborted"),
            SiloError::Other(text) => text.clone(),
        }
    }

    /// An error that says `text` and nothing else.
    pub fn from_text(text: &str) -> (error: SiloError)
        ensures
            message_of(error) == text@,
            error is Other,
    {
        SiloError::Other(String::from_str(text))
    }
}

impl From<String> for SiloError {
    fn from(text: String) -> (error: SiloError)
        ensures
            error == SiloError::Other(text),
    {
        SiloError::Other(text)
    }
}

impl vstd::std_specs::convert::FromSpecImpl<String> for SiloError {
    open spec fn obeys_from_spec() -> bool {
        true
    }

    open spec fn from_spec(text: String) -> SiloError {
        SiloError::Other(text)
    }
}

} // verus!
