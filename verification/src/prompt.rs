//! Asking the user for a yes or a no.

use vstd::prelude::*;
use crate::scan::{trim, trimmed};
use crate::text::{chars_of, concat_str};

verus! {

/// Where a question is put and the answer is read.
pub trait PromptInput {
    /// Whether a person can answer at all.
    fn is_terminal(&self) -> bool;

    /// Puts the question.
    fn show(&mut self, prompt: &str);

    /// Reads the line that was typed; `None` where reading failed.
    fn read_line(&mut self) -> Option<String>;
}

/// Whether an answer means yes: `y` or `yes`, in small or capital letters,
/// with any white space around it.
pub open spec fn is_yes(line: Seq<char>) -> bool {
    let answer = trimmed(line);
    let y = answer.len() >= 1 && (answer[0] == 'y' || answer[0] == 'Y');
    (answer.len() == 1 && y) || (answer.len() == 3 && y && (answer[1] == 'e' || answer[1] == 'E')
        && (answer[2] == 's' || answer[2] == 'S'))
}

/// Whether the line that the user typed means yes.
pub fn answer_is_yes(line: &str) -> (yes: bool)
    ensures
        yes == is_yes(line@),
{
    let answer = chars_of(trim(line).as_str());
    if answer.len() == 1 {
        answer[0] == 'y' || answer[0] == 'Y'
    } else if answer.len() == 3 {
        (answer[0] == 'y' || answer[0] == 'Y') && (answer[1] == 'e' || answer[1] == 'E') && (
        answer[2] == 's' || answer[2] == 'S')
    } else {
        false
    }
}

/// The question as it is put: the message and the choices, no being the
/// default.
pub fn prompt_text(message: &str) -> (text: String)
    ensures
        text@ == message@ + " [y/N] "@,
{
    concat_str(message, " [y/N] ")
}

/// Whether what was read means yes: a line that does; nothing where reading
/// failed.
pub open spec fn meant(read: Option<String>) -> bool {
    match read {
        Some(line) => is_yes(line@),
        None => false,
    }
}

/// Asks for a yes or a no.
///
/// Where the source says that nobody can answer, the answer is no, the
/// question is not put and the source is left as it was. Otherwise the
/// question, which is the message with the choices behind it, is put to the
/// source as it stood, one line is read from the source as the question left
/// it, and the answer is yes exactly if that line means yes; where reading
/// fails, the answer is no.
pub fn confirm_with_input<I: PromptInput>(message: &str, input: &mut I) -> (confirmed: bool)
    ensures
        ({
            &&& call_ensures(I::is_terminal, (&*old(input),), false)
            &&& !confirmed
            &&& *final(input) == *old(input)
        }) || ({
            &&& call_ensures(I::is_terminal, (&*old(input),), true)
            &&& exists|shown: &mut I, question: &str, source: &mut I, read: Option<String>|
                #![trigger
                    call_ensures(I::show, (shown, question), ()),
                    call_ensures(I::read_line, (source,), read),
                ]
                {
                    &&& question@ == message@ + " [y/N] "@
                    &&& *shown == *old(input)
                    &&& call_ensures(I::show, (shown, question), ())
                    &&& *source == *final(shown)
                    &&& call_ensures(I::read_line, (source,), read)
                    &&& *final(source) == *final(input)
                    &&& confirmed == meant(read)
                }
        }),
{
    if !input.is_terminal() {
        return false;
    }
    let question = prompt_text(message);
    input.show(question.as_str());
    match input.read_line() {
        Some(line) => answer_is_yes(line.as_str()),
        None => false,
    }
}

} // verus!
