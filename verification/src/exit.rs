//! Exit codes.

use vstd::prelude::*;
use crate::scan::{contains, has_prefix, occurs_in, starts_with};

verus! {

/// Any error that has no code of its own.
pub const ERROR: i32 = 1;

/// Something was looked for and is not there: a silo, a repository.
pub const NOT_FOUND: i32 = 2;

/// Whether an error's message says that something is not there.
pub open spec fn says_not_found(message: Seq<char>) -> bool {
    starts_with(message, "Not in a git repository"@) || occurs_in(message, "not found"@)
        || occurs_in(message, "Not found"@)
}

/// The exit code for an error, by its message.
pub fn exit_code_for(message: &str) -> (code: i32)
    ensures
        code == if says_not_found(message@) {
            NOT_FOUND
        } else {
            ERROR
        },
{
    if has_prefix(message, "Not in a git repository") {
        NOT_FOUND
    } else if contains(message, "not found") || contains(message, "Not found") {
        NOT_FOUND
    } else {
        ERROR
    }
}

} // verus!
