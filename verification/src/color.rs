//! Numbers with a sign in front, in colour where the terminal takes it.

use vstd::prelude::*;
use vstd::string::StringExecFns;
use crate::numbers::{decimal, push_decimal};

verus! {

/// The escape sequence that turns the text green.
pub const GREEN: &'static str = "\x1b[32m";

/// The escape sequence that turns the text red.
pub const RED: &'static str = "\x1b[31m";

/// The escape sequence that turns the text yellow.
pub const YELLOW: &'static str = "\x1b[33m";

/// The escape sequence that ends the colour.
pub const RESET: &'static str = "\x1b[0m";

/// Whether output is coloured: never where `NO_COLOR` is set; otherwise
/// where colour is forced or standard output is a terminal.
pub fn should_use_color(force_color: bool, no_color_set: bool, stdout_is_terminal: bool) -> (yes:
    bool)
    ensures
        yes == (!no_color_set && (force_color || stdout_is_terminal)),
{
    if no_color_set {
        return false;
    }
    force_color || stdout_is_terminal
}

/// A number behind its prefix, between `color` and the reset sequence where
/// colour is used.
pub open spec fn colored(prefix: char, value: u32, color: Seq<char>, use_color: bool) -> Seq<
    char,
> {
    if use_color {
        color + seq![prefix] + decimal(value as nat) + RESET@
    } else {
        seq![prefix] + decimal(value as nat)
    }
}

/// Writes `value` behind `prefix`, in `color` where colour is used.
pub fn format_with_color(prefix: char, value: u32, color: &str, use_color: bool) -> (out: String)
    ensures
        out@ == colored(prefix, value, color@, use_color),
{
    let mut out = String::new();
    if use_color {
        out.append(color);
    }
    out.push(prefix);
    push_decimal(&mut out, value as u64);
    if use_color {
        out.append(RESET);
    }
    out
}

/// A count of what was gained, such as `+5`, in green.
pub fn green_positive(value: u32, use_color: bool) -> (out: String)
    ensures
        out@ == colored('+', value, GREEN@, use_color),
{
    format_with_color('+', value, GREEN, use_color)
}

/// A count of what was lost, such as `-3`, in red.
pub fn red_negative(value: u32, use_color: bool) -> (out: String)
    ensures
        out@ == colored('-', value, RED@, use_color),
{
    format_with_color('-', value, RED, use_color)
}

/// A count of what is uncommitted, such as `~3`, in yellow.
pub fn yellow_uncommitted(value: u32, use_color: bool) -> (out: String)
    ensures
        out@ == colored('~', value, YELLOW@, use_color),
{
    format_with_color('~', value, YELLOW, use_color)
}

} // verus!
