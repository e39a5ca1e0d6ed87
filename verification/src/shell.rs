//! The shell integration: how the tool tells the shell around it what to
//! do.

use vstd::prelude::*;
use vstd::string::StringExecFns;
use crate::config::Config;
use crate::text::concat_str;

pub mod zsh;

verus! {

/// The shells that have an integration.
#[derive(Debug, Clone, Copy, PartialEq, Eq)]
pub enum ShellType {
    Zsh,
}

/// The environment variable that names the file for directives.
pub const DIRECTIVE_FILE_ENV: &'static str = "SILO_DIRECTIVE_FILE";

/// The environment variable that names the silo used before the current
/// one.
pub const LAST_ENV: &'static str = "SILO_LAST";

/// What is said where a directory was printed and the shell could not be
/// made to change into it.
pub const HINT: &'static str =
    "hint: Shell integration is not enabled. The `cd` command printed the\n      path but could not change your shell's working directory.\n\n      To enable shell integration, add to your shell config:\n\n        # For zsh (~/.zshrc):\n        eval \"$(silo shell init zsh)\"\n\n      To disable this warning, add to ~/.config/silo.toml:\n\n        warn_shell_integration = false\n";

/// Whether the shell integration is enabled: whether the environment names
/// a file for directives.
pub fn is_enabled(directive_file: Option<&str>) -> (enabled: bool)
    ensures
        enabled == directive_file is Some,
{
    directive_file.is_some()
}

/// The hint to show, if the integration is off and the configuration does
/// not forbid the warning.
pub fn warn_if_not_enabled(config: &Config, enabled: bool) -> (hint: Option<&'static str>)
    ensures
        hint is Some == (!enabled && config.warn_shell_integration != Some(false)),
        hint matches Some(text) ==> text@ == HINT@,
{
    if enabled || !config.warn_shell_integration() {
        None
    } else {
        Some(HINT)
    }
}

/// A directive as it is written to the file: `key=value` and a line feed.
pub fn directive_line(key: &str, value: &str) -> (line: String)
    ensures
        line@ == key@ + "="@ + value@ + "\n"@,
{
    let mut line = concat_str(key, "=");
    line.append(value);
    line.append("\n");
    line
}

/// The script that sets the integration up for a shell.
pub fn init(shell_type: ShellType, silo_bin: &str) -> (script: String)
    ensures
        script@ == zsh::SCRIPT_HEAD@ + silo_bin@ + zsh::SCRIPT_TAIL@,
{
    match shell_type {
        ShellType::Zsh => zsh::init_script(silo_bin),
    }
}

} // verus!
