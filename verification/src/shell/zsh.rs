//! The shell integration for zsh.

use vstd::prelude::*;
use vstd::string::StringExecFns;

verus! {

/// The script up to the path of the binary.
pub const SCRIPT_HEAD: &'static str = r##"# Silo shell integration for zsh
# Add to ~/.zshrc:
#   eval "$(silo shell init zsh)"

# Store path to real silo binary (before we shadow it with a function)
__silo_bin=""##;

/// The script from the path of the binary on.
pub const SCRIPT_TAIL: &'static str = r##""

# Create session-scoped directive file for communication between binary and shell
export SILO_DIRECTIVE_FILE=$(mktemp)
trap "rm -f '$SILO_DIRECTIVE_FILE'" EXIT

silo() {
    # Clear directive file before each command
    : > "$SILO_DIRECTIVE_FILE"

    # Run the silo binary
    "$__silo_bin" "$@"
    local exit_code=$?

    # Process directives from file
    while IFS='=' read -r key value; do
        case "$key" in
            cd) builtin cd "$value" ;;
            last)
                # Save current silo as "last" (for cd -), then update current
                export SILO_LAST="$SILO_CURRENT"
                export SILO_CURRENT="$value"
                ;;
        esac
    done < "$SILO_DIRECTIVE_FILE"

    return $exit_code
}

# Completions
_silo() {
    local -a completions

    # Pass all words after 'silo' to the completion command
    # words[2,-1] gets all elements from position 2 to the end
    completions=("${(@f)$("$__silo_bin" shell complete-args -- "${words[@]:1}" 2>/dev/null)}")
    [[ -n "$completions" ]] && _describe 'completion' completions
}
compdef _silo silo
"##;

/// The script that a zsh session evaluates to get the `silo` function and
/// its completions; `silo_bin` is the path of the binary that the function
/// runs.
pub fn init_script(silo_bin: &str) -> (script: String)
    ensures
        script@ == SCRIPT_HEAD@ + silo_bin@ + SCRIPT_TAIL@,
{
    let mut script = String::from_str(SCRIPT_HEAD);
    script.append(silo_bin);
    script.append(SCRIPT_TAIL);
    script
}

} // verus!
