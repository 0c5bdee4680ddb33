//! How scripts are handed to the shell: `sh -c`, or `cmd /C` on Windows.

use vstd::prelude::*;
use crate::error::Error;
use crate::text::{chars_of, extend_str, string_of};

verus! {

/// The shell binary: `cmd` on Windows, else `sh`.
pub open spec fn shell_program_spec(windows: bool) -> Seq<char> {
    if windows {
        "cmd"@
    } else {
        "sh"@
    }
}

/// The shell flag for an inline script: `/C` on Windows, else `-c`.
pub open spec fn shell_arg_spec(windows: bool) -> Seq<char> {
    if windows {
        "/C"@
    } else {
        "-c"@
    }
}

/// The shell binary.
pub fn shell_program(windows: bool) -> (r: &'static str)
    ensures
        r@ == shell_program_spec(windows),
{
    if windows {
        "cmd"
    } else {
        "sh"
    }
}

/// The shell flag for an inline script.
pub fn shell_arg(windows: bool) -> (r: &'static str)
    ensures
        r@ == shell_arg_spec(windows),
{
    if windows {
        "/C"
    } else {
        "-c"
    }
}

/// The text of an inline script for display: `cmd /C "<script>"` on
/// Windows, else `sh -c '<script>'`.
pub open spec fn shell_display_spec(script: Seq<char>, windows: bool) -> Seq<char> {
    if windows {
        "cmd /C \""@ + script + "\""@
    } else {
        "sh -c '"@ + script + "'"@
    }
}

/// Format a script for human-readable display.
pub fn shell_display(script: &str, windows: bool) -> (r: String)
    ensures
        r@ == shell_display_spec(script@, windows),
{
    if windows {
        let mut v = chars_of("cmd /C \"");
        extend_str(&mut v, script);
        extend_str(&mut v, "\"");
        string_of(&v)
    } else {
        let mut v = chars_of("sh -c '");
        extend_str(&mut v, script);
        extend_str(&mut v, "'");
        string_of(&v)
    }
}

/// Law: the displayed form of a script is the shell binary, its flag and
/// the quoted script, separated by spaces; the quotes are single, or double
/// on Windows.
pub proof fn law_shell_display_form(script: Seq<char>, windows: bool)
    ensures
        shell_display_spec(script, windows) == shell_program_spec(windows) + " "@ + shell_arg_spec(
            windows,
        ) + " "@ + (if windows {
            "\""@ + script + "\""@
        } else {
            "'"@ + script + "'"@
        }),
{
    reveal_strlit("cmd /C \"");
    reveal_strlit("\"");
    reveal_strlit("sh -c '");
    reveal_strlit("'");
    reveal_strlit("cmd");
    reveal_strlit("sh");
    reveal_strlit("/C");
    reveal_strlit("-c");
    reveal_strlit(" ");
    if windows {
        assert(shell_display_spec(script, windows) =~= shell_program_spec(windows) + " "@
            + shell_arg_spec(windows) + " "@ + ("\""@ + script + "\""@));
    } else {
        assert(shell_display_spec(script, windows) =~= shell_program_spec(windows) + " "@
            + shell_arg_spec(windows) + " "@ + ("'"@ + script + "'"@));
    }
}

/// The error for a command that could not be started: a missing program
/// is named as `tool`, with the hint for installing it; any other failure,
/// or a missing program when no tool is named, is an I/O error with its
/// text.
pub fn spawn_error(not_found: bool, tool: &str, hint: &str, detail: &str) -> (e: Error)
    ensures
        not_found && tool@.len() > 0 ==> (e matches Error::ToolNotFound { tool: t, hint: h } && t@
            == tool@ && h@ == hint@),
        !(not_found && tool@.len() > 0) ==> (e matches Error::Io(m) && m@ == detail@),
{
    if not_found && !tool.is_empty() {
        Error::ToolNotFound { tool: tool.to_owned(), hint: hint.to_owned() }
    } else {
        Error::Io(detail.to_owned())
    }
}

} // verus!
