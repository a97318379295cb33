//! The text of one variable assignment, in shell syntax (Unix) or as a
//! command of the managed PowerShell script (Windows).

use vstd::prelude::*;
use vstd::string::*;

verus! {

/// What an assignment does to the variable.
#[derive(PartialEq, Eq, Structural, Clone, Copy, Debug)]
pub enum Operation {
    Assign,
    Append,
    Prepend,
}

/// Which persistence mechanism the line is written for.
#[derive(PartialEq, Eq, Structural, Clone, Copy, Debug)]
pub enum Platform {
    Unix,
    Windows,
}

/// `export VAR=VALUE`, `export VAR="VALUE:$VAR"` or `export VAR="$VAR:VALUE"`.
pub open spec fn unix_line(op: Operation, var: Seq<char>, value: Seq<char>) -> Seq<char> {
    match op {
        Operation::Assign => "export "@ + var + "="@ + value,
        Operation::Append => "export "@ + var + "=\""@ + value + ":$"@ + var + "\""@,
        Operation::Prepend => "export "@ + var + "=\"$"@ + var + ":"@ + value + "\""@,
    }
}

/// `setenv_set VAR VALUE`, `setenv_append VAR VALUE` or `setenv_prepend VAR VALUE`.
pub open spec fn windows_line(op: Operation, var: Seq<char>, value: Seq<char>) -> Seq<char> {
    let cmd = match op {
        Operation::Assign => "setenv_set "@,
        Operation::Append => "setenv_append "@,
        Operation::Prepend => "setenv_prepend "@,
    };
    cmd + var + " "@ + value
}

/// The line for `platform`.
pub open spec fn line_spec(
    platform: Platform,
    op: Operation,
    var: Seq<char>,
    value: Seq<char>,
) -> Seq<char> {
    match platform {
        Platform::Unix => unix_line(op, var, value),
        Platform::Windows => windows_line(op, var, value),
    }
}

/// The line that applies `op` with `value` to `var` on `platform`.
pub fn assignment_line(platform: Platform, op: Operation, var: &str, value: &str) -> (r: String)
    ensures
        r@ == line_spec(platform, op, var@, value@),
{
    match platform {
        Platform::Unix => {
            let mut r = String::from_str("export ");
            r.append(var);
            match op {
                Operation::Assign => {
                    r.append("=");
                    r.append(value);
                },
                Operation::Append => {
                    r.append("=\"");
                    r.append(value);
                    r.append(":$");
                    r.append(var);
                    r.append("\"");
                },
                Operation::Prepend => {
                    r.append("=\"$");
                    r.append(var);
                    r.append(":");
                    r.append(value);
                    r.append("\"");
                },
            }
            r
        },
        Platform::Windows => {
            let mut r = match op {
                Operation::Assign => String::from_str("setenv_set "),
                Operation::Append => String::from_str("setenv_append "),
                Operation::Prepend => String::from_str("setenv_prepend "),
            };
            r.append(var);
            r.append(" ");
            r.append(value);
            r
        },
    }
}

/// The line that sets `var` to `value`, whether or not it is set already.
pub fn set(platform: Platform, var: &str, value: &str) -> (r: String)
    ensures
        r@ == line_spec(platform, Operation::Assign, var@, value@),
{
    assignment_line(platform, Operation::Assign, var, value)
}

/// The line that puts `value` in front of the list held by `var`, as one
/// does to add a directory to `PATH`.
pub fn append(platform: Platform, var: &str, value: &str) -> (r: String)
    ensures
        r@ == line_spec(platform, Operation::Append, var@, value@),
{
    assignment_line(platform, Operation::Append, var, value)
}

/// The line that adds `value` after the list held by `var`.
pub fn prepend(platform: Platform, var: &str, value: &str) -> (r: String)
    ensures
        r@ == line_spec(platform, Operation::Prepend, var@, value@),
{
    assignment_line(platform, Operation::Prepend, var, value)
}

/// The line to write for `check_or_set`: nothing when `var` is already set
/// in the environment, else the line of `set`.
pub fn check_or_set(already_set: bool, platform: Platform, var: &str, value: &str) -> (r: Option<
    String,
>)
    ensures
        already_set ==> r is None,
        !already_set ==> r is Some && r->0@ == line_spec(platform, Operation::Assign, var@, value@),
{
    if already_set {
        None
    } else {
        Some(set(platform, var, value))
    }
}

} // verus!
