//! The table of supported shells and the profile files each one reads.

use vstd::prelude::*;
use crate::text::{chars_of, contains, has_substring};

verus! {

/// Number of shells in the table.
pub const SHELL_COUNT: usize = 6;

/// Name of the shell at row `k`, matched as a substring of `SHELL`.
pub open spec fn shell_name_spec(k: int) -> Seq<char> {
    if k == 0 {
        "zsh"@
    } else if k == 1 {
        "fish"@
    } else if k == 2 {
        "tcsh"@
    } else if k == 3 {
        "csh"@
    } else if k == 4 {
        "ksh"@
    } else {
        "bash"@
    }
}

/// Candidate profile files of the shell at row `k`, relative to the home
/// directory, most preferred first.
pub open spec fn shell_files_spec(k: int) -> Seq<Seq<char>> {
    if k == 0 {
        seq![".zprofile"@, ".zshrc"@, ".zlogin"@]
    } else if k == 1 {
        seq![".config/fish/config.fish"@]
    } else if k == 2 || k == 3 {
        seq![".tcshrc"@, ".cshrc"@, ".login"@]
    } else if k == 4 {
        seq![".profile"@, ".kshrc"@]
    } else {
        seq![".bash_profile"@, ".bash_login"@, ".bashrc"@]
    }
}

/// Row `k` is the first row whose name occurs in `env`.
pub open spec fn is_first_match(env: Seq<char>, k: int) -> bool {
    &&& 0 <= k < SHELL_COUNT
    &&& has_substring(env, shell_name_spec(k))
    &&& forall|j: int| 0 <= j < k ==> !has_substring(env, #[trigger] shell_name_spec(j))
}

/// No row's name occurs in `env`.
pub open spec fn no_match(env: Seq<char>) -> bool {
    forall|j: int| 0 <= j < SHELL_COUNT ==> !has_substring(env, #[trigger] shell_name_spec(j))
}

/// The file used when the shell is not in the table.
pub open spec fn fallback_files() -> Seq<Seq<char>> {
    seq![".profile"@]
}

/// The candidate files for the shell described by `env`.
pub open spec fn candidates_spec(env: Seq<char>) -> Seq<Seq<char>> {
    if no_match(env) {
        fallback_files()
    } else {
        shell_files_spec(choose|k: int| is_first_match(env, k))
    }
}

/// The name of the shell at row `k`.
pub fn shell_name(k: usize) -> (r: &'static str)
    requires
        k < SHELL_COUNT,
    ensures
        r@ == shell_name_spec(k as int),
{
    if k == 0 {
        "zsh"
    } else if k == 1 {
        "fish"
    } else if k == 2 {
        "tcsh"
    } else if k == 3 {
        "csh"
    } else if k == 4 {
        "ksh"
    } else {
        "bash"
    }
}

/// The candidate files of the shell at row `k`.
pub fn shell_files(k: usize) -> (r: Vec<&'static str>)
    requires
        k < SHELL_COUNT,
    ensures
        r.deep_view() == shell_files_spec(k as int),
{
    let r = if k == 0 {
        vec![".zprofile", ".zshrc", ".zlogin"]
    } else if k == 1 {
        vec![".config/fish/config.fish"]
    } else if k == 2 || k == 3 {
        vec![".tcshrc", ".cshrc", ".login"]
    } else if k == 4 {
        vec![".profile", ".kshrc"]
    } else {
        vec![".bash_profile", ".bash_login", ".bashrc"]
    };
    assert(r.deep_view() =~= shell_files_spec(k as int));
    r
}

/// Finds the row of the shell named in `shell_env` (the value of `SHELL`):
/// the first row, in table order, whose name occurs in it.
/// `None` when the shell is not supported.
pub fn resolve_shell(shell_env: &str) -> (r: Option<usize>)
    ensures
        match r {
            Some(k) => is_first_match(shell_env@, k as int),
            None => no_match(shell_env@),
        },
{
    let env = chars_of(shell_env);
    let mut k: usize = 0;
    while k < SHELL_COUNT
        invariant
            env@ == shell_env@,
            k <= SHELL_COUNT,
            forall|j: int| 0 <= j < k ==> !has_substring(shell_env@, #[trigger] shell_name_spec(j)),
        decreases SHELL_COUNT - k,
    {
        let name = chars_of(shell_name(k));
        if contains(&env, &name) {
            return Some(k);
        }
        k = k + 1;
    }
    None
}

/// The candidate profile files for `shell_env`, most preferred first: the
/// matching shell's files, or `.profile` alone when the shell is not
/// supported.
pub fn candidate_files(shell_env: &str) -> (r: Vec<&'static str>)
    ensures
        r.deep_view() == candidates_spec(shell_env@),
        r.deep_view().len() > 0,
{
    match resolve_shell(shell_env) {
        Some(k) => {
            proof {
                assert forall|j: int| is_first_match(shell_env@, j) implies j == k by {
                    if j < k {
                        assert(!has_substring(shell_env@, shell_name_spec(j)));
                    } else if j > k {
                        assert(!has_substring(shell_env@, shell_name_spec(k as int)));
                    }
                }
            }
            shell_files(k)
        },
        None => {
            let r = vec![".profile"];
            assert(r.deep_view() =~= fallback_files());
            r
        },
    }
}

} // verus!
