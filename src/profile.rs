//! Choosing the profile file to write to, and the text appended to it.

use vstd::prelude::*;
use vstd::string::*;
use crate::assignment::{unix_line, Operation};
use crate::registry::{candidates_spec, no_match};
use crate::text::{chars_of, contains, has_substring, occurs_at};

verus! {

/// Where the walk over the candidate files stopped.
#[derive(PartialEq, Eq, Structural, Clone, Copy, Debug)]
pub struct ProfileTarget {
    /// Index of the chosen candidate.
    pub index: usize,
    /// The candidate lives in a subdirectory that must be created first.
    pub create_dirs: bool,
}

/// The walk stops at candidate `i`: it exists, or it lives in a subdirectory.
pub open spec fn stops_at(cands: Seq<Seq<char>>, exists: Seq<bool>, i: int) -> bool {
    exists[i] || has_substring(cands[i], "/"@)
}

/// `(index, create_dirs)` is the target chosen among `cands`, given which of
/// them exist: the first candidate that exists or lives in a subdirectory
/// (whose directories are then created when it does not exist), else the
/// first candidate.
pub open spec fn is_choice(cands: Seq<Seq<char>>, exists: Seq<bool>, index: int, create_dirs: bool) -> bool {
    if exists|i: int| 0 <= i < cands.len() && stops_at(cands, exists, i) {
        &&& 0 <= index < cands.len()
        &&& stops_at(cands, exists, index)
        &&& forall|j: int| 0 <= j < index ==> !stops_at(cands, exists, j)
        &&& create_dirs == !exists[index]
    } else {
        index == 0 && !create_dirs
    }
}

/// Picks the profile file among `candidates`, most preferred first, where
/// `exists[i]` tells whether candidate `i` exists as a file.
pub fn choose_profile(candidates: &Vec<&str>, exists: &Vec<bool>) -> (r: ProfileTarget)
    requires
        candidates@.len() > 0,
        exists@.len() == candidates@.len(),
    ensures
        is_choice(candidates.deep_view(), exists@, r.index as int, r.create_dirs),
{
    let ghost cands = candidates.deep_view();
    let slash = chars_of("/");
    let mut i: usize = 0;
    while i < candidates.len()
        invariant
            cands == candidates.deep_view(),
            cands.len() == candidates@.len(),
            exists@.len() == candidates@.len(),
            slash@ == "/"@,
            i <= candidates@.len(),
            forall|j: int| 0 <= j < i ==> !stops_at(cands, exists@, j),
        decreases candidates@.len() - i,
    {
        let in_subdir = contains(&chars_of(candidates[i]), &slash);
        assert(cands[i as int] == candidates@[i as int]@);
        if exists[i] || in_subdir {
            assert(stops_at(cands, exists@, i as int));
            return ProfileTarget { index: i, create_dirs: !exists[i] };
        }
        i = i + 1;
    }
    ProfileTarget { index: 0, create_dirs: false }
}

/// The text appended to a profile file for one assignment line: the line on
/// a line of its own, whatever the file ended with.
pub open spec fn record_spec(line: Seq<char>) -> Seq<char> {
    "\n"@ + line + "\n"@
}

/// The profile file's content after `line` has been appended to it.
pub open spec fn after_append(file: Seq<char>, line: Seq<char>) -> Seq<char> {
    file + record_spec(line)
}

/// The text to append to a profile file for `line`.
pub fn profile_record(line: &str) -> (r: String)
    ensures
        r@ == record_spec(line@),
{
    let mut r = String::from_str("\n");
    r.append(line);
    r.append("\n");
    r
}

/// Index `k` of `s` starts a line.
pub open spec fn line_start(s: Seq<char>, k: int) -> bool {
    k == 0 || (0 < k <= s.len() && s[k - 1] == '\n')
}

/// A line of `s` starts at `k` with `p`.
pub open spec fn line_begins_with(s: Seq<char>, p: Seq<char>, k: int) -> bool {
    line_start(s, k) && occurs_at(s, p, k)
}

/// `s` holds no line break.
pub open spec fn single_line(s: Seq<char>) -> bool {
    forall|i: int| 0 <= i < s.len() ==> s[i] != '\n'
}

/// The prefix of the line that assigns `var` in a profile file.
pub open spec fn export_prefix(var: Seq<char>) -> Seq<char> {
    "export "@ + var + "="@
}

/// When the first candidate file exists it is chosen, whatever the state of
/// the later candidates, and no directory is created.
pub proof fn lemma_first_existing_candidate_wins(
    cands: Seq<Seq<char>>,
    exists: Seq<bool>,
    index: int,
    create_dirs: bool,
)
    requires
        cands.len() > 0,
        exists.len() == cands.len(),
        exists[0],
    ensures
        is_choice(cands, exists, index, create_dirs) <==> (index == 0 && !create_dirs),
{
    assert(stops_at(cands, exists, 0));
}

/// A shell that is not in the table gets `.profile`, without a directory
/// being created, whether or not that file exists.
pub proof fn lemma_unsupported_shell_uses_dot_profile(
    env: Seq<char>,
    exists: Seq<bool>,
    index: int,
    create_dirs: bool,
)
    requires
        no_match(env),
        exists.len() == 1,
        is_choice(candidates_spec(env), exists, index, create_dirs),
    ensures
        candidates_spec(env)[index] == ".profile"@,
        !create_dirs,
{
    reveal_strlit(".profile");
    reveal_strlit("/");
    let c = candidates_spec(env);
    assert(c.len() == 1);
    assert(!has_substring(c[0], "/"@)) by {
        assert forall|i: int| !occurs_at(c[0], "/"@, i) by {
            if occurs_at(c[0], "/"@, i) {
                assert(c[0].subrange(i, i + 1)[0] == '/');
            }
        }
    }
}

/// Appending the same line twice keeps both copies, in order, each on a
/// line of its own.
pub proof fn lemma_appends_accumulate(file: Seq<char>, line: Seq<char>)
    ensures
        ({
            let f2 = after_append(after_append(file, line), line);
            let a = file.len() + 1int;
            let b = file.len() + line.len() + 3int;
            &&& f2.len() == file.len() + 2 * line.len() + 4
            &&& f2.subrange(0, file.len() as int) == file
            &&& line_begins_with(f2, line + "\n"@, a)
            &&& line_begins_with(f2, line + "\n"@, b)
        }),
{
    reveal_strlit("\n");
    let f2 = after_append(after_append(file, line), line);
    let a = file.len() + 1int;
    let b = file.len() + line.len() + 3int;
    assert(f2.subrange(0, file.len() as int) =~= file);
    assert(f2.subrange(a, a + line.len() + 1) =~= line + "\n"@);
    assert(f2.subrange(b, b + line.len() + 1) =~= line + "\n"@);
}

/// After a `set` of `var` to `value` has been appended to a profile file,
/// the last line that assigns `var` is the new one, and it holds `value`.
pub proof fn lemma_last_assignment_is_latest(file: Seq<char>, var: Seq<char>, value: Seq<char>)
    requires
        single_line(var),
        single_line(value),
    ensures
        ({
            let f2 = after_append(file, unix_line(Operation::Assign, var, value));
            let p = export_prefix(var);
            let k0 = file.len() + 1int;
            &&& line_begins_with(f2, p, k0)
            &&& f2.subrange(k0 + p.len(), k0 + p.len() + value.len()) == value
            &&& f2[k0 + p.len() + value.len()] == '\n'
            &&& forall|k: int| k > k0 ==> !line_begins_with(f2, p, k)
        }),
{
    reveal_strlit("\n");
    reveal_strlit("export ");
    reveal_strlit("=");
    let line = unix_line(Operation::Assign, var, value);
    let f2 = after_append(file, line);
    let p = export_prefix(var);
    let k0 = file.len() + 1int;
    assert(line =~= p + value);
    assert(f2.subrange(k0, k0 + p.len()) =~= p);
    assert(f2.subrange(k0 + p.len(), k0 + p.len() + value.len()) =~= value);
    assert(single_line(line)) by {
        assert forall|i: int| 0 <= i < line.len() implies line[i] != '\n' by {
            if i < 7 {
            } else if i < 7 + var.len() {
                assert(line[i] == var[i - 7]);
            } else if i == 7 + var.len() {
            } else {
                assert(line[i] == value[i - 8 - var.len()]);
            }
        }
    }
    assert forall|k: int| k > k0 implies !line_begins_with(f2, p, k) by {
        if line_begins_with(f2, p, k) {
            assert(f2[k - 1] == line[k - 1 - k0]);
        }
    }
}

} // verus!
