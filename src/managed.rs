//! The managed PowerShell profile script: a versioned template whose
//! terminator line marks where generated commands are inserted.

use vstd::prelude::*;
use vstd::string::*;
use crate::profile::line_begins_with;
use crate::text::{chars_of, matches_at, occurs_at};

verus! {

/// Why a command could not be inserted.
#[derive(PartialEq, Eq, Structural, Clone, Copy, Debug)]
pub enum InjectError {
    /// The script has no terminator line: it is corrupt or not ours.
    MissingTerminator,
}

/// The line that ends the block of generated commands.
pub open spec fn terminator_spec() -> Seq<char> {
    "# ----------------------------------SET_ENV_DEFS_END"@
}

/// The start of the comment line that records the template's version.
pub open spec fn version_prefix_spec() -> Seq<char> {
    "# ----------------------------------VER"@
}

/// The token of the template that stands for the version.
pub open spec fn version_token_spec() -> Seq<char> {
    "${VER}"@
}

/// The line separator of the managed script.
pub open spec fn crlf() -> Seq<char> {
    "\r\n"@
}

/// The terminator line of the managed script.
pub fn terminator() -> (r: &'static str)
    ensures
        r@ == terminator_spec(),
{
    "# ----------------------------------SET_ENV_DEFS_END"
}

/// The start of the managed script's version comment line.
pub fn version_prefix() -> (r: &'static str)
    ensures
        r@ == version_prefix_spec(),
{
    "# ----------------------------------VER"
}

/// `s` with every occurrence of `p`, scanned left to right, replaced by `r`.
pub open spec fn replace_all(s: Seq<char>, p: Seq<char>, r: Seq<char>) -> Seq<char>
    decreases s.len(),
{
    if p.len() == 0 || s.len() < p.len() {
        s
    } else if s.subrange(0, p.len() as int) == p {
        r + replace_all(s.subrange(p.len() as int, s.len() as int), p, r)
    } else {
        seq![s[0]] + replace_all(s.subrange(1, s.len() as int), p, r)
    }
}

/// The template with the version token replaced by `version`.
pub fn render_template(template: &str, version: &str) -> (r: String)
    ensures
        r@ == replace_all(template@, version_token_spec(), version@),
{
    let s = chars_of(template);
    let p = chars_of("${VER}");
    proof {
        reveal_strlit("${VER}");
    }
    let n = s.len();
    let plen = p.len();
    let ghost tgt = replace_all(s@, p@, version@);
    let mut out = String::new();
    let mut seg: usize = 0;
    let mut i: usize = 0;
    assert(s@.subrange(0, n as int) =~= s@);
    assert(out@ + s@.subrange(0, 0) =~= Seq::<char>::empty());
    while plen <= n && i <= n - plen
        invariant
            s@ == template@,
            p@ == version_token_spec(),
            plen == p@.len(),
            plen == 6,
            n == s@.len(),
            seg <= i <= n,
            tgt == replace_all(s@, p@, version@),
            out@ + s@.subrange(seg as int, i as int) + replace_all(s@.subrange(i as int, n as int), p@, version@) == tgt,
        decreases n - i,
    {
        let ghost rest = s@.subrange(i as int, n as int);
        if matches_at(&s, &p, i) {
            assert(rest.subrange(0, plen as int) =~= p@);
            assert(rest.subrange(plen as int, rest.len() as int) =~= s@.subrange(i + plen, n as int));
            let piece = template.substring_char(seg, i);
            out.append(piece);
            out.append(version);
            seg = i + plen;
            i = i + plen;
            assert(s@.subrange(seg as int, i as int) =~= Seq::<char>::empty());
        } else {
            assert(rest.subrange(0, plen as int) != p@) by {
                assert(s@.subrange(i as int, i + plen) =~= rest.subrange(0, plen as int));
            }
            assert(rest.subrange(1, rest.len() as int) =~= s@.subrange(i + 1, n as int));
            assert(s@.subrange(seg as int, i + 1) =~= s@.subrange(seg as int, i as int) + seq![rest[0]]);
            i = i + 1;
        }
    }
    let piece = template.substring_char(seg, n);
    out.append(piece);
    assert(s@.subrange(seg as int, i as int) + s@.subrange(i as int, n as int) =~= s@.subrange(seg as int, n as int));
    out
}

/// No newline in `s` from `i` up to `e`, and `e` ends the line: a newline
/// stands there, or the text ends.
pub open spec fn is_line_end(s: Seq<char>, i: int, e: int) -> bool {
    &&& 0 <= i <= e <= s.len()
    &&& (e == s.len() || s[e] == '\n')
    &&& forall|j: int| i <= j < e ==> s[j] != '\n'
}

/// The text of the line from `a` to its end `e`, without the carriage
/// return of a `\r\n` line break.
pub open spec fn line_text(s: Seq<char>, a: int, e: int) -> Seq<char> {
    if e < s.len() && e > a && s[e - 1] == '\r' {
        s.subrange(a, e - 1)
    } else {
        s.subrange(a, e)
    }
}

/// `k` starts the first line of `s` that begins with the version prefix.
pub open spec fn is_first_version_line(s: Seq<char>, k: int) -> bool {
    &&& line_begins_with(s, version_prefix_spec(), k)
    &&& forall|j: int| 0 <= j < k ==> !line_begins_with(s, version_prefix_spec(), j)
}

/// No line of `s` begins with the version prefix.
pub open spec fn has_no_version_line(s: Seq<char>) -> bool {
    forall|k: int| !line_begins_with(s, version_prefix_spec(), k)
}

/// The first version line of `s` starts at `k` and ends at `e`.
pub open spec fn version_line_at(s: Seq<char>, k: int, e: int) -> bool {
    is_first_version_line(s, k) && is_line_end(s, k + version_prefix_spec().len(), e)
}

/// The first version line of `s` records version `v`.
pub open spec fn records_version(s: Seq<char>, v: Seq<char>) -> bool {
    exists|k: int, e: int|
        #[trigger] version_line_at(s, k, e) && line_text(s, k + version_prefix_spec().len(), e)
            == v
}

/// A script has at most one first version line, and that line one end.
proof fn lemma_version_line_unique(s: Seq<char>, k1: int, e1: int, k2: int, e2: int)
    requires
        version_line_at(s, k1, e1),
        version_line_at(s, k2, e2),
    ensures
        k1 == k2,
        e1 == e2,
{
    if e1 < e2 {
        assert(s[e1] != '\n');
    } else if e2 < e1 {
        assert(s[e2] != '\n');
    }
}

/// The version recorded by the first version line of a managed script, or
/// `None` when no line begins with the version prefix.
pub fn installed_version(content: &str) -> (r: Option<String>)
    ensures
        match r {
            None => has_no_version_line(content@),
            Some(t) => forall|v: Seq<char>| records_version(content@, v) <==> v == t@,
        },
{
    let s = chars_of(content);
    let p = chars_of(version_prefix());
    let n = s.len();
    let mut k: usize = 0;
    while k <= n
        invariant
            s@ == content@,
            p@ == version_prefix_spec(),
            n == s@.len(),
            k <= n + 1,
            forall|j: int| 0 <= j < k ==> !line_begins_with(s@, p@, j),
        decreases n + 1 - k,
    {
        if (k == 0 || s[k - 1] == '\n') && matches_at(&s, &p, k) {
            let a = k + p.len();
            let mut e: usize = a;
            while e < n && s[e] != '\n'
                invariant
                    s@ == content@,
                    n == s@.len(),
                    a <= e <= n,
                    forall|j: int| a <= j < e ==> s@[j] != '\n',
                decreases n - e,
            {
                e = e + 1;
            }
            let t_end = if e < n && e > a && s[e - 1] == '\r' {
                e - 1
            } else {
                e
            };
            let t = String::from_str(content.substring_char(a, t_end));
            proof {
                assert(version_line_at(s@, k as int, e as int));
                assert(t@ == line_text(s@, a as int, e as int));
                assert forall|v: Seq<char>| records_version(content@, v) <==> v == t@ by {
                    if records_version(content@, v) {
                        let (k2, e2) = choose|k2: int, e2: int|
                            #[trigger] version_line_at(s@, k2, e2) && line_text(
                                s@,
                                k2 + version_prefix_spec().len(),
                                e2,
                            ) == v;
                        lemma_version_line_unique(s@, k as int, e as int, k2, e2);
                    }
                }
            }
            return Some(t);
        }
        if k == n {
            return None;
        }
        k = k + 1;
    }
    None
}

/// The script to act on before inserting: the existing one when its version
/// line records `version`, else the freshly rendered template.
pub open spec fn script_before_insert(
    existing: Option<Seq<char>>,
    template: Seq<char>,
    version: Seq<char>,
) -> Seq<char> {
    match existing {
        Some(c) => if records_version(c, version) {
            c
        } else {
            replace_all(template, version_token_spec(), version)
        },
        None => replace_all(template, version_token_spec(), version),
    }
}

/// The content of an optional script, as characters.
pub open spec fn opt_view(o: Option<&str>) -> Option<Seq<char>> {
    match o {
        Some(c) => Some(c@),
        None => None,
    }
}

/// Brings the managed script up to date. `existing` is its content, `None`
/// when the file is absent. Returns the content to write, or `None` when the
/// script already records `version` and must be left alone.
pub fn do_prerequisites(existing: Option<&str>, template: &str, version: &str) -> (r: Option<
    String,
>)
    ensures
        match existing {
            Some(c) => if records_version(c@, version@) {
                r is None
            } else {
                r is Some && r->0@ == replace_all(template@, version_token_spec(), version@)
            },
            None => r is Some && r->0@ == replace_all(template@, version_token_spec(), version@),
        },
{
    match existing {
        None => Some(render_template(template, version)),
        Some(c) => {
            let current = match installed_version(c) {
                Some(t) => {
                    let same = t == String::from_str(version);
                    assert(same == (t@ == version@));
                    same
                },
                None => {
                    assert(!records_version(c@, version@)) by {
                        if records_version(c@, version@) {
                            let (k2, e2) = choose|k2: int, e2: int|
                                #[trigger] version_line_at(c@, k2, e2) && line_text(
                                    c@,
                                    k2 + version_prefix_spec().len(),
                                    e2,
                                ) == version@;
                            assert(line_begins_with(c@, version_prefix_spec(), k2));
                        }
                    }
                    false
                },
            };
            if current {
                None
            } else {
                Some(render_template(template, version))
            }
        },
    }
}

/// Index `k` of `s` starts a `\r\n`-separated line.
pub open spec fn crlf_line_start(s: Seq<char>, k: int) -> bool {
    k == 0 || (2 <= k <= s.len() && s[k - 2] == '\r' && s[k - 1] == '\n')
}

/// The line of `s` that starts at `k` is the terminator line.
pub open spec fn terminator_at(s: Seq<char>, k: int) -> bool {
    &&& crlf_line_start(s, k)
    &&& occurs_at(s, terminator_spec(), k)
    &&& (k + terminator_spec().len() == s.len() || occurs_at(
        s,
        crlf(),
        k + terminator_spec().len(),
    ))
}

/// `k` starts the first terminator line of `s`.
pub open spec fn first_terminator(s: Seq<char>, k: int) -> bool {
    terminator_at(s, k) && forall|j: int| 0 <= j < k ==> !terminator_at(s, j)
}

/// No line of `s` is the terminator line.
pub open spec fn has_no_terminator(s: Seq<char>) -> bool {
    forall|k: int| !terminator_at(s, k)
}

/// `s` with `line` inserted as a line of its own at index `k`.
pub open spec fn inserted(s: Seq<char>, k: int, line: Seq<char>) -> Seq<char> {
    s.subrange(0, k) + line + crlf() + s.subrange(k, s.len() as int)
}

/// What inserting `line` before the first terminator line of `s` gives.
pub open spec fn inject_result(s: Seq<char>, line: Seq<char>, r: Result<String, InjectError>) -> bool {
    match r {
        Ok(t) => exists|k: int| #[trigger] first_terminator(s, k) && t@ == inserted(s, k, line),
        Err(e) => e == InjectError::MissingTerminator && has_no_terminator(s),
    }
}

/// Inserts `line` into a managed script, on a line of its own just before
/// the first terminator line; the rest of the script is kept as it is.
pub fn inject(content: &str, line: &str) -> (r: Result<String, InjectError>)
    ensures
        inject_result(content@, line@, r),
{
    let s = chars_of(content);
    let t = chars_of(terminator());
    let sep = chars_of("\r\n");
    proof {
        reveal_strlit("\r\n");
    }
    let n = s.len();
    let mut k: usize = 0;
    while k <= n
        invariant
            s@ == content@,
            t@ == terminator_spec(),
            sep@ == crlf(),
            sep@.len() == 2,
            n == s@.len(),
            k <= n + 1,
            forall|j: int| 0 <= j < k ==> !terminator_at(s@, j),
        decreases n + 1 - k,
    {
        let starts = k == 0 || (k >= 2 && s[k - 2] == '\r' && s[k - 1] == '\n');
        if starts && matches_at(&s, &t, k) {
            let end = k + t.len();
            if end == n || matches_at(&s, &sep, end) {
                let mut r = String::from_str(content.substring_char(0, k));
                r.append(line);
                r.append("\r\n");
                r.append(content.substring_char(k, n));
                assert(first_terminator(s@, k as int));
                assert(r@ =~= inserted(s@, k as int, line@));
                return Ok(r);
            }
        }
        if k == n {
            return Err(InjectError::MissingTerminator);
        }
        k = k + 1;
    }
    Err(InjectError::MissingTerminator)
}

/// Brings the managed script up to date and inserts `line` into it.
/// `existing` is the script's content, `None` when the file is absent.
/// A script that records `version` only gains the line; any other is
/// replaced by the rendered template first.
pub fn managed_script_update(
    existing: Option<&str>,
    template: &str,
    version: &str,
    line: &str,
) -> (r: Result<String, InjectError>)
    ensures
        inject_result(script_before_insert(opt_view(existing), template@, version@), line@, r),
{
    match do_prerequisites(existing, template, version) {
        Some(fresh) => inject(fresh.as_str(), line),
        None => {
            let c = existing.unwrap();
            inject(c, line)
        },
    }
}

/// A script that already records the current version is kept byte for
/// byte, apart from the one new line inserted just before its first
/// terminator line; the insertion succeeds whenever it has one.
pub proof fn lemma_current_script_gains_one_line(
    c: Seq<char>,
    template: Seq<char>,
    version: Seq<char>,
    line: Seq<char>,
    r: Result<String, InjectError>,
)
    requires
        records_version(c, version),
        inject_result(script_before_insert(Some(c), template, version), line, r),
    ensures
        (exists|k: int| terminator_at(c, k)) ==> r is Ok,
        r is Ok ==> exists|k: int|
            #[trigger] first_terminator(c, k) && r->Ok_0@ == inserted(c, k, line),
        r is Ok ==> r->Ok_0@.len() == c.len() + line.len() + 2,
{
    reveal_strlit("\r\n");
    if r is Ok {
        let k = choose|k: int| #[trigger] first_terminator(c, k) && r->Ok_0@ == inserted(c, k, line);
        assert(r->Ok_0@.len() == c.len() + line.len() + 2);
    }
}

/// A script that is absent, records no version, or records another one is
/// replaced by the rendered template before the line is inserted.
pub proof fn lemma_stale_script_is_replaced(
    existing: Option<Seq<char>>,
    template: Seq<char>,
    version: Seq<char>,
    line: Seq<char>,
    r: Result<String, InjectError>,
)
    requires
        match existing {
            Some(c) => !records_version(c, version),
            None => true,
        },
        inject_result(script_before_insert(existing, template, version), line, r),
    ensures
        inject_result(replace_all(template, version_token_spec(), version), line, r),
{
}

} // verus!
