//! The exception protocol: a time-boxed allowlist that suppresses matching
//! violations, and fails closed when the allowlist itself is invalid.

use crate::api::{Violation, ViolationTier};
use crate::text::{
    chars_eq, chars_of, chars_starts_with, decimal_spec, i64_to_string, seq_starts_with,
    signed_decimal_spec, slice_vec, string_of, trim_chars, trim_spec, u64_to_string,
};
use vstd::string::*;
use chrono::Datelike;
use vstd::prelude::*;

verus! {

/// Where the allowlist lives, relative to the repository root.
pub fn allowlist_rel_path() -> (s: &'static str)
    ensures
        s@ == allowlist_path_spec(),
{
    ".agents/mcp/compas/allowlist.toml"
}

pub open spec fn allowlist_path_spec() -> Seq<char> {
    ".agents/mcp/compas/allowlist.toml"@
}

/// One `[[exceptions]]` entry as written in the allowlist.
#[derive(Debug, Clone)]
pub struct ExceptionEntry {
    pub id: String,
    pub rule: String,
    pub path: String,
    pub owner: String,
    pub reason: String,
    pub expires_at: Option<String>,
}

/// The violations that stand after the allowlist, and those it suppressed.
pub struct SuppressionResult {
    pub violations: Vec<Violation>,
    pub suppressed: Vec<Violation>,
}

/// Why an allowlist entry is invalid.
#[derive(Debug, Clone, Copy, PartialEq, Eq, Structural)]
pub enum EntryProblem {
    EmptyId,
    DuplicateId,
    EmptyRule,
    EmptyPath,
    UnsafePath,
    GlobPath,
    EmptyOwner,
    EmptyReason,
    MissingExpiry,
    InvalidExpiry,
}

// ---------------------------------------------------------------------------
// Paths

pub open spec fn replace_backslashes(s: Seq<char>) -> Seq<char> {
    s.map_values(|c: char| if c == '\\' { '/' } else { c })
}

/// `s` with every leading "./" removed.
pub open spec fn strip_dot_slash(s: Seq<char>) -> Seq<char>
    decreases s.len(),
{
    if s.len() >= 2 && s[0] == '.' && s[1] == '/' {
        strip_dot_slash(s.skip(2))
    } else {
        s
    }
}

/// Exception paths are compared trimmed, with '/' separators and without a leading "./".
pub open spec fn normalize_path_spec(raw: Seq<char>) -> Seq<char> {
    strip_dot_slash(replace_backslashes(trim_spec(raw)))
}

pub open spec fn is_glob_char(c: char) -> bool {
    c == '*' || c == '?' || c == '[' || c == ']' || c == '{' || c == '}'
}

pub open spec fn has_glob_spec(s: Seq<char>) -> bool {
    exists|i: int| 0 <= i < s.len() && is_glob_char(#[trigger] s[i])
}

/// A ".." component starts at `i`.
pub open spec fn parent_component_at(s: Seq<char>, i: int) -> bool {
    &&& 0 <= i && i + 1 < s.len()
    &&& s[i] == '.' && s[i + 1] == '.'
    &&& i == 0 || s[i - 1] == '/'
    &&& i + 2 == s.len() || s[i + 2] == '/'
}

/// A relative path without root and without ".." components.
pub open spec fn relative_and_safe_spec(s: Seq<char>) -> bool {
    !(s.len() > 0 && s[0] == '/') && !(exists|i: int| parent_component_at(s, i))
}

fn normalize_path_chars(raw: &[char]) -> (out: Vec<char>)
    ensures
        out@ == normalize_path_spec(raw@),
{
    let t = trim_chars(raw);
    let mut r: Vec<char> = Vec::new();
    let mut i: usize = 0;
    while i < t.len()
        invariant
            i <= t@.len(),
            r@ == replace_backslashes(t@).take(i as int),
        decreases t@.len() - i,
    {
        let c = t[i];
        r.push(if c == '\\' { '/' } else { c });
        i += 1;
        assert(r@ =~= replace_backslashes(t@).take(i as int));
    }
    assert(r@ =~= replace_backslashes(t@));
    let mut start: usize = 0;
    while r.len() - start >= 2 && r[start] == '.' && r[start + 1] == '/'
        invariant
            start <= r@.len(),
            r@.len() == r.len(),
            strip_dot_slash(r@) == strip_dot_slash(r@.skip(start as int)),
        decreases r@.len() - start,
    {
        assert(r@.skip(start as int).skip(2) =~= r@.skip(start + 2));
        start += 2;
    }
    let out = slice_vec(r.as_slice(), start, r.len());
    assert(out@ =~= r@.skip(start as int));
    out
}

/// `raw` trimmed, with '/' separators and without leading "./".
pub fn normalize_exception_path(raw: &str) -> (out: String)
    ensures
        out@ == normalize_path_spec(raw@),
{
    let cs = chars_of(raw);
    let n = normalize_path_chars(cs.as_slice());
    string_of(n.as_slice())
}

fn has_glob_chars_slice(s: &[char]) -> (b: bool)
    ensures
        b == has_glob_spec(s@),
{
    let mut i: usize = 0;
    while i < s.len()
        invariant
            i <= s@.len(),
            forall|k: int| 0 <= k < i ==> !is_glob_char(#[trigger] s@[k]),
        decreases s@.len() - i,
    {
        let c = s[i];
        if c == '*' || c == '?' || c == '[' || c == ']' || c == '{' || c == '}' {
            return true;
        }
        i += 1;
    }
    false
}

/// Whether `s` holds a glob character (`*?[]{}`).
pub fn has_glob_chars(s: &str) -> (b: bool)
    ensures
        b == has_glob_spec(s@),
{
    let cs = chars_of(s);
    has_glob_chars_slice(cs.as_slice())
}

fn relative_and_safe_slice(s: &[char]) -> (b: bool)
    ensures
        b == relative_and_safe_spec(s@),
{
    if s.len() > 0 && s[0] == '/' {
        return false;
    }
    let mut i: usize = 0;
    while i < s.len()
        invariant
            i <= s@.len(),
            forall|k: int| 0 <= k < i ==> !parent_component_at(s@, k),
        decreases s@.len() - i,
    {
        if i + 1 < s.len() && s[i] == '.' && s[i + 1] == '.' && (i == 0 || s[i - 1] == '/') && (i + 2
            == s.len() || s[i + 2] == '/') {
            assert(parent_component_at(s@, i as int));
            return false;
        }
        i += 1;
    }
    assert forall|k: int| !parent_component_at(s@, k) by {
        if 0 <= k < s@.len() {
        }
    }
    true
}

/// A relative path that has no root and no ".." component.
pub fn is_relative_and_safe(path: &str) -> (b: bool)
    ensures
        b == relative_and_safe_spec(path@),
{
    let cs = chars_of(path);
    relative_and_safe_slice(cs.as_slice())
}

// ---------------------------------------------------------------------------
// Dates

/// The day number (days since 0001-01-01 counted from 1) of a `YYYY-MM-DD` date.
pub uninterp spec fn spec_parse_ymd(s: Seq<char>) -> Option<i32>;

/// Parses a `YYYY-MM-DD` date with chrono's `NaiveDate::parse_from_str` and
/// gives its `num_days_from_ce`; on failure the error text chrono printed.
#[verifier::external_body]
fn parse_ymd(s: &str) -> (r: Result<i32, String>)
    ensures
        r is Ok <==> spec_parse_ymd(s@) is Some,
        r matches Ok(d) ==> spec_parse_ymd(s@) == Some(d),
{
    match chrono::NaiveDate::parse_from_str(s, "%Y-%m-%d") {
        Ok(d) => Ok(d.num_days_from_ce()),
        Err(e) => Err(e.to_string()),
    }
}

// ---------------------------------------------------------------------------
// Entries

pub open spec fn nid(e: ExceptionEntry) -> Seq<char> {
    trim_spec(e.id@)
}

pub open spec fn nrule(e: ExceptionEntry) -> Seq<char> {
    trim_spec(e.rule@)
}

pub open spec fn npath(e: ExceptionEntry) -> Seq<char> {
    normalize_path_spec(e.path@)
}

/// The trimmed `expires_at`, when it is present and not blank.
pub open spec fn expiry_spec(e: ExceptionEntry) -> Option<Seq<char>> {
    match e.expires_at {
        Some(x) => if trim_spec(x@).len() > 0 {
            Some(trim_spec(x@))
        } else {
            None
        },
        None => None,
    }
}

/// The first problem of entry `e`, given the entries before it.
pub open spec fn entry_problem(e: ExceptionEntry, before: Seq<ExceptionEntry>) -> Option<EntryProblem> {
    if nid(e).len() == 0 {
        Some(EntryProblem::EmptyId)
    } else if exists|k: int| 0 <= k < before.len() && nid(#[trigger] before[k]) == nid(e) {
        Some(EntryProblem::DuplicateId)
    } else if nrule(e).len() == 0 {
        Some(EntryProblem::EmptyRule)
    } else if npath(e).len() == 0 {
        Some(EntryProblem::EmptyPath)
    } else if !relative_and_safe_spec(npath(e)) {
        Some(EntryProblem::UnsafePath)
    } else if has_glob_spec(npath(e)) {
        Some(EntryProblem::GlobPath)
    } else if trim_spec(e.owner@).len() == 0 {
        Some(EntryProblem::EmptyOwner)
    } else if trim_spec(e.reason@).len() == 0 {
        Some(EntryProblem::EmptyReason)
    } else {
        match expiry_spec(e) {
            None => Some(EntryProblem::MissingExpiry),
            Some(x) => if spec_parse_ymd(x) is None {
                Some(EntryProblem::InvalidExpiry)
            } else {
                None
            },
        }
    }
}

/// The index and kind of the first invalid entry, if any.
pub open spec fn first_problem(entries: Seq<ExceptionEntry>) -> Option<(int, EntryProblem)>
    decreases entries.len(),
{
    if entries.len() == 0 {
        None
    } else {
        match first_problem(entries.drop_last()) {
            Some(x) => Some(x),
            None => match entry_problem(entries.last(), entries.drop_last()) {
                Some(p) => Some((entries.len() - 1, p)),
                None => None,
            },
        }
    }
}

pub open spec fn entry_day(e: ExceptionEntry) -> int {
    spec_parse_ymd(expiry_spec(e).unwrap()).unwrap() as int
}

pub open spec fn entry_expired(e: ExceptionEntry, today: int) -> bool {
    entry_day(e) < today
}

pub open spec fn entry_window_exceeded(e: ExceptionEntry, today: int, max_days: Option<u32>) -> bool {
    !entry_expired(e, today) && max_days is Some && entry_day(e) - today > max_days.unwrap()
}

/// A valid entry that neither expired nor exceeds the window: it suppresses.
pub open spec fn entry_active(e: ExceptionEntry, today: int, max_days: Option<u32>) -> bool {
    !entry_expired(e, today) && !entry_window_exceeded(e, today, max_days)
}

pub open spec fn raw_expiry(e: ExceptionEntry) -> Seq<char> {
    match e.expires_at {
        Some(x) => x@,
        None => "<missing>"@,
    }
}

pub open spec fn expired_message(e: ExceptionEntry) -> Seq<char> {
    "allowlist exception expired: id="@ + nid(e) + " rule="@ + nrule(e) + " path="@ + npath(e)
        + " expires_at="@ + raw_expiry(e)
}

pub open spec fn window_message(e: ExceptionEntry, today: int, max_days: u32) -> Seq<char> {
    "allowlist exception window exceeds max_exception_window_days: id="@ + nid(e) + " rule="@
        + nrule(e) + " path="@ + npath(e) + " expires_at="@ + raw_expiry(e) + " days_ahead="@
        + signed_decimal_spec(entry_day(e) - today) + " max_days="@ + decimal_spec(max_days as nat)
}

/// `v` is the violation an expired or out-of-window entry `e` yields.
pub open spec fn expiry_violation(v: Violation, e: ExceptionEntry, today: int, max_days: Option<u32>) -> bool {
    &&& v.tier == ViolationTier::Blocking
    &&& v.details is None
    &&& v.path is Some && v.path.unwrap()@ == allowlist_path_spec()
    &&& if entry_expired(e, today) {
        v.code@ == "exception.expired"@ && v.message@ == expired_message(e)
    } else {
        v.code@ == "exception.window_exceeded"@ && v.message@ == window_message(e, today, max_days.unwrap())
    }
}

/// `vs` holds, in entry order, one expiry violation per expired or
/// out-of-window entry of `entries`, and nothing else.
pub open spec fn expiry_violations(vs: Seq<Violation>, entries: Seq<ExceptionEntry>, today: int, max_days: Option<u32>) -> bool
    decreases entries.len(),
{
    if entries.len() == 0 {
        vs.len() == 0
    } else if entry_active(entries.last(), today, max_days) {
        expiry_violations(vs, entries.drop_last(), today, max_days)
    } else {
        vs.len() > 0 && expiry_violation(vs.last(), entries.last(), today, max_days)
            && expiry_violations(vs.drop_last(), entries.drop_last(), today, max_days)
    }
}

/// Violation `v` is covered by an active entry: same rule and same normalized path.
/// Violations of the exception protocol itself are never covered.
pub open spec fn covered(v: Violation, entries: Seq<ExceptionEntry>, today: int, max_days: Option<u32>) -> bool {
    &&& !seq_starts_with(v.code@, "exception."@)
    &&& v.path is Some
    &&& exists|j: int|
        0 <= j < entries.len() && entry_active(#[trigger] entries[j], today, max_days) && nrule(entries[j])
            == v.code@ && npath(entries[j]) == normalize_path_spec(v.path.unwrap()@)
}

/// The violations of `input` that are not covered, in order.
pub open spec fn uncovered_spec(input: Seq<Violation>, entries: Seq<ExceptionEntry>, today: int, max_days: Option<u32>) -> Seq<Violation>
    decreases input.len(),
{
    if input.len() == 0 {
        seq![]
    } else if covered(input.last(), entries, today, max_days) {
        uncovered_spec(input.drop_last(), entries, today, max_days)
    } else {
        uncovered_spec(input.drop_last(), entries, today, max_days).push(input.last())
    }
}

/// The violations of `input` that are covered, in order.
pub open spec fn covered_spec(input: Seq<Violation>, entries: Seq<ExceptionEntry>, today: int, max_days: Option<u32>) -> Seq<Violation>
    decreases input.len(),
{
    if input.len() == 0 {
        seq![]
    } else if covered(input.last(), entries, today, max_days) {
        covered_spec(input.drop_last(), entries, today, max_days).push(input.last())
    } else {
        covered_spec(input.drop_last(), entries, today, max_days)
    }
}

/// The message of the allowlist error for `problem` in entry `e`.
pub open spec fn problem_message_prefix(problem: EntryProblem, e: ExceptionEntry) -> Seq<char> {
    match problem {
        EntryProblem::EmptyId => "exception entry has empty id"@,
        EntryProblem::DuplicateId => "duplicate exception id="@ + nid(e) + " (ids must be unique)"@,
        EntryProblem::EmptyRule => "exception id="@ + nid(e) + " has empty rule"@,
        EntryProblem::EmptyPath => "exception id="@ + nid(e) + " has empty path"@,
        EntryProblem::UnsafePath => "exception id="@ + nid(e) + " has unsafe/absolute path="@ + npath(e),
        EntryProblem::GlobPath => "exception id="@ + nid(e)
            + " uses glob characters in path (globs are forbidden): "@ + npath(e),
        EntryProblem::EmptyOwner => "exception id="@ + nid(e) + " has empty owner"@,
        EntryProblem::EmptyReason => "exception id="@ + nid(e) + " has empty reason"@,
        EntryProblem::MissingExpiry => "exception id="@ + nid(e)
            + " must include expires_at in YYYY-MM-DD for time-boxed suppression"@,
        EntryProblem::InvalidExpiry => "exception id="@ + nid(e) + " has invalid expires_at="@
            + crate::text::debug_str(expiry_spec(e).unwrap()) + ": "@,
    }
}

/// `v` is the fail-closed error about the allowlist, with a message starting with `msg`
/// (exactly `msg`, unless the entry's date failed to parse: then chrono's error follows).
pub open spec fn allowlist_error(v: Violation, msg: Seq<char>, exact: bool) -> bool {
    &&& v.code@ == "exception.allowlist_invalid"@
    &&& v.tier == ViolationTier::Blocking
    &&& v.details is None
    &&& v.path is Some && v.path.unwrap()@ == allowlist_path_spec()
    &&& if exact { v.message@ == msg } else { seq_starts_with(v.message@, msg) }
}

/// The error violation for an invalid allowlist, carrying `message`.
pub fn allowlist_invalid(message: String) -> (v: Violation)
    ensures
        allowlist_error(v, message@, true),
{
    Violation::blocking(
        String::from_str("exception.allowlist_invalid"),
        message,
        Some(String::from_str(allowlist_rel_path())),
        None,
    )
}

/// Fail closed: `violation` first, then every input violation; nothing suppressed.
pub fn fail_closed(input: Vec<Violation>, violation: Violation) -> (r: SuppressionResult)
    ensures
        r.violations@ == seq![violation] + input@,
        r.suppressed@.len() == 0,
{
    let mut violations: Vec<Violation> = Vec::new();
    violations.push(violation);
    let mut input = input;
    violations.append(&mut input);
    SuppressionResult { violations, suppressed: Vec::new() }
}

/// Number of entries that expired or exceed the window.
pub open spec fn expiry_count(entries: Seq<ExceptionEntry>, today: int, max_days: Option<u32>) -> nat
    decreases entries.len(),
{
    if entries.len() == 0 {
        0
    } else {
        expiry_count(entries.drop_last(), today, max_days) + if entry_active(entries.last(), today, max_days) {
            0nat
        } else {
            1nat
        }
    }
}

proof fn lemma_first_problem_prefix(s: Seq<ExceptionEntry>, k: int)
    requires
        0 <= k <= s.len(),
    ensures
        first_problem(s.take(k)) is Some ==> first_problem(s) == first_problem(s.take(k)),
        first_problem(s) is None ==> first_problem(s.take(k)) is None,
    decreases s.len(),
{
    if k == s.len() {
        assert(s.take(k) =~= s);
    } else {
        assert(s.drop_last().take(k) =~= s.take(k));
        lemma_first_problem_prefix(s.drop_last(), k);
    }
}

proof fn lemma_expiry_len(vs: Seq<Violation>, entries: Seq<ExceptionEntry>, today: int, max_days: Option<u32>)
    requires
        expiry_violations(vs, entries, today, max_days),
    ensures
        vs.len() == expiry_count(entries, today, max_days),
    decreases entries.len(),
{
    if entries.len() > 0 {
        if entry_active(entries.last(), today, max_days) {
            lemma_expiry_len(vs, entries.drop_last(), today, max_days);
        } else {
            lemma_expiry_len(vs.drop_last(), entries.drop_last(), today, max_days);
        }
    }
}

fn append_chars(out: &mut String, cs: &[char])
    ensures
        final(out)@ == old(out)@ + cs@,
{
    let mut i: usize = 0;
    let ghost start = out@;
    while i < cs.len()
        invariant
            i <= cs@.len(),
            out@ == start + cs@.take(i as int),
        decreases cs@.len() - i,
    {
        out.push(cs[i]);
        i += 1;
        assert(out@ =~= start + cs@.take(i as int));
    }
    assert(cs@.take(cs@.len() as int) =~= cs@);
}

fn contains_chars(xs: &Vec<Vec<char>>, x: &[char]) -> (b: bool)
    ensures
        b == (exists|k: int| 0 <= k < xs@.len() && (#[trigger] xs@[k])@ == x@),
{
    let mut k: usize = 0;
    while k < xs.len()
        invariant
            k <= xs@.len(),
            forall|j: int| 0 <= j < k ==> (#[trigger] xs@[j])@ != x@,
        decreases xs@.len() - k,
    {
        if chars_eq(xs[k].as_slice(), x) {
            return true;
        }
        k += 1;
    }
    false
}

/// The allowlist error message for `problem`, from the normalized id, path and expiry.
fn problem_message(problem: EntryProblem, id: &[char], path: &[char], expiry: &[char]) -> (m: String)
    ensures
        forall|e: ExceptionEntry|
            nid(e) == id@ && npath(e) == path@ && (problem == EntryProblem::InvalidExpiry ==> expiry_spec(e)
                == Some(expiry@)) ==> m@ == #[trigger] problem_message_prefix(problem, e),
{
    let mut m = String::new();
    match problem {
        EntryProblem::EmptyId => {
            m.append("exception entry has empty id");
        },
        EntryProblem::DuplicateId => {
            m.append("duplicate exception id=");
            append_chars(&mut m, id);
            m.append(" (ids must be unique)");
        },
        EntryProblem::EmptyRule => {
            m.append("exception id=");
            append_chars(&mut m, id);
            m.append(" has empty rule");
        },
        EntryProblem::EmptyPath => {
            m.append("exception id=");
            append_chars(&mut m, id);
            m.append(" has empty path");
        },
        EntryProblem::UnsafePath => {
            m.append("exception id=");
            append_chars(&mut m, id);
            m.append(" has unsafe/absolute path=");
            append_chars(&mut m, path);
        },
        EntryProblem::GlobPath => {
            m.append("exception id=");
            append_chars(&mut m, id);
            m.append(" uses glob characters in path (globs are forbidden): ");
            append_chars(&mut m, path);
        },
        EntryProblem::EmptyOwner => {
            m.append("exception id=");
            append_chars(&mut m, id);
            m.append(" has empty owner");
        },
        EntryProblem::EmptyReason => {
            m.append("exception id=");
            append_chars(&mut m, id);
            m.append(" has empty reason");
        },
        EntryProblem::MissingExpiry => {
            m.append("exception id=");
            append_chars(&mut m, id);
            m.append(" must include expires_at in YYYY-MM-DD for time-boxed suppression");
        },
        EntryProblem::InvalidExpiry => {
            m.append("exception id=");
            append_chars(&mut m, id);
            m.append(" has invalid expires_at=");
            let raw = crate::text::string_of(expiry);
            let q = crate::text::debug_quoted(raw.as_str());
            m.append(q.as_str());
            m.append(": ");
        },
    }
    proof {
        assert forall|e: ExceptionEntry|
            nid(e) == id@ && npath(e) == path@ && (problem == EntryProblem::InvalidExpiry ==> expiry_spec(e)
                == Some(expiry@)) implies m@ == #[trigger] problem_message_prefix(problem, e) by {
            assert(m@ =~= problem_message_prefix(problem, e));
        }
    }
    m
}

/// The violation an expired or out-of-window entry yields.
fn expiry_violation_for(
    e: &ExceptionEntry,
    id: &[char],
    rule: &[char],
    path: &[char],
    expired: bool,
    days_ahead: i64,
    max_days: u32,
) -> (v: Violation)
    requires
        id@ == nid(*e),
        rule@ == nrule(*e),
        path@ == npath(*e),
    ensures
        v.tier == ViolationTier::Blocking,
        v.details is None,
        v.path is Some && v.path.unwrap()@ == allowlist_path_spec(),
        expired ==> v.code@ == "exception.expired"@ && v.message@ == expired_message(*e),
        !expired ==> v.code@ == "exception.window_exceeded"@ && v.message@
            == "allowlist exception window exceeds max_exception_window_days: id="@ + nid(*e) + " rule="@
            + nrule(*e) + " path="@ + npath(*e) + " expires_at="@ + raw_expiry(*e) + " days_ahead="@
            + signed_decimal_spec(days_ahead as int) + " max_days="@ + decimal_spec(max_days as nat),
{
    let mut m = String::new();
    if expired {
        m.append("allowlist exception expired: id=");
    } else {
        m.append("allowlist exception window exceeds max_exception_window_days: id=");
    }
    append_chars(&mut m, id);
    m.append(" rule=");
    append_chars(&mut m, rule);
    m.append(" path=");
    append_chars(&mut m, path);
    m.append(" expires_at=");
    match &e.expires_at {
        Some(x) => m.append(x.as_str()),
        None => m.append("<missing>"),
    }
    let code = if expired {
        String::from_str("exception.expired")
    } else {
        m.append(" days_ahead=");
        let d = i64_to_string(days_ahead);
        m.append(d.as_str());
        m.append(" max_days=");
        let md = u64_to_string(max_days as u64);
        m.append(md.as_str());
        String::from_str("exception.window_exceeded")
    };
    proof {
        if expired {
            assert(m@ =~= expired_message(*e));
        } else {
            assert(m@ =~= "allowlist exception window exceeds max_exception_window_days: id="@ + nid(*e)
                + " rule="@ + nrule(*e) + " path="@ + npath(*e) + " expires_at="@ + raw_expiry(*e)
                + " days_ahead="@ + signed_decimal_spec(days_ahead as int) + " max_days="@ + decimal_spec(
                max_days as nat));
        }
    }
    Violation::blocking(code, m, Some(String::from_str(allowlist_rel_path())), None)
}

fn covered_exec(
    v: &Violation,
    rules: &Vec<Vec<char>>,
    paths: &Vec<Vec<char>>,
    active: &Vec<bool>,
    Ghost(entries): Ghost<Seq<ExceptionEntry>>,
    Ghost(today): Ghost<int>,
    Ghost(max_days): Ghost<Option<u32>>,
) -> (b: bool)
    requires
        rules@.len() == entries.len(),
        paths@.len() == entries.len(),
        active@.len() == entries.len(),
        forall|k: int| 0 <= k < entries.len() ==> (#[trigger] rules@[k])@ == nrule(entries[k]),
        forall|k: int| 0 <= k < entries.len() ==> (#[trigger] paths@[k])@ == npath(entries[k]),
        forall|k: int| 0 <= k < entries.len() ==> (#[trigger] active@[k]) == entry_active(entries[k], today, max_days),
    ensures
        b == covered(*v, entries, today, max_days),
{
    let code = chars_of(v.code.as_str());
    let prefix = chars_of("exception.");
    if chars_starts_with(code.as_slice(), prefix.as_slice()) {
        return false;
    }
    let p = match &v.path {
        Some(p) => p,
        None => return false,
    };
    let pc = chars_of(p.as_str());
    let np = normalize_path_chars(pc.as_slice());
    let mut j: usize = 0;
    while j < rules.len()
        invariant
            j <= entries.len(),
            rules@.len() == entries.len(),
            paths@.len() == entries.len(),
            active@.len() == entries.len(),
            forall|k: int| 0 <= k < entries.len() ==> (#[trigger] rules@[k])@ == nrule(entries[k]),
            forall|k: int| 0 <= k < entries.len() ==> (#[trigger] paths@[k])@ == npath(entries[k]),
            forall|k: int| 0 <= k < entries.len() ==> (#[trigger] active@[k]) == entry_active(entries[k], today, max_days),
            v.path is Some,
            !seq_starts_with(v.code@, "exception."@),
            np@ == normalize_path_spec(v.path.unwrap()@),
            code@ == v.code@,
            forall|k: int|
                0 <= k < j ==> !(entry_active(#[trigger] entries[k], today, max_days) && nrule(entries[k])
                    == v.code@ && npath(entries[k]) == normalize_path_spec(v.path.unwrap()@)),
        decreases entries.len() - j,
    {
        if active[j] && chars_eq(rules[j].as_slice(), code.as_slice()) && chars_eq(
            paths[j].as_slice(),
            np.as_slice(),
        ) {
            assert(entry_active(entries[j as int], today, max_days) && nrule(entries[j as int]) == v.code@
                && npath(entries[j as int]) == normalize_path_spec(v.path.unwrap()@));
            assert(!seq_starts_with(v.code@, "exception."@));
            assert(v.path is Some);
            return true;
        }
        j += 1;
    }
    false
}

/// The allowlist loses no violation and duplicates none: every input
/// violation is either kept or suppressed, and the counts add up.
pub proof fn law_allowlist_partitions_input(
    input: Seq<Violation>,
    entries: Seq<ExceptionEntry>,
    today: int,
    max_days: Option<u32>,
)
    ensures
        uncovered_spec(input, entries, today, max_days).len() + covered_spec(input, entries, today, max_days).len()
            == input.len(),
        uncovered_spec(input, entries, today, max_days).to_multiset().add(
            covered_spec(input, entries, today, max_days).to_multiset(),
        ) =~= input.to_multiset(),
    decreases input.len(),
{
    broadcast use vstd::seq_lib::group_to_multiset_ensures;
    if input.len() > 0 {
        let init = input.drop_last();
        law_allowlist_partitions_input(init, entries, today, max_days);
        assert(input =~= init.push(input.last()));
    }
}

/// Only covered violations are suppressed, and only uncovered ones are kept;
/// in particular a violation of the exception protocol itself (code
/// "exception.*") or one without a path is never suppressed.
pub proof fn law_only_covered_violations_are_suppressed(
    input: Seq<Violation>,
    entries: Seq<ExceptionEntry>,
    today: int,
    max_days: Option<u32>,
)
    ensures
        forall|i: int|
            0 <= i < covered_spec(input, entries, today, max_days).len() ==> covered(
                #[trigger] covered_spec(input, entries, today, max_days)[i],
                entries,
                today,
                max_days,
            ),
        forall|i: int|
            0 <= i < uncovered_spec(input, entries, today, max_days).len() ==> !covered(
                #[trigger] uncovered_spec(input, entries, today, max_days)[i],
                entries,
                today,
                max_days,
            ),
        forall|i: int|
            0 <= i < covered_spec(input, entries, today, max_days).len() ==> {
                let v = #[trigger] covered_spec(input, entries, today, max_days)[i];
                !seq_starts_with(v.code@, "exception."@) && v.path is Some
            },
    decreases input.len(),
{
    if input.len() > 0 {
        let init = input.drop_last();
        law_only_covered_violations_are_suppressed(init, entries, today, max_days);
        let u = uncovered_spec(input, entries, today, max_days);
        let u0 = uncovered_spec(init, entries, today, max_days);
        assert forall|i: int| 0 <= i < u.len() implies !covered(#[trigger] u[i], entries, today, max_days) by {
            if i < u0.len() {
                assert(u[i] == u0[i]);
            }
        }
        let c = covered_spec(input, entries, today, max_days);
        let c0 = covered_spec(init, entries, today, max_days);
        assert forall|i: int| 0 <= i < c.len() implies covered(#[trigger] c[i], entries, today, max_days) by {
            if i < c0.len() {
                assert(c[i] == c0[i]);
            }
        }
    }
}

/// `violations` and `suppressed` are what the allowlist `entries` make of
/// `input` on day `today`: with an invalid entry, the fail-closed error
/// first and all of `input` after it, nothing suppressed; otherwise the
/// expiry violations first, then the violations no entry covers, and the
/// covered ones suppressed.
pub open spec fn is_suppression(
    input: Seq<Violation>,
    entries: Seq<ExceptionEntry>,
    today: int,
    max_window_days: Option<u32>,
    violations: Seq<Violation>,
    suppressed: Seq<Violation>,
) -> bool {
    match first_problem(entries) {
        Some((i, p)) => {
            &&& 0 <= i < entries.len()
            &&& suppressed.len() == 0
            &&& violations.len() == input.len() + 1
            &&& violations.skip(1) == input
            &&& allowlist_error(violations[0], problem_message_prefix(p, entries[i]), p != EntryProblem::InvalidExpiry)
        },
        None => {
            let n = expiry_count(entries, today, max_window_days) as int;
            &&& n <= violations.len()
            &&& expiry_violations(violations.take(n), entries, today, max_window_days)
            &&& violations.skip(n) == uncovered_spec(input, entries, today, max_window_days)
            &&& suppressed == covered_spec(input, entries, today, max_window_days)
        },
    }
}

/// Applies allowlist `entries` to `input` on day `today` (a chrono day number).
///
/// If some entry is invalid, fails closed on the first one: the allowlist
/// error, then all of `input`, nothing suppressed. Otherwise: one violation
/// per expired or out-of-window entry, then the input violations that no
/// active entry covers, in order; the covered ones are suppressed, in order.
pub fn apply_allowlist_entries(
    input: Vec<Violation>,
    entries: &[ExceptionEntry],
    today: i32,
    max_window_days: Option<u32>,
) -> (r: SuppressionResult)
    ensures
        match first_problem(entries@) {
            Some((i, p)) => {
                &&& 0 <= i < entries@.len()
                &&& r.suppressed@.len() == 0
                &&& r.violations@.len() == input@.len() + 1
                &&& r.violations@.skip(1) == input@
                &&& allowlist_error(
                    r.violations@[0],
                    problem_message_prefix(p, entries@[i]),
                    p != EntryProblem::InvalidExpiry,
                )
            },
            None => {
                let n = expiry_count(entries@, today as int, max_window_days) as int;
                &&& n <= r.violations@.len()
                &&& expiry_violations(r.violations@.take(n), entries@, today as int, max_window_days)
                &&& r.violations@.skip(n) == uncovered_spec(input@, entries@, today as int, max_window_days)
                &&& r.suppressed@ == covered_spec(input@, entries@, today as int, max_window_days)
            },
        },
{
    let ghost es = entries@;
    let mut ids: Vec<Vec<char>> = Vec::new();
    let mut rules: Vec<Vec<char>> = Vec::new();
    let mut paths: Vec<Vec<char>> = Vec::new();
    let mut active: Vec<bool> = Vec::new();
    let mut expired: Vec<Violation> = Vec::new();
    let mut i: usize = 0;
    while i < entries.len()
        invariant
            es == entries@,
            i <= es.len(),
            first_problem(es.take(i as int)) is None,
            ids@.len() == i,
            rules@.len() == i,
            paths@.len() == i,
            active@.len() == i,
            forall|k: int| 0 <= k < i ==> (#[trigger] ids@[k])@ == nid(es[k]),
            forall|k: int| 0 <= k < i ==> (#[trigger] rules@[k])@ == nrule(es[k]),
            forall|k: int| 0 <= k < i ==> (#[trigger] paths@[k])@ == npath(es[k]),
            forall|k: int| 0 <= k < i ==> (#[trigger] active@[k]) == entry_active(es[k], today as int, max_window_days),
            forall|k: int| 0 <= k < i ==> expiry_spec(#[trigger] es[k]) is Some,
            expiry_violations(expired@, es.take(i as int), today as int, max_window_days),
        decreases es.len() - i,
    {
        let e = &entries[i];
        let ghost before = es.take(i as int);
        proof {
            assert(es.take(i + 1).drop_last() =~= before);
            assert(es.take(i + 1).last() == *e);
        }
        let id_raw = chars_of(e.id.as_str());
        let id = trim_chars(id_raw.as_slice());
        let rule_raw = chars_of(e.rule.as_str());
        let rule = trim_chars(rule_raw.as_slice());
        let path_raw = chars_of(e.path.as_str());
        let path = normalize_path_chars(path_raw.as_slice());
        let owner_raw = chars_of(e.owner.as_str());
        let owner = trim_chars(owner_raw.as_slice());
        let reason_raw = chars_of(e.reason.as_str());
        let reason = trim_chars(reason_raw.as_slice());
        let expiry: Vec<char> = match &e.expires_at {
            Some(x) => {
                let xr = chars_of(x.as_str());
                trim_chars(xr.as_slice())
            },
            None => Vec::new(),
        };
        let dup = contains_chars(&ids, id.as_slice());
        proof {
            if dup {
                let k = choose|k: int| 0 <= k < ids@.len() && (#[trigger] ids@[k])@ == id@;
                assert(before[k] == es[k]);
            } else {
                assert forall|k: int| 0 <= k < before.len() implies nid(#[trigger] before[k]) != nid(*e) by {
                    assert(before[k] == es[k]);
                    assert(ids@[k]@ == nid(es[k]));
                }
            }
        }
        let mut problem: Option<EntryProblem> = None;
        if id.len() == 0 {
            problem = Some(EntryProblem::EmptyId);
        } else if dup {
            problem = Some(EntryProblem::DuplicateId);
        } else if rule.len() == 0 {
            problem = Some(EntryProblem::EmptyRule);
        } else if path.len() == 0 {
            problem = Some(EntryProblem::EmptyPath);
        } else if !relative_and_safe_slice(path.as_slice()) {
            problem = Some(EntryProblem::UnsafePath);
        } else if has_glob_chars_slice(path.as_slice()) {
            problem = Some(EntryProblem::GlobPath);
        } else if owner.len() == 0 {
            problem = Some(EntryProblem::EmptyOwner);
        } else if reason.len() == 0 {
            problem = Some(EntryProblem::EmptyReason);
        } else if expiry.len() == 0 {
            problem = Some(EntryProblem::MissingExpiry);
        }
        if let Some(p) = problem {
            proof {
                assert(entry_problem(*e, before) == Some(p));
                lemma_first_problem_prefix(es, i + 1);
            }
            let msg = problem_message(p, id.as_slice(), path.as_slice(), expiry.as_slice());
            return fail_closed(input, allowlist_invalid(msg));
        }
        let expiry_str = string_of(expiry.as_slice());
        let day = match parse_ymd(expiry_str.as_str()) {
            Ok(d) => d,
            Err(err) => {
                proof {
                    assert(entry_problem(*e, before) == Some(EntryProblem::InvalidExpiry));
                    lemma_first_problem_prefix(es, i + 1);
                }
                let mut msg = problem_message(
                    EntryProblem::InvalidExpiry,
                    id.as_slice(),
                    path.as_slice(),
                    expiry.as_slice(),
                );
                let ghost prefix = msg@;
                msg.append(err.as_str());
                proof {
                    assert(msg@.subrange(0, prefix.len() as int) =~= prefix);
                }
                return fail_closed(input, allowlist_invalid(msg));
            },
        };
        proof {
            assert(entry_problem(*e, before) is None);
            assert(es.take(i + 1).drop_last() =~= before);
            assert(entry_day(*e) == day as int);
        }
        let days_ahead: i64 = day as i64 - today as i64;
        let is_expired = day < today;
        let exceeded = !is_expired && match max_window_days {
            Some(m) => days_ahead > m as i64,
            None => false,
        };
        let ghost old_expired = expired@;
        if is_expired || exceeded {
            let m = match max_window_days {
                Some(m) => m,
                None => 0,
            };
            let v = expiry_violation_for(e, id.as_slice(), rule.as_slice(), path.as_slice(), is_expired, days_ahead, m);
            expired.push(v);
            proof {
                assert(expired@.drop_last() =~= old_expired);
            }
        }
        let ghost (oi, orl, op, oa) = (ids@, rules@, paths@, active@);
        ids.push(id);
        rules.push(rule);
        paths.push(path);
        active.push(!is_expired && !exceeded);
        proof {
            assert(es[i as int] == *e);
            assert forall|k: int|
                0 <= k < i + 1 implies (#[trigger] ids@[k])@ == nid(es[k]) && rules@[k]@ == nrule(es[k])
                    && paths@[k]@ == npath(es[k]) && active@[k] == entry_active(es[k], today as int, max_window_days) by {
                if k < i {
                    assert(ids@[k] == oi[k]);
                    assert(rules@[k] == orl[k]);
                    assert(paths@[k] == op[k]);
                    assert(active@[k] == oa[k]);
                }
            }
            assert forall|k: int| 0 <= k < i + 1 implies expiry_spec(#[trigger] es[k]) is Some by {
            }
            assert(ids@.len() == i + 1);
            assert(active@[i as int] == entry_active(es[i as int], today as int, max_window_days));
            assert(paths@[i as int]@ == npath(es[i as int]));
            assert(rules@[i as int]@ == nrule(es[i as int]));
            assert(ids@[i as int]@ == nid(es[i as int]));
        }
        i += 1;
    }
    proof {
        assert(es.take(es.len() as int) =~= es);
        lemma_expiry_len(expired@, es, today as int, max_window_days);
    }
    let ghost n = expired@.len();
    let ghost orig = input@;
    assert(expired@.take(n as int) =~= expired@);
    assert(orig.len() == input.len());
    let mut violations = expired;
    let mut suppressed: Vec<Violation> = Vec::new();
    let mut input = input;
    let mut consumed: usize = 0;
    while input.len() > 0
        invariant
            consumed <= orig.len(),
            input@ == orig.skip(consumed as int),
            n <= violations@.len(),
            expiry_violations(violations@.take(n as int), es, today as int, max_window_days),
            violations@.skip(n as int) == uncovered_spec(orig.take(consumed as int), es, today as int, max_window_days),
            suppressed@ == covered_spec(orig.take(consumed as int), es, today as int, max_window_days),
            rules@.len() == es.len(),
            paths@.len() == es.len(),
            active@.len() == es.len(),
            forall|k: int| 0 <= k < es.len() ==> (#[trigger] rules@[k])@ == nrule(es[k]),
            forall|k: int| 0 <= k < es.len() ==> (#[trigger] paths@[k])@ == npath(es[k]),
            forall|k: int| 0 <= k < es.len() ==> (#[trigger] active@[k]) == entry_active(es[k], today as int, max_window_days),
            orig.len() <= usize::MAX,
        decreases orig.len() - consumed,
    {
        let ghost old_v = violations@;
        let ghost old_s = suppressed@;
        assert(orig.skip(consumed as int).len() > 0);
        let v = input.remove(0);
        proof {
            assert(v == orig[consumed as int]);
            assert(orig.take(consumed + 1).drop_last() =~= orig.take(consumed as int));
            assert(orig.take(consumed + 1).last() == v);
            assert(input@ =~= orig.skip(consumed + 1));
        }
        let c = covered_exec(&v, &rules, &paths, &active, Ghost(es), Ghost(today as int), Ghost(max_window_days));
        if c {
            suppressed.push(v);
            proof {
                assert(violations@ == old_v);
            }
        } else {
            violations.push(v);
            proof {
                assert(violations@.take(n as int) =~= old_v.take(n as int));
                assert(violations@.skip(n as int) =~= old_v.skip(n as int).push(v));
            }
        }
        consumed += 1;
    }
    proof {
        assert(orig.take(consumed as int) =~= orig);
    }
    SuppressionResult { violations, suppressed }
}

} // verus!
