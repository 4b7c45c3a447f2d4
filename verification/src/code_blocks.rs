//! Source files cut into lines and function blocks: the shared ground of the
//! complexity and reuse checks.

use crate::boundary::{count_char, count_in, lemma_count_le};
use crate::csv::{lemma_split_nonempty, split_on, views};
use crate::checks::{extension_of, file_name_of, first_occurrence, find_seq};
use crate::patterns::{regex_group, regex_new_error};
use crate::text::{chars_of, lead_ws, seq_starts_with, str_starts_with, string_of, trim_spec, trim_start_spec};
use vstd::prelude::*;

verus! {

/// A line without the one carriage return that ends it, if any.
pub open spec fn strip_cr(l: Seq<char>) -> Seq<char> {
    if l.len() > 0 && l.last() == '\r' {
        l.drop_last()
    } else {
        l
    }
}

/// The lines of `s` as `str::lines` yields them: the pieces between line
/// feeds, each without a carriage return before its line feed, and no empty
/// piece after a final line feed.
pub open spec fn std_lines(s: Seq<char>) -> Seq<Seq<char>> {
    let p = split_on(s, '\n');
    let body = p.drop_last().map_values(|l: Seq<char>| strip_cr(l));
    if p.last().len() == 0 {
        body
    } else {
        body.push(p.last())
    }
}

/// The characters of some lines, with one more for each line's end.
pub open spec fn weight(lines: Seq<Seq<char>>) -> nat
    decreases lines.len(),
{
    if lines.len() == 0 {
        0
    } else {
        weight(lines.drop_last()) + lines.last().len() + 1
    }
}

pub proof fn lemma_weight_concat(a: Seq<Seq<char>>, b: Seq<Seq<char>>)
    ensures
        weight(a + b) == weight(a) + weight(b),
    decreases b.len(),
{
    if b.len() == 0 {
        assert(a + b =~= a);
    } else {
        lemma_weight_concat(a, b.drop_last());
        assert((a + b).drop_last() =~= a + b.drop_last());
    }
}

/// A run of consecutive lines weighs no more than all of them.
pub proof fn lemma_weight_subrange(lines: Seq<Seq<char>>, a: int, b: int)
    requires
        0 <= a <= b <= lines.len(),
    ensures
        weight(lines.subrange(a, b)) <= weight(lines),
{
    lemma_weight_concat(lines.take(a), lines.subrange(a, b));
    lemma_weight_concat(lines.take(a) + lines.subrange(a, b), lines.skip(b));
    assert(lines.take(a) + lines.subrange(a, b) + lines.skip(b) =~= lines);
}

proof fn lemma_weight_split(s: Seq<char>, sep: char)
    ensures
        weight(split_on(s, sep)) == s.len() + 1,
    decreases s.len(),
{
    if s.len() > 0 {
        lemma_weight_split(s.drop_last(), sep);
        lemma_split_nonempty(s.drop_last(), sep);
        let p = split_on(s.drop_last(), sep);
        if s.last() != sep {
            let q = p.update(p.len() - 1, p.last().push(s.last()));
            assert(q.drop_last() =~= p.drop_last());
            assert(q.last() == p.last().push(s.last()));
            assert(weight(q) == weight(p.drop_last()) + p.last().len() + 2);
            assert(weight(p) == weight(p.drop_last()) + p.last().len() + 1);
            assert(split_on(s, sep) == q);
            assert(weight(q) == s.len() + 1);
        } else {
            assert(p.push(Seq::<char>::empty()).drop_last() =~= p);
            assert(split_on(s, sep) == p.push(Seq::<char>::empty()));
            assert(weight(p.push(Seq::<char>::empty())) == s.len() + 1);
        }
    } else {
        let one = seq![Seq::<char>::empty()];
        assert(one.drop_last() =~= Seq::<Seq<char>>::empty());
        assert(weight(one) == weight(one.drop_last()) + one.last().len() + 1);
        assert(split_on(s, sep) == one);
    }
}

proof fn lemma_weight_map_cr(p: Seq<Seq<char>>)
    ensures
        weight(p.map_values(|l: Seq<char>| strip_cr(l))) <= weight(p),
    decreases p.len(),
{
    if p.len() > 0 {
        lemma_weight_map_cr(p.drop_last());
        assert(p.map_values(|l: Seq<char>| strip_cr(l)).drop_last() =~= p.drop_last().map_values(|l: Seq<char>| strip_cr(l)));
    }
}

/// The lines of a text weigh at most one more than its length.
pub proof fn lemma_weight_std_lines(s: Seq<char>)
    ensures
        weight(std_lines(s)) <= s.len() + 1,
{
    let p = split_on(s, '\n');
    lemma_split_nonempty(s, '\n');
    lemma_weight_split(s, '\n');
    lemma_weight_map_cr(p.drop_last());
    let body = p.drop_last().map_values(|l: Seq<char>| strip_cr(l));
    assert(body.push(p.last()).drop_last() =~= body);
}

fn strip_cr_vec(piece: &Vec<char>) -> (out: Vec<char>)
    ensures
        out@ == strip_cr(piece@),
{
    let n = piece.len();
    let keep: usize = if n > 0 && piece[n - 1] == '\r' { n - 1 } else { n };
    let mut out: Vec<char> = Vec::new();
    let mut i: usize = 0;
    while i < keep
        invariant
            keep <= piece@.len(),
            i <= keep,
            out@ == piece@.take(i as int),
        decreases keep - i,
    {
        out.push(piece[i]);
        i = i + 1;
        assert(out@ =~= piece@.take(i as int));
    }
    assert(piece@.take(keep as int) =~= strip_cr(piece@));
    out
}

/// The lines of `s`, as `str::lines` yields them (see `std_lines`).
pub fn lines_of(s: &str) -> (out: Vec<String>)
    ensures
        views(out@) == std_lines(s@),
{
    let cs = chars_of(s);
    let pieces = crate::arch_layers::split_lines_of(&cs);
    let ghost p = split_on(s@, '\n');
    proof {
        lemma_split_nonempty(s@, '\n');
    }
    let n = pieces.len();
    let mut out: Vec<String> = Vec::new();
    let mut i: usize = 0;
    while i + 1 < n
        invariant
            n == p.len(),
            n == pieces@.len(),
            n >= 1,
            p == split_on(s@, '\n'),
            forall|k: int| 0 <= k < n ==> (#[trigger] pieces@[k])@ == p[k],
            i + 1 <= n,
            views(out@) == p.drop_last().take(i as int).map_values(|l: Seq<char>| strip_cr(l)),
        decreases n - i,
    {
        let line = strip_cr_vec(&pieces[i]);
        let ghost before = views(out@);
        out.push(string_of(line.as_slice()));
        proof {
            assert(views(out@) =~= before.push(strip_cr(p[i as int])));
            assert(p.drop_last().take(i + 1).map_values(|l: Seq<char>| strip_cr(l)) =~= before.push(strip_cr(p[i as int])));
        }
        i = i + 1;
    }
    proof {
        assert(p.drop_last().take(i as int) =~= p.drop_last());
    }
    let last = &pieces[n - 1];
    if last.len() > 0 {
        let ghost before = views(out@);
        out.push(string_of(last.as_slice()));
        proof {
            assert(views(out@) =~= before.push(p.last()));
        }
    }
    out
}

/// The number of non-overlapping occurrences of `p` in `s` from `i` on, found
/// left to right (what `str::matches(p).count()` gives for a non-empty `p`).
pub open spec fn count_matches(s: Seq<char>, p: Seq<char>, i: int) -> nat
    decreases s.len() + 1 - i,
{
    if i < 0 || p.len() == 0 || i + p.len() > s.len() {
        0
    } else if s.subrange(i, i + p.len()) == p {
        1 + count_matches(s, p, i + p.len())
    } else {
        count_matches(s, p, i + 1)
    }
}

proof fn lemma_count_matches_le(s: Seq<char>, p: Seq<char>, i: int)
    requires
        0 <= i <= s.len(),
    ensures
        count_matches(s, p, i) <= s.len() - i,
    decreases s.len() + 1 - i,
{
    if p.len() > 0 && i + p.len() <= s.len() {
        if s.subrange(i, i + p.len()) == p {
            lemma_count_matches_le(s, p, i + p.len());
        } else {
            lemma_count_matches_le(s, p, i + 1);
        }
    }
}

/// `str::matches(p).count()` for a non-empty `p`.
pub fn count_matches_in(s: &Vec<char>, p: &str) -> (n: usize)
    requires
        p@.len() > 0,
    ensures
        n == count_matches(s@, p@, 0),
        n <= s@.len(),
{
    let pc = chars_of(p);
    let m = pc.len();
    let len = s.len();
    let mut n: usize = 0;
    let mut i: usize = 0;
    proof {
        lemma_count_matches_le(s@, p@, 0);
    }
    while m <= len - i
        invariant
            pc@ == p@,
            m == p@.len(),
            m > 0,
            len == s@.len(),
            i <= len,
            n + count_matches(s@, p@, i as int) == count_matches(s@, p@, 0),
            count_matches(s@, p@, 0) <= len,
        decreases len - i,
    {
        if crate::text::chars_match_at(s.as_slice(), pc.as_slice(), i) {
            n = n + 1;
            i = i + m;
        } else {
            i = i + 1;
        }
    }
    n
}

/// Where an indented (Python) block whose first line is indented by `indent`
/// ends, looking from line `k`: at the first non-blank line indented no deeper.
pub open spec fn py_end_from(lines: Seq<Seq<char>>, indent: nat, k: int) -> int
    decreases lines.len() - k,
{
    if 0 <= k < lines.len() {
        if trim_spec(lines[k]).len() == 0 {
            py_end_from(lines, indent, k + 1)
        } else if lead_ws(lines[k]) <= indent {
            k
        } else {
            py_end_from(lines, indent, k + 1)
        }
    } else {
        k
    }
}

/// The end (exclusive) of the indented block that starts at line `start`.
pub open spec fn py_block_end(lines: Seq<Seq<char>>, start: int) -> int {
    py_end_from(lines, lead_ws(lines[start]), start + 1)
}

/// Where a brace block ends, looking from line `k` with `balance` braces open
/// so far and `opened` telling whether one was ever opened: after the first
/// line at whose end a brace was opened and the balance is back to zero or less.
pub open spec fn brace_end_from(lines: Seq<Seq<char>>, k: int, balance: int, opened: bool) -> int
    decreases lines.len() - k,
{
    if 0 <= k < lines.len() {
        let b = balance + count_char(lines[k], '{') - count_char(lines[k], '}');
        let o = opened || count_char(lines[k], '{') > 0;
        if o && b <= 0 {
            k + 1
        } else {
            brace_end_from(lines, k + 1, b, o)
        }
    } else {
        k
    }
}

/// The end (exclusive) of the brace block that starts at line `start`.
pub open spec fn brace_block_end(lines: Seq<Seq<char>>, start: int) -> int {
    brace_end_from(lines, start, 0, false)
}

pub proof fn lemma_py_end_from(lines: Seq<Seq<char>>, indent: nat, k: int)
    requires
        0 <= k <= lines.len(),
    ensures
        k <= py_end_from(lines, indent, k) <= lines.len(),
    decreases lines.len() - k,
{
    if k < lines.len() {
        lemma_py_end_from(lines, indent, k + 1);
    }
}

pub proof fn lemma_brace_end_from(lines: Seq<Seq<char>>, k: int, balance: int, opened: bool)
    requires
        0 <= k <= lines.len(),
    ensures
        k <= brace_end_from(lines, k, balance, opened) <= lines.len(),
        k < lines.len() ==> k < brace_end_from(lines, k, balance, opened),
    decreases lines.len() - k,
{
    if k < lines.len() {
        let b = balance + count_char(lines[k], '{') - count_char(lines[k], '}');
        let o = opened || count_char(lines[k], '{') > 0;
        lemma_brace_end_from(lines, k + 1, b, o);
    }
}

/// Each line weighs less than all of them, and there are no more lines than
/// their weight.
pub proof fn lemma_weight_bounds(lines: Seq<Seq<char>>)
    ensures
        lines.len() <= weight(lines),
        forall|k: int| 0 <= k < lines.len() ==> (#[trigger] lines[k]).len() < weight(lines),
    decreases lines.len(),
{
    if lines.len() > 0 {
        lemma_weight_bounds(lines.drop_last());
        assert forall|k: int| 0 <= k < lines.len() implies (#[trigger] lines[k]).len() < weight(lines) by {
            if k < lines.len() - 1 {
                assert(lines[k] == lines.drop_last()[k]);
            }
        }
    }
}

/// The vector of each string's characters.
pub fn char_lines(lines: &Vec<String>) -> (out: Vec<Vec<char>>)
    ensures
        out@.len() == lines@.len(),
        forall|k: int| 0 <= k < lines@.len() ==> (#[trigger] out@[k])@ == lines@[k]@,
{
    let mut out: Vec<Vec<char>> = Vec::new();
    let mut i: usize = 0;
    while i < lines.len()
        invariant
            i <= lines@.len(),
            out@.len() == i,
            forall|k: int| 0 <= k < i ==> (#[trigger] out@[k])@ == lines@[k]@,
        decreases lines@.len() - i,
    {
        out.push(chars_of(lines[i].as_str()));
        i = i + 1;
    }
    out
}

/// The views of the vectors in `v`.
pub open spec fn char_views(v: Seq<Vec<char>>) -> Seq<Seq<char>> {
    v.map_values(|l: Vec<char>| l@)
}

/// `py_block_end` for line `start`.
pub fn py_block_end_exec(lines: &Vec<Vec<char>>, start: usize) -> (e: usize)
    requires
        start < lines@.len(),
    ensures
        e == py_block_end(char_views(lines@), start as int),
        start < e <= lines@.len(),
{
    let ghost ls = char_views(lines@);
    let n = lines.len();
    let indent = crate::text::trim_start_index(lines[start].as_slice());
    let mut k: usize = start + 1;
    proof {
        assert(ls[start as int] == lines@[start as int]@);
    }
    while k < lines.len()
        invariant
            ls == char_views(lines@),
            start < k <= lines@.len(),
            indent == lead_ws(ls[start as int]),
            py_end_from(ls, indent as nat, start + 1) == py_end_from(ls, indent as nat, k as int),
        decreases lines@.len() - k,
    {
        proof {
            assert(ls[k as int] == lines@[k as int]@);
        }
        let t = crate::text::trim_chars(lines[k].as_slice());
        if t.len() != 0 {
            let lead = crate::text::trim_start_index(lines[k].as_slice());
            if lead <= indent {
                return k;
            }
        }
        k = k + 1;
    }
    k
}

/// `brace_block_end` for line `start`.
pub fn brace_block_end_exec(lines: &Vec<Vec<char>>, start: usize) -> (e: usize)
    requires
        start < lines@.len(),
        weight(char_views(lines@)) <= 0x7fff_ffff_ffff_ffff,
    ensures
        e == brace_block_end(char_views(lines@), start as int),
        start < e <= lines@.len(),
{
    let ghost ls = char_views(lines@);
    proof {
        lemma_weight_bounds(ls);
        lemma_brace_end_from(ls, start as int, 0, false);
    }
    let mut balance: i128 = 0;
    let mut opened = false;
    let mut k: usize = start;
    while k < lines.len()
        invariant
            ls == char_views(lines@),
            start <= k <= lines@.len(),
            lines@.len() <= 0x7fff_ffff_ffff_ffff,
            forall|x: int| 0 <= x < ls.len() ==> (#[trigger] ls[x]).len() < 0x7fff_ffff_ffff_ffff,
            -(k - start) * 0x7fff_ffff_ffff_ffff <= balance <= (k - start) * 0x7fff_ffff_ffff_ffff,
            brace_block_end(ls, start as int) == brace_end_from(ls, k as int, balance as int, opened),
        decreases lines@.len() - k,
    {
        proof {
            assert(ls[k as int] == lines@[k as int]@);
            assert(ls[k as int].len() < 0x7fff_ffff_ffff_ffff);
            lemma_count_le(ls[k as int], '{');
            lemma_count_le(ls[k as int], '}');
            assert((k - start + 1) * 0x7fff_ffff_ffff_ffff <= 0x8000_0000_0000_0000 * 0x7fff_ffff_ffff_ffff) by (nonlinear_arith)
                requires k - start + 1 <= 0x8000_0000_0000_0000;
        }
        let opens = count_in(&lines[k], '{');
        let closes = count_in(&lines[k], '}');
        balance = balance + opens as i128 - closes as i128;
        opened = opened || opens > 0;
        if opened && balance <= 0 {
            return k + 1;
        }
        k = k + 1;
    }
    k
}

/// `p` occurs in `s`.
pub open spec fn has_sub(s: Seq<char>, p: Seq<char>) -> bool {
    first_occurrence(s, p, 0) is Some
}

pub fn has_sub_exec(s: &Vec<char>, p: &str) -> (b: bool)
    ensures
        b == has_sub(s@, p@),
{
    find_seq(s, p).is_some()
}

/// The kinds of source file that the function scanners tell apart, by extension.
#[derive(Clone, Copy, PartialEq, Eq, Structural)]
pub enum SourceKind {
    Rust,
    Go,
    Python,
    Script,
    CLike,
    Other,
}

/// The extension of a path's file name, as `Path::extension` gives it.
pub open spec fn ext_of(rel: Seq<char>) -> Option<Seq<char>> {
    extension_of(file_name_of(rel))
}

/// The kind of a file by its extension: `rs`; `go`; `py`; `js`, `jsx`, `ts`,
/// `tsx`; `c`, `h`, `cc`, `cpp`, `cxx`, `hpp`, `cs`; anything else.
pub open spec fn source_kind(rel: Seq<char>) -> SourceKind {
    let e = ext_of(rel);
    if e == Some("rs"@) {
        SourceKind::Rust
    } else if e == Some("go"@) {
        SourceKind::Go
    } else if e == Some("py"@) {
        SourceKind::Python
    } else if e == Some("js"@) || e == Some("jsx"@) || e == Some("ts"@) || e == Some("tsx"@) {
        SourceKind::Script
    } else if e == Some("c"@) || e == Some("h"@) || e == Some("cc"@) || e == Some("cpp"@) || e == Some("cxx"@)
        || e == Some("hpp"@) || e == Some("cs"@) {
        SourceKind::CLike
    } else {
        SourceKind::Other
    }
}

fn ext_is(e: &Option<Vec<char>>, lit: &str) -> (b: bool)
    ensures
        b == (match e {
            Some(v) => v@ == lit@,
            None => false,
        }),
{
    match e {
        Some(v) => {
            let l = chars_of(lit);
            crate::text::chars_eq(v.as_slice(), l.as_slice())
        },
        None => false,
    }
}

/// The kind of the file at `rel` (see `source_kind`).
pub fn source_kind_of(rel: &str) -> (k: SourceKind)
    ensures
        k == source_kind(rel@),
{
    let cs = chars_of(rel);
    let name = crate::checks::file_name_chars(&cs);
    let e = crate::checks::extension_chars(&name);
    proof {
        assert(ext_of(rel@) == match e { Some(v) => Some(v@), None => None::<Seq<char>> });
    }
    if ext_is(&e, "rs") {
        SourceKind::Rust
    } else if ext_is(&e, "go") {
        SourceKind::Go
    } else if ext_is(&e, "py") {
        SourceKind::Python
    } else if ext_is(&e, "js") || ext_is(&e, "jsx") || ext_is(&e, "ts") || ext_is(&e, "tsx") {
        SourceKind::Script
    } else if ext_is(&e, "c") || ext_is(&e, "h") || ext_is(&e, "cc") || ext_is(&e, "cpp") || ext_is(&e, "cxx")
        || ext_is(&e, "hpp") || ext_is(&e, "cs") {
        SourceKind::CLike
    } else {
        SourceKind::Other
    }
}

/// A Rust line (without its indentation) that opens a function.
pub open spec fn rust_fn_line(t: Seq<char>) -> bool {
    seq_starts_with(t, "fn "@) || seq_starts_with(t, "pub fn "@) || seq_starts_with(t, "pub(crate) fn "@)
        || seq_starts_with(t, "pub async fn "@)
}

/// A C-like line that holds `(`, `)` and `{`.
pub open spec fn c_fn_line(t: Seq<char>) -> bool {
    has_sub(t, "("@) && has_sub(t, ")"@) && has_sub(t, "{"@)
}

/// Whether the complexity check sees a function start on `line` of `rel`.
pub open spec fn complexity_fn_start(kind: SourceKind, line: Seq<char>) -> bool {
    let t = trim_start_spec(line);
    match kind {
        SourceKind::Rust => rust_fn_line(t),
        SourceKind::Go => seq_starts_with(t, "func "@),
        SourceKind::Python => seq_starts_with(t, "def "@),
        SourceKind::Script => seq_starts_with(t, "function "@) || seq_starts_with(t, "export function "@)
            || (seq_starts_with(t, "const "@) && has_sub(t, "=>"@)),
        SourceKind::CLike => c_fn_line(t),
        SourceKind::Other => false,
    }
}

/// Whether the reuse check sees a function start on `line` of `rel`: as the
/// complexity check, except that in scripts any `=>` or `const ` line counts.
pub open spec fn reuse_fn_start(kind: SourceKind, line: Seq<char>) -> bool {
    let t = trim_start_spec(line);
    match kind {
        SourceKind::Script => seq_starts_with(t, "function "@) || has_sub(t, "=>"@)
            || seq_starts_with(t, "export function "@) || seq_starts_with(t, "const "@),
        _ => complexity_fn_start(kind, line),
    }
}

fn trimmed_start_of(line: &Vec<char>) -> (out: (String, Vec<char>))
    ensures
        out.0@ == trim_start_spec(line@),
        out.1@ == trim_start_spec(line@),
{
    let i = crate::text::trim_start_index(line.as_slice());
    let t = crate::text::slice_vec(line.as_slice(), i, line.len());
    proof {
        assert(t@ =~= line@.skip(i as int));
    }
    (string_of(t.as_slice()), t)
}

fn rust_fn_line_exec(t: &str) -> (b: bool)
    ensures
        b == rust_fn_line(t@),
{
    str_starts_with(t, "fn ") || str_starts_with(t, "pub fn ") || str_starts_with(t, "pub(crate) fn ")
        || str_starts_with(t, "pub async fn ")
}

/// Whether the complexity check sees a function start (see `complexity_fn_start`).
pub fn is_fn_start(kind: SourceKind, line: &Vec<char>) -> (b: bool)
    ensures
        b == complexity_fn_start(kind, line@),
{
    let (t, tc) = trimmed_start_of(line);
    match kind {
        SourceKind::Rust => rust_fn_line_exec(t.as_str()),
        SourceKind::Go => str_starts_with(t.as_str(), "func "),
        SourceKind::Python => str_starts_with(t.as_str(), "def "),
        SourceKind::Script => str_starts_with(t.as_str(), "function ") || str_starts_with(t.as_str(), "export function ")
            || (str_starts_with(t.as_str(), "const ") && has_sub_exec(&tc, "=>")),
        SourceKind::CLike => has_sub_exec(&tc, "(") && has_sub_exec(&tc, ")") && has_sub_exec(&tc, "{"),
        SourceKind::Other => false,
    }
}

/// Whether the reuse check sees a function start (see `reuse_fn_start`).
pub fn is_function_start(kind: SourceKind, line: &Vec<char>) -> (b: bool)
    ensures
        b == reuse_fn_start(kind, line@),
{
    match kind {
        SourceKind::Script => {
            let (t, tc) = trimmed_start_of(line);
            str_starts_with(t.as_str(), "function ") || has_sub_exec(&tc, "=>") || str_starts_with(
                t.as_str(),
                "export function ",
            ) || str_starts_with(t.as_str(), "const ")
        },
        _ => is_fn_start(kind, line),
    }
}

/// The patterns whose first group names a function: `fn`, `func`, `def`,
/// `function`, each followed by white space and an identifier.
pub open spec fn symbol_patterns() -> Seq<Seq<char>> {
    seq![
        r"\bfn\s+([A-Za-z_][A-Za-z0-9_]*)"@,
        r"\bfunc\s+([A-Za-z_][A-Za-z0-9_]*)"@,
        r"\bdef\s+([A-Za-z_][A-Za-z0-9_]*)"@,
        r"\bfunction\s+([A-Za-z_][A-Za-z0-9_]*)"@,
    ]
}

/// The text of the first group of `pattern` in `line`, where the pattern
/// compiles, matches, and its group took part.
pub open spec fn group1(pattern: Seq<char>, line: Seq<char>) -> Option<Seq<char>> {
    if regex_new_error(pattern) is None {
        match regex_group(pattern, line, 1) {
            Some(Some(g)) => Some(g),
            _ => None,
        }
    } else {
        None
    }
}

fn group1_exec(pattern: &str, line: &str) -> (r: Option<String>)
    ensures
        match r {
            Some(g) => group1(pattern@, line@) == Some(g@),
            None => group1(pattern@, line@) is None,
        },
{
    match crate::patterns::regex_new(pattern) {
        Ok(re) => match crate::patterns::regex_group_of(&re, line, 1) {
            Some(Some(g)) => Some(g),
            _ => None,
        },
        Err(_) => None,
    }
}

/// The name the complexity check gives a function: the first group of the
/// first symbol pattern that yields one, else `anonymous`.
pub open spec fn complexity_symbol(line: Seq<char>) -> Seq<char> {
    let p = symbol_patterns();
    match group1(p[0], line) {
        Some(g) => g,
        None => match group1(p[1], line) {
            Some(g) => g,
            None => match group1(p[2], line) {
                Some(g) => g,
                None => match group1(p[3], line) {
                    Some(g) => g,
                    None => "anonymous"@,
                },
            },
        },
    }
}

/// The name of the function that `line` opens (see `complexity_symbol`).
pub fn parse_symbol(line: &str) -> (s: String)
    ensures
        s@ == complexity_symbol(line@),
{
    if let Some(g) = group1_exec(r"\bfn\s+([A-Za-z_][A-Za-z0-9_]*)", line) {
        return g;
    }
    if let Some(g) = group1_exec(r"\bfunc\s+([A-Za-z_][A-Za-z0-9_]*)", line) {
        return g;
    }
    if let Some(g) = group1_exec(r"\bdef\s+([A-Za-z_][A-Za-z0-9_]*)", line) {
        return g;
    }
    if let Some(g) = group1_exec(r"\bfunction\s+([A-Za-z_][A-Za-z0-9_]*)", line) {
        return g;
    }
    String::from_str("anonymous")
}

/// The name the reuse check gives a function: for the symbol patterns in
/// order, none where a pattern does not compile; where one matches, its first
/// group (none where that group took no part); else none.
pub open spec fn reuse_symbol_from(line: Seq<char>, i: int) -> Option<Seq<char>>
    decreases 4 - i,
{
    if 0 <= i < 4 {
        let p = symbol_patterns()[i];
        if regex_new_error(p) is Some {
            None
        } else {
            match regex_group(p, line, 1) {
                None => reuse_symbol_from(line, i + 1),
                Some(g) => g,
            }
        }
    } else {
        None
    }
}

/// One pattern's step for the reuse check's names: `None` to go on with the
/// next pattern, or the answer.
fn reuse_step(pattern: &str, line: &str) -> (r: Option<Option<String>>)
    ensures
        match r {
            None => regex_new_error(pattern@) is None && regex_group(pattern@, line@, 1) is None,
            Some(x) => if regex_new_error(pattern@) is Some {
                x is None
            } else {
                regex_group(pattern@, line@, 1) == Some(crate::cli::opt_view(x))
            },
        },
{
    match crate::patterns::regex_new(pattern) {
        Ok(re) => match crate::patterns::regex_group_of(&re, line, 1) {
            None => None,
            Some(g) => Some(g),
        },
        Err(_) => Some(None),
    }
}

/// The name of the function that `line` opens, as the reuse check finds it
/// (see `reuse_symbol_from`).
pub fn parse_symbol_from_line(line: &str) -> (r: Option<String>)
    ensures
        crate::cli::opt_view(r) == reuse_symbol_from(line@, 0),
{
    proof {
        reveal_with_fuel(reuse_symbol_from, 5);
    }
    if let Some(x) = reuse_step(r"\bfn\s+([A-Za-z_][A-Za-z0-9_]*)", line) {
        return x;
    }
    if let Some(x) = reuse_step(r"\bfunc\s+([A-Za-z_][A-Za-z0-9_]*)", line) {
        return x;
    }
    if let Some(x) = reuse_step(r"\bdef\s+([A-Za-z_][A-Za-z0-9_]*)", line) {
        return x;
    }
    if let Some(x) = reuse_step(r"\bfunction\s+([A-Za-z_][A-Za-z0-9_]*)", line) {
        return x;
    }
    proof {
        assert(reuse_symbol_from(line@, 4) is None);
    }
    None
}

} // verus!
