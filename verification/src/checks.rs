//! Text-level rules of the repository checks: line counts, code files,
//! dependency manifests and prerelease versions, tool budgets.

use crate::api::{violation_view, violation_views, DetailValue, DetailValueView, Details, Violation, ViolationTier, ViolationView};
use crate::csv::views;
use crate::text::{chars_of, concat, decimal_spec, seq_ends_with, seq_starts_with, str_eq, trim_spec, u64_to_string};
use vstd::prelude::*;
use vstd::string::*;

verus! {

/// A byte that a line may start with and still count as blank: space, tab, carriage return.
pub open spec fn blank_byte(b: u8) -> bool {
    b == 0x20u8 || b == 0x09u8 || b == 0x0du8
}

/// The lines (split at `\n`) that have a byte other than space, tab and
/// carriage return: the complete lines counted so far and whether the line in
/// progress counts.
pub open spec fn line_count_state(bytes: Seq<u8>) -> (nat, bool)
    decreases bytes.len(),
{
    if bytes.len() == 0 {
        (0, false)
    } else {
        let (done, cur) = line_count_state(bytes.drop_last());
        if bytes.last() == 0x0au8 {
            (done + if cur { 1nat } else { 0nat }, false)
        } else {
            (done, cur || !blank_byte(bytes.last()))
        }
    }
}

/// The number of lines that are not blank.
pub open spec fn non_empty_lines(bytes: Seq<u8>) -> nat {
    let (done, cur) = line_count_state(bytes);
    done + if cur { 1nat } else { 0nat }
}

proof fn lemma_line_count_bound(bytes: Seq<u8>)
    ensures
        line_count_state(bytes).0 <= bytes.len(),
        line_count_state(bytes).1 ==> line_count_state(bytes).0 < bytes.len(),
    decreases bytes.len(),
{
    if bytes.len() > 0 {
        lemma_line_count_bound(bytes.drop_last());
    }
}

/// Counts the lines that hold something besides spaces, tabs and carriage returns.
pub fn count_non_empty_lines(bytes: &[u8]) -> (n: usize)
    ensures
        n as nat == non_empty_lines(bytes@),
{
    let len = bytes.len();
    let mut done: usize = 0;
    let mut cur = false;
    let mut i: usize = 0;
    proof {
        assert(bytes@.take(0) =~= Seq::<u8>::empty());
    }
    while i < len
        invariant
            len == bytes@.len(),
            i <= len,
            (done as nat, cur) == line_count_state(bytes@.take(i as int)),
        decreases len - i,
    {
        proof {
            assert(bytes@.take(i + 1).drop_last() =~= bytes@.take(i as int));
            lemma_line_count_bound(bytes@.take(i as int));
        }
        let b = bytes[i];
        if b == 0x0au8 {
            if cur {
                done = done + 1;
            }
            cur = false;
        } else if !(b == 0x20u8 || b == 0x09u8 || b == 0x0du8) {
            cur = true;
        }
        i = i + 1;
    }
    proof {
        assert(bytes@.take(len as int) =~= bytes@);
        lemma_line_count_bound(bytes@);
    }
    if cur {
        done + 1
    } else {
        done
    }
}

/// The last `/`-separated segment of a path.
pub open spec fn file_name_of(path: Seq<char>) -> Seq<char>
    decreases path.len(),
{
    if path.len() == 0 {
        path
    } else if path.last() == '/' {
        Seq::empty()
    } else {
        file_name_of(path.drop_last()).push(path.last())
    }
}

/// The extension of a file name: what follows its last `.`, unless that dot
/// is the first character.
pub open spec fn extension_of(name: Seq<char>) -> Option<Seq<char>>
    decreases name.len(),
{
    if name.len() == 0 {
        None
    } else if name.last() == '.' {
        if name.len() == 1 {
            None
        } else {
            Some(Seq::empty())
        }
    } else {
        match extension_of(name.drop_last()) {
            Some(e) => Some(e.push(name.last())),
            None => None,
        }
    }
}

/// The extensions of source files.
pub open spec fn code_extension(e: Seq<char>) -> bool {
    e == "rs"@ || e == "py"@ || e == "js"@ || e == "jsx"@ || e == "ts"@ || e == "tsx"@ || e == "go"@ || e == "c"@
        || e == "h"@ || e == "cc"@ || e == "cpp"@ || e == "cxx"@ || e == "hpp"@ || e == "cs"@
}

pub(crate) fn file_name_chars(cs: &Vec<char>) -> (out: Vec<char>)
    ensures
        out@ == file_name_of(cs@),
{
    let mut out: Vec<char> = Vec::new();
    let mut i: usize = 0;
    proof {
        assert(cs@.take(0) =~= Seq::<char>::empty());
    }
    while i < cs.len()
        invariant
            i <= cs@.len(),
            out@ == file_name_of(cs@.take(i as int)),
        decreases cs@.len() - i,
    {
        proof {
            assert(cs@.take(i + 1).drop_last() =~= cs@.take(i as int));
        }
        if cs[i] == '/' {
            out = Vec::new();
            proof {
                assert(out@ =~= Seq::<char>::empty());
            }
        } else {
            out.push(cs[i]);
        }
        i = i + 1;
    }
    proof {
        assert(cs@.take(cs@.len() as int) =~= cs@);
    }
    out
}

pub(crate) fn extension_chars(name: &Vec<char>) -> (out: Option<Vec<char>>)
    ensures
        match extension_of(name@) {
            None => out is None,
            Some(e) => out is Some && out.unwrap()@ == e,
        },
{
    let mut out: Option<Vec<char>> = None;
    let mut i: usize = 0;
    proof {
        assert(name@.take(0) =~= Seq::<char>::empty());
    }
    while i < name.len()
        invariant
            i <= name@.len(),
            match extension_of(name@.take(i as int)) {
                None => out is None,
                Some(e) => out is Some && out.unwrap()@ == e,
            },
        decreases name@.len() - i,
    {
        proof {
            assert(name@.take(i + 1).drop_last() =~= name@.take(i as int));
        }
        let c = name[i];
        if c == '.' {
            if i == 0 {
                out = None;
            } else {
                let e: Vec<char> = Vec::new();
                proof {
                    assert(e@ =~= Seq::<char>::empty());
                }
                out = Some(e);
            }
        } else {
            out = match out {
                Some(mut e) => {
                    e.push(c);
                    Some(e)
                },
                None => None,
            };
        }
        i = i + 1;
    }
    proof {
        assert(name@.take(name@.len() as int) =~= name@);
    }
    out
}

/// Whether the path names a source file, by its extension.
pub fn is_probably_code_file(path: &str) -> (b: bool)
    ensures
        b == (extension_of(file_name_of(path@)) matches Some(e) && code_extension(e)),
{
    let cs = chars_of(path);
    let name = file_name_chars(&cs);
    match extension_chars(&name) {
        None => false,
        Some(e) => {
            let s = crate::text::string_of(e.as_slice());
            let t = s.as_str();
            str_eq(t, "rs") || str_eq(t, "py") || str_eq(t, "js") || str_eq(t, "jsx") || str_eq(t, "ts") || str_eq(
                t,
                "tsx",
            ) || str_eq(t, "go") || str_eq(t, "c") || str_eq(t, "h") || str_eq(t, "cc") || str_eq(t, "cpp") || str_eq(
                t,
                "cxx",
            ) || str_eq(t, "hpp") || str_eq(t, "cs")
        },
    }
}

/// Directories that the repository walk does not enter.
pub open spec fn skipped_dir(name: Seq<char>) -> bool {
    name == ".git"@ || name == "target"@ || name == "node_modules"@ || name == ".venv"@ || name == "venv"@ || name
        == "__pycache__"@
}

/// Whether the walk enters a directory of this name.
pub fn should_descend_dir(name: &str) -> (b: bool)
    ensures
        b == !skipped_dir(name@),
{
    !(str_eq(name, ".git") || str_eq(name, "target") || str_eq(name, "node_modules") || str_eq(name, ".venv")
        || str_eq(name, "venv") || str_eq(name, "__pycache__"))
}

/// What a file name says about dependency management.
#[derive(Debug, Clone, Copy, PartialEq, Eq, Structural)]
pub enum ManifestKind {
    RustManifest,
    RustLock,
    NodeManifest,
    NodeLock,
    PythonManifest,
    PythonLock,
    Other,
}

pub open spec fn manifest_kind_spec(name: Seq<char>) -> ManifestKind {
    if name == "Cargo.toml"@ {
        ManifestKind::RustManifest
    } else if name == "Cargo.lock"@ {
        ManifestKind::RustLock
    } else if name == "package.json"@ {
        ManifestKind::NodeManifest
    } else if name == "package-lock.json"@ || name == "pnpm-lock.yaml"@ || name == "yarn.lock"@ || name
        == "bun.lockb"@ || name == "bun.lock"@ {
        ManifestKind::NodeLock
    } else if name == "pyproject.toml"@ || name == "Pipfile"@ || name == "setup.py"@ {
        ManifestKind::PythonManifest
    } else if name == "poetry.lock"@ || name == "uv.lock"@ || name == "Pipfile.lock"@ || name == "requirements.txt"@ {
        ManifestKind::PythonLock
    } else {
        ManifestKind::Other
    }
}

pub fn manifest_kind(name: &str) -> (k: ManifestKind)
    ensures
        k == manifest_kind_spec(name@),
{
    if str_eq(name, "Cargo.toml") {
        ManifestKind::RustManifest
    } else if str_eq(name, "Cargo.lock") {
        ManifestKind::RustLock
    } else if str_eq(name, "package.json") {
        ManifestKind::NodeManifest
    } else if str_eq(name, "package-lock.json") || str_eq(name, "pnpm-lock.yaml") || str_eq(name, "yarn.lock")
        || str_eq(name, "bun.lockb") || str_eq(name, "bun.lock") {
        ManifestKind::NodeLock
    } else if str_eq(name, "pyproject.toml") || str_eq(name, "Pipfile") || str_eq(name, "setup.py") {
        ManifestKind::PythonManifest
    } else if str_eq(name, "poetry.lock") || str_eq(name, "uv.lock") || str_eq(name, "Pipfile.lock") || str_eq(
        name,
        "requirements.txt",
    ) {
        ManifestKind::PythonLock
    } else {
        ManifestKind::Other
    }
}

/// `p` occurs somewhere in `s`.
pub open spec fn contains_seq(s: Seq<char>, p: Seq<char>) -> bool {
    exists|i: int| 0 <= i && i + p.len() <= s.len() && #[trigger] s.subrange(i, i + p.len()) == p
}

/// `p` occurs in `s` when ASCII letters are compared without case.
pub open spec fn contains_ignore_ascii_case(s: Seq<char>, p: Seq<char>) -> bool {
    exists|i: int|
        0 <= i && i + p.len() <= s.len() && crate::text::eq_ignore_ascii_case_spec(
            #[trigger] s.subrange(i, i + p.len()),
            p,
        )
}

fn contains_ic(s: &Vec<char>, p: &str) -> (b: bool)
    ensures
        b == contains_ignore_ascii_case(s@, p@),
{
    let pc = chars_of(p);
    let n = s.len();
    if pc.len() > n {
        return false;
    }
    let last = n - pc.len();
    let mut i: usize = 0;
    loop
        invariant
            pc@ == p@,
            n == s@.len(),
            last == n - pc@.len(),
            i <= last,
            forall|j: int|
                0 <= j < i ==> !crate::text::eq_ignore_ascii_case_spec(#[trigger] s@.subrange(j, j + p@.len()), p@),
        decreases last - i,
    {
        let piece = crate::text::slice_vec(s.as_slice(), i, i + pc.len());
        let ps = crate::text::string_of(piece.as_slice());
        if crate::text::str_eq_ignore_ascii_case(ps.as_str(), p) {
            return true;
        }
        if i == last {
            proof {
                assert forall|j: int| 0 <= j && j + p@.len() <= s@.len() implies !crate::text::eq_ignore_ascii_case_spec(
                    #[trigger] s@.subrange(j, j + p@.len()),
                    p@,
                ) by {
                    if j < i {
                    } else {
                        assert(j == i);
                    }
                }
            }
            return false;
        }
        i = i + 1;
    }
}

/// A prerelease version: `-alpha`, `-beta` or `-rc`, in any ASCII case.
pub open spec fn prerelease_spec(v: Seq<char>) -> bool {
    contains_ignore_ascii_case(v, "-alpha"@) || contains_ignore_ascii_case(v, "-beta"@) || contains_ignore_ascii_case(
        v,
        "-rc"@,
    )
}

pub fn looks_prerelease_version(v: &str) -> (b: bool)
    ensures
        b == prerelease_spec(v@),
{
    let cs = chars_of(v);
    contains_ic(&cs, "-alpha") || contains_ic(&cs, "-beta") || contains_ic(&cs, "-rc")
}

/// The text between the first two double quotes of `s`.
pub open spec fn first_quoted_spec(s: Seq<char>) -> Option<Seq<char>> {
    match first_index(s, '"', 0) {
        None => None,
        Some(a) => match first_index(s, '"', a + 1) {
            None => None,
            Some(b) => Some(s.subrange(a + 1, b)),
        },
    }
}

/// The first position, from `i` on, of `c` in `s`.
pub open spec fn first_index(s: Seq<char>, c: char, i: int) -> Option<int>
    decreases s.len() - i,
{
    if i < 0 || i >= s.len() {
        None
    } else if s[i] == c {
        Some(i)
    } else {
        first_index(s, c, i + 1)
    }
}

pub proof fn lemma_first_index(s: Seq<char>, c: char, i: int)
    requires
        0 <= i,
    ensures
        first_index(s, c, i) matches Some(k) ==> i <= k < s.len() && s[k] == c,
    decreases s.len() - i,
{
    if i < s.len() && s[i] != c {
        lemma_first_index(s, c, i + 1);
    }
}

fn find_char(cs: &Vec<char>, c: char, from: usize) -> (r: Option<usize>)
    ensures
        match first_index(cs@, c, from as int) {
            None => r is None,
            Some(k) => r == Some(k as usize),
        },
{
    let mut i = from;
    while i < cs.len()
        invariant
            from <= i,
            first_index(cs@, c, from as int) == first_index(cs@, c, i as int),
        decreases cs@.len() - i,
    {
        if cs[i] == c {
            return Some(i);
        }
        i = i + 1;
    }
    None
}

pub fn extract_first_quoted_value(s: &str) -> (r: Option<String>)
    ensures
        match first_quoted_spec(s@) {
            None => r is None,
            Some(v) => r is Some && r.unwrap()@ == v,
        },
{
    let cs = chars_of(s);
    let a = match find_char(&cs, '"', 0) {
        Some(a) => a,
        None => return None,
    };
    proof {
        lemma_first_index(cs@, '"', 0);
    }
    let b = match find_char(&cs, '"', a + 1) {
        Some(b) => b,
        None => return None,
    };
    proof {
        lemma_first_index(cs@, '"', a + 1);
    }
    let piece = crate::text::slice_vec(cs.as_slice(), a + 1, b);
    Some(crate::text::string_of(piece.as_slice()))
}

/// `s` without the double quotes at either end.
pub open spec fn strip_quotes(s: Seq<char>) -> Seq<char> {
    strip_quotes_end(strip_quotes_start(s))
}

pub open spec fn strip_quotes_start(s: Seq<char>) -> Seq<char>
    decreases s.len(),
{
    if s.len() > 0 && s[0] == '"' {
        strip_quotes_start(s.drop_first())
    } else {
        s
    }
}

pub open spec fn strip_quotes_end(s: Seq<char>) -> Seq<char>
    decreases s.len(),
{
    if s.len() > 0 && s.last() == '"' {
        strip_quotes_end(s.drop_last())
    } else {
        s
    }
}

fn strip_quotes_vec(cs: &Vec<char>) -> (out: Vec<char>)
    ensures
        out@ == strip_quotes(cs@),
{
    let mut i: usize = 0;
    proof {
        assert(cs@.subrange(0, cs@.len() as int) =~= cs@);
    }
    while i < cs.len() && cs[i] == '"'
        invariant
            i <= cs@.len(),
            strip_quotes_start(cs@) == strip_quotes_start(cs@.subrange(i as int, cs@.len() as int)),
        decreases cs@.len() - i,
    {
        proof {
            let t = cs@.subrange(i as int, cs@.len() as int);
            assert(t.drop_first() =~= cs@.subrange(i + 1, cs@.len() as int));
        }
        i = i + 1;
    }
    let mut j: usize = cs.len();
    let ghost start = cs@.subrange(i as int, cs@.len() as int);
    proof {
        assert(start =~= cs@.subrange(i as int, j as int));
    }
    while j > i && cs[j - 1] == '"'
        invariant
            i <= j <= cs@.len(),
            start == cs@.subrange(i as int, cs@.len() as int),
            strip_quotes_end(start) == strip_quotes_end(cs@.subrange(i as int, j as int)),
        decreases j,
    {
        proof {
            let t = cs@.subrange(i as int, j as int);
            assert(t.drop_last() =~= cs@.subrange(i as int, j - 1));
        }
        j = j - 1;
    }
    proof {
        let t = cs@.subrange(i as int, j as int);
        if t.len() > 0 {
            assert(t.last() == cs@[j - 1]);
        }
        if i < cs@.len() {
            assert(start[0] == cs@[i as int]);
        }
    }
    crate::text::slice_vec(cs.as_slice(), i, j)
}

/// The first position, from `i` on, where `p` occurs in `s`.
pub open spec fn first_occurrence(s: Seq<char>, p: Seq<char>, i: int) -> Option<int>
    decreases s.len() + 1 - i,
{
    if i < 0 || i + p.len() > s.len() {
        None
    } else if s.subrange(i, i + p.len()) == p {
        Some(i)
    } else {
        first_occurrence(s, p, i + 1)
    }
}

pub proof fn lemma_first_occurrence(s: Seq<char>, p: Seq<char>, i: int)
    requires
        0 <= i,
    ensures
        first_occurrence(s, p, i) matches Some(k) ==> i <= k && k + p.len() <= s.len(),
    decreases s.len() + 1 - i,
{
    if i + p.len() <= s.len() && s.subrange(i, i + p.len()) != p {
        lemma_first_occurrence(s, p, i + 1);
    }
}

pub fn find_seq(s: &Vec<char>, p: &str) -> (r: Option<usize>)
    ensures
        match first_occurrence(s@, p@, 0) {
            None => r is None,
            Some(k) => r == Some(k as usize),
        },
{
    let pc = chars_of(p);
    let n = s.len();
    if pc.len() > n {
        return None;
    }
    let last = n - pc.len();
    let mut i: usize = 0;
    loop
        invariant
            pc@ == p@,
            n == s@.len(),
            last == n - pc@.len(),
            i <= last,
            first_occurrence(s@, p@, 0) == first_occurrence(s@, p@, i as int),
        decreases last - i,
    {
        let piece = crate::text::slice_vec(s.as_slice(), i, i + pc.len());
        if crate::text::chars_eq(piece.as_slice(), pc.as_slice()) {
            return Some(i);
        }
        if i == last {
            proof {
                assert(first_occurrence(s@, p@, i + 1) is None);
            }
            return None;
        }
        i = i + 1;
    }
}

/// A dependency section: `dependencies`, `dev-dependencies`,
/// `build-dependencies`, or a table ending in one of them after a dot, in any
/// ASCII case.
pub open spec fn dependency_section(section: Seq<char>) -> bool {
    let ic = |a: Seq<char>, b: Seq<char>| crate::text::eq_ignore_ascii_case_spec(a, b);
    ic(section, "dependencies"@) || ic(section, "dev-dependencies"@) || ic(section, "build-dependencies"@) || ends_ic(
        section,
        ".dependencies"@,
    ) || ends_ic(section, ".dev-dependencies"@) || ends_ic(section, ".build-dependencies"@)
}

/// `s` ends with `p` when ASCII letters are compared without case.
pub open spec fn ends_ic(s: Seq<char>, p: Seq<char>) -> bool {
    p.len() <= s.len() && crate::text::eq_ignore_ascii_case_spec(s.subrange(s.len() - p.len(), s.len() as int), p)
}

fn ends_with_ic(cs: &Vec<char>, p: &str) -> (b: bool)
    ensures
        b == ends_ic(cs@, p@),
{
    let pc = chars_of(p);
    if pc.len() > cs.len() {
        return false;
    }
    let tail = crate::text::slice_vec(cs.as_slice(), cs.len() - pc.len(), cs.len());
    let ts = crate::text::string_of(tail.as_slice());
    crate::text::str_eq_ignore_ascii_case(ts.as_str(), p)
}

fn is_dependency_section(section: &Vec<char>) -> (b: bool)
    ensures
        b == dependency_section(section@),
{
    let s = crate::text::string_of(section.as_slice());
    let t = s.as_str();
    crate::text::str_eq_ignore_ascii_case(t, "dependencies") || crate::text::str_eq_ignore_ascii_case(
        t,
        "dev-dependencies",
    ) || crate::text::str_eq_ignore_ascii_case(t, "build-dependencies") || ends_with_ic(section, ".dependencies")
        || ends_with_ic(section, ".dev-dependencies") || ends_with_ic(section, ".build-dependencies")
}

/// The version that the right-hand side of a dependency line names: a quoted
/// string, or the quoted value after `version` in an inline table.
pub open spec fn dependency_version(rhs: Seq<char>) -> Option<Seq<char>> {
    if rhs.len() > 0 && rhs[0] == '"' {
        first_quoted_spec(rhs)
    } else if rhs.len() > 0 && rhs[0] == '{' {
        match first_occurrence(rhs, "version"@, 0) {
            Some(k) => first_quoted_spec(rhs.subrange(k, rhs.len() as int)),
            None => None,
        }
    } else {
        None
    }
}

/// What one trimmed manifest line means: a section header (whether it opens a
/// dependency table), or a prerelease dependency `(name, version)` inside one.
pub open spec fn cargo_line_spec(t: Seq<char>, in_deps: bool) -> (bool, Option<(Seq<char>, Seq<char>)>) {
    if t.len() == 0 || t[0] == '#' {
        (in_deps, None)
    } else if t[0] == '[' && t.last() == ']' {
        (dependency_section(t.subrange(1, t.len() - 1)), None)
    } else if !in_deps {
        (in_deps, None)
    } else {
        match first_index(t, '=', 0) {
            None => (in_deps, None),
            Some(k) => {
                let name = strip_quotes(trim_spec(t.subrange(0, k)));
                let rhs = trim_spec(t.subrange(k + 1, t.len() as int));
                if name.len() == 0 {
                    (in_deps, None)
                } else {
                    match dependency_version(rhs) {
                        Some(v) => if prerelease_spec(v) {
                            (in_deps, Some((name, v)))
                        } else {
                            (in_deps, None)
                        },
                        None => (in_deps, None),
                    }
                }
            },
        }
    }
}

/// The prerelease dependencies of the lines, in order, each name once (the
/// first), and whether the last line leaves a dependency table open.
pub open spec fn cargo_scan(lines: Seq<Seq<char>>) -> (bool, Seq<(Seq<char>, Seq<char>)>)
    decreases lines.len(),
{
    if lines.len() == 0 {
        (false, Seq::empty())
    } else {
        let (in_deps, found) = cargo_scan(lines.drop_last());
        let (next, dep) = cargo_line_spec(trim_spec(lines.last()), in_deps);
        match dep {
            Some((name, v)) => if found.map_values(|d: (Seq<char>, Seq<char>)| d.0).contains(name) {
                (next, found)
            } else {
                (next, found.push((name, v)))
            },
            None => (next, found),
        }
    }
}

fn cargo_line(t: &Vec<char>, in_deps: bool) -> (r: (bool, Option<(String, String)>))
    ensures
        r.0 == cargo_line_spec(t@, in_deps).0,
        match cargo_line_spec(t@, in_deps).1 {
            None => r.1 is None,
            Some((n, v)) => r.1 is Some && r.1.unwrap().0@ == n && r.1.unwrap().1@ == v,
        },
{
    let n = t.len();
    if n == 0 || t[0] == '#' {
        return (in_deps, None);
    }
    if t[0] == '[' && t[n - 1] == ']' {
        let section = crate::text::slice_vec(t.as_slice(), 1, n - 1);
        return (is_dependency_section(&section), None);
    }
    if !in_deps {
        return (in_deps, None);
    }
    let k = match find_char(t, '=', 0) {
        Some(k) => k,
        None => return (in_deps, None),
    };
    proof {
        lemma_first_index(t@, '=', 0);
    }
    let left = crate::text::slice_vec(t.as_slice(), 0, k);
    let right = crate::text::slice_vec(t.as_slice(), k + 1, n);
    let name = strip_quotes_vec(&crate::text::trim_chars(left.as_slice()));
    let rhs = crate::text::trim_chars(right.as_slice());
    if name.len() == 0 {
        return (in_deps, None);
    }
    let version = if rhs.len() > 0 && rhs[0] == '"' {
        let r = crate::text::string_of(rhs.as_slice());
        extract_first_quoted_value(r.as_str())
    } else if rhs.len() > 0 && rhs[0] == '{' {
        match find_seq(&rhs, "version") {
            Some(k2) => {
                proof {
                    lemma_first_occurrence(rhs@, "version"@, 0);
                }
                let tail = crate::text::slice_vec(rhs.as_slice(), k2, rhs.len());
                let ts = crate::text::string_of(tail.as_slice());
                extract_first_quoted_value(ts.as_str())
            },
            None => None,
        }
    } else {
        None
    };
    match version {
        Some(v) => {
            if looks_prerelease_version(v.as_str()) {
                (in_deps, Some((crate::text::string_of(name.as_slice()), v)))
            } else {
                (in_deps, None)
            }
        },
        None => (in_deps, None),
    }
}

/// The prerelease dependencies that a `Cargo.toml` declares in its dependency
/// tables, in order, each name once.
pub fn scan_cargo_prerelease_deps(raw: &str) -> (out: Vec<(String, String)>)
    ensures
        out@.map_values(|d: (String, String)| (d.0@, d.1@)) == cargo_scan(
            crate::csv::split_on(raw@, '\n'),
        ).1,
{
    let cs = chars_of(raw);
    let ghost lines = crate::csv::split_on(raw@, '\n');
    let pieces = split_lines(&cs);
    let mut out: Vec<(String, String)> = Vec::new();
    let mut names: Vec<String> = Vec::new();
    let mut in_deps = false;
    let mut i: usize = 0;
    proof {
        assert(lines.take(0) =~= Seq::<Seq<char>>::empty());
        assert(out@.map_values(|d: (String, String)| (d.0@, d.1@)) =~= Seq::<(Seq<char>, Seq<char>)>::empty());
        assert(views(names@) =~= Seq::<Seq<char>>::empty());
    }
    while i < pieces.len()
        invariant
            lines == crate::csv::split_on(raw@, '\n'),
            pieces@.len() == lines.len(),
            forall|k: int| 0 <= k < lines.len() ==> (#[trigger] pieces@[k])@ == lines[k],
            i <= lines.len(),
            (in_deps, out@.map_values(|d: (String, String)| (d.0@, d.1@))) == cargo_scan(lines.take(i as int)),
            views(names@) == out@.map_values(|d: (String, String)| (d.0@, d.1@)).map_values(
                |d: (Seq<char>, Seq<char>)| d.0,
            ),
        decreases lines.len() - i,
    {
        proof {
            assert(lines.take(i + 1).drop_last() =~= lines.take(i as int));
            assert(lines.take(i + 1).last() == lines[i as int]);
        }
        let t = crate::text::trim_chars(pieces[i].as_slice());
        let (next, dep) = cargo_line(&t, in_deps);
        in_deps = next;
        match dep {
            Some((name, v)) => {
                if !crate::plugins::contains_string(&names, name.as_str()) {
                    let ghost before = out@.map_values(|d: (String, String)| (d.0@, d.1@));
                    let ghost bnames = views(names@);
                    names.push(name.clone());
                    out.push((name, v));
                    proof {
                        assert(out@.map_values(|d: (String, String)| (d.0@, d.1@)) =~= before.push(
                            (out@.last().0@, out@.last().1@),
                        ));
                        assert(views(names@) =~= bnames.push(out@.last().0@));
                        assert(out@.map_values(|d: (String, String)| (d.0@, d.1@)).map_values(
                            |d: (Seq<char>, Seq<char>)| d.0,
                        ) =~= before.map_values(|d: (Seq<char>, Seq<char>)| d.0).push(out@.last().0@));
                    }
                }
            },
            None => {},
        }
        i = i + 1;
    }
    proof {
        assert(lines.take(lines.len() as int) =~= lines);
    }
    out
}

/// The pieces of `cs` between line feeds.
fn split_lines(cs: &Vec<char>) -> (out: Vec<Vec<char>>)
    ensures
        out@.len() == crate::csv::split_on(cs@, '\n').len(),
        forall|k: int| 0 <= k < out@.len() ==> (#[trigger] out@[k])@ == crate::csv::split_on(cs@, '\n')[k],
{
    let mut out: Vec<Vec<char>> = Vec::new();
    let mut cur: Vec<char> = Vec::new();
    let mut i: usize = 0;
    proof {
        assert(cs@.take(0) =~= Seq::<char>::empty());
    }
    while i < cs.len()
        invariant
            i <= cs@.len(),
            out@.len() + 1 == crate::csv::split_on(cs@.take(i as int), '\n').len(),
            forall|k: int| 0 <= k < out@.len() ==> (#[trigger] out@[k])@ == crate::csv::split_on(cs@.take(i as int), '\n')[k],
            cur@ == crate::csv::split_on(cs@.take(i as int), '\n').last(),
        decreases cs@.len() - i,
    {
        let ghost prev = crate::csv::split_on(cs@.take(i as int), '\n');
        proof {
            assert(cs@.take(i + 1).drop_last() =~= cs@.take(i as int));
            assert(cs@.take(i + 1).last() == cs@[i as int]);
        }
        if cs[i] == '\n' {
            let done = cur;
            out.push(done);
            cur = Vec::new();
            proof {
                assert(cur@ =~= Seq::<char>::empty());
            }
        } else {
            cur.push(cs[i]);
        }
        i = i + 1;
    }
    proof {
        assert(cs@.take(cs@.len() as int) =~= cs@);
    }
    out.push(cur);
    out
}

/// What the walk found of dependency manifests and lockfiles; manifest paths sorted.
#[derive(Debug, Clone)]
pub struct ManifestScan {
    pub rust_manifest_paths: Vec<String>,
    pub rust_lock_present: bool,
    pub node_manifest_paths: Vec<String>,
    pub node_lock_present: bool,
    pub python_manifest_paths: Vec<String>,
    pub python_lock_present: bool,
}

pub open spec fn lockfile_missing(ecosystem: Seq<char>, message: Seq<char>, path: Seq<char>, manifests: Seq<Seq<char>>) -> ViolationView {
    ViolationView {
        code: "supply_chain.lockfile_missing"@,
        message,
        path: Some(path),
        details: Some(seq![("ecosystem"@, DetailValueView::Str(ecosystem)), ("manifests"@, DetailValueView::StrList(manifests))]),
        tier: ViolationTier::Blocking,
    }
}

pub open spec fn lockfile_violations_spec(scan: ManifestScan) -> Seq<ViolationView> {
    (if scan.rust_manifest_paths@.len() > 0 && !scan.rust_lock_present {
        seq![lockfile_missing("rust"@, "rust manifests detected but Cargo.lock is missing"@, "Cargo.lock"@, views(scan.rust_manifest_paths@))]
    } else {
        Seq::empty()
    }) + (if scan.node_manifest_paths@.len() > 0 && !scan.node_lock_present {
        seq![lockfile_missing("node"@, "node manifests detected but lockfile is missing"@, "package.json"@, views(scan.node_manifest_paths@))]
    } else {
        Seq::empty()
    }) + (if scan.python_manifest_paths@.len() > 0 && !scan.python_lock_present {
        seq![lockfile_missing("python"@, "python manifests detected but lockfile is missing"@, "pyproject.toml"@, views(scan.python_manifest_paths@))]
    } else {
        Seq::empty()
    })
}

fn lockfile_violation(ecosystem: &str, message: &str, path: &str, manifests: &Vec<String>) -> (v: Violation)
    ensures
        violation_view(v) == lockfile_missing(ecosystem@, message@, path@, views(manifests@)),
{
    let mut fields: Vec<(String, DetailValue)> = Vec::new();
    fields.push((String::from_str("ecosystem"), DetailValue::Str(String::from_str(ecosystem))));
    fields.push((String::from_str("manifests"), DetailValue::StrList(crate::csv::copy_strings(manifests.as_slice()))));
    let v = Violation::blocking(
        String::from_str("supply_chain.lockfile_missing"),
        String::from_str(message),
        Some(String::from_str(path)),
        Some(Details { fields }),
    );
    proof {
        assert(crate::api::details_view(v.details).unwrap() =~= seq![("ecosystem"@, DetailValueView::Str(ecosystem@)), ("manifests"@, DetailValueView::StrList(views(manifests@)))]);
    }
    v
}

/// One violation for each ecosystem whose manifests have no lockfile: rust, node, python.
pub fn lockfile_violations(scan: &ManifestScan) -> (out: Vec<Violation>)
    ensures
        violation_views(out@) == lockfile_violations_spec(*scan),
{
    let mut out: Vec<Violation> = Vec::new();
    if scan.rust_manifest_paths.len() > 0 && !scan.rust_lock_present {
        out.push(lockfile_violation("rust", "rust manifests detected but Cargo.lock is missing", "Cargo.lock", &scan.rust_manifest_paths));
    }
    let ghost a = violation_views(out@);
    if scan.node_manifest_paths.len() > 0 && !scan.node_lock_present {
        out.push(lockfile_violation("node", "node manifests detected but lockfile is missing", "package.json", &scan.node_manifest_paths));
    }
    let ghost b = violation_views(out@);
    if scan.python_manifest_paths.len() > 0 && !scan.python_lock_present {
        out.push(lockfile_violation("python", "python manifests detected but lockfile is missing", "pyproject.toml", &scan.python_manifest_paths));
    }
    proof {
        assert(violation_views(out@) =~= lockfile_violations_spec(*scan));
    }
    out
}

pub open spec fn prerelease_view(ecosystem: Seq<char>, rel: Seq<char>, dep: (Seq<char>, Seq<char>)) -> ViolationView {
    ViolationView {
        code: "supply_chain.prerelease_dependency"@,
        message: "prerelease "@ + ecosystem + " dependency is forbidden: "@ + dep.0 + "="@ + dep.1,
        path: Some(rel),
        details: Some(
            seq![
                ("ecosystem"@, DetailValueView::Str(ecosystem)),
                ("dependency"@, DetailValueView::Str(dep.0)),
                ("version"@, DetailValueView::Str(dep.1)),
            ],
        ),
        tier: ViolationTier::Blocking,
    }
}

/// One blocking violation for each prerelease dependency of the manifest at `rel`.
pub fn prerelease_violations(ecosystem: &str, rel: &str, deps: &Vec<(String, String)>) -> (out: Vec<Violation>)
    ensures
        violation_views(out@) == deps@.map_values(|d: (String, String)| prerelease_view(ecosystem@, rel@, (d.0@, d.1@))),
{
    let mut out: Vec<Violation> = Vec::new();
    let mut i: usize = 0;
    while i < deps.len()
        invariant
            i <= deps@.len(),
            violation_views(out@) == deps@.take(i as int).map_values(|d: (String, String)| prerelease_view(ecosystem@, rel@, (d.0@, d.1@))),
        decreases deps@.len() - i,
    {
        let (dep, version) = (&deps[i].0, &deps[i].1);
        let a = concat("prerelease ", ecosystem);
        let b = concat(a.as_str(), " dependency is forbidden: ");
        let c = concat(b.as_str(), dep.as_str());
        let d = concat(c.as_str(), "=");
        let message = concat(d.as_str(), version.as_str());
        let mut fields: Vec<(String, DetailValue)> = Vec::new();
        fields.push((String::from_str("ecosystem"), DetailValue::Str(String::from_str(ecosystem))));
        fields.push((String::from_str("dependency"), DetailValue::Str(dep.clone())));
        fields.push((String::from_str("version"), DetailValue::Str(version.clone())));
        let v = Violation::blocking(
            String::from_str("supply_chain.prerelease_dependency"),
            message,
            Some(String::from_str(rel)),
            Some(Details { fields }),
        );
        let ghost before = violation_views(out@);
        proof {
            assert(crate::api::details_view(v.details).unwrap() =~= seq![
                ("ecosystem"@, DetailValueView::Str(ecosystem@)),
                ("dependency"@, DetailValueView::Str(dep@)),
                ("version"@, DetailValueView::Str(version@)),
            ]);
        }
        out.push(v);
        proof {
            assert(violation_views(out@) =~= before.push(violation_view(v)));
            assert(deps@.take(i + 1).map_values(|d: (String, String)| prerelease_view(ecosystem@, rel@, (d.0@, d.1@))) =~= deps@.take(i as int).map_values(|d: (String, String)| prerelease_view(ecosystem@, rel@, (d.0@, d.1@))).push(prerelease_view(ecosystem@, rel@, (deps@[i as int].0@, deps@[i as int].1@))));
        }
        i = i + 1;
    }
    proof {
        assert(deps@.take(deps@.len() as int) =~= deps@);
    }
    out
}

/// What the tool budget looks at: tool and check totals, each plugin's tool
/// count, and each gate's length.
#[derive(Debug, Clone)]
pub struct ToolBudgetInput {
    pub tools_total: usize,
    pub plugins: Vec<(String, usize)>,
    pub gate_ci_fast: usize,
    pub gate_ci: usize,
    pub gate_flagship: usize,
    pub checks_total: usize,
}

/// The number of configured checks of every kind.
pub fn checks_total(checks: &crate::config::ChecksConfigV2) -> (n: u128)
    ensures
        n as int == checks.loc@.len() + checks.env_registry@.len() + checks.boundary@.len() + checks.surface@.len()
            + checks.duplicates@.len() + checks.supply_chain@.len() + checks.tool_budget@.len()
            + checks.reuse_first@.len() + checks.arch_layers@.len() + checks.dead_code@.len() + checks.orphan_api@.len()
            + checks.complexity_budget@.len() + checks.contract_break@.len(),
{
    checks.loc.len() as u128 + checks.env_registry.len() as u128 + checks.boundary.len() as u128
        + checks.surface.len() as u128 + checks.duplicates.len() as u128 + checks.supply_chain.len() as u128
        + checks.tool_budget.len() as u128 + checks.reuse_first.len() as u128 + checks.arch_layers.len() as u128
        + checks.dead_code.len() as u128 + checks.orphan_api.len() as u128 + checks.complexity_budget.len() as u128
        + checks.contract_break.len() as u128
}

pub open spec fn budget_details(check_id: Seq<char>, total: nat, max: nat) -> Seq<(Seq<char>, DetailValueView)> {
    seq![
        ("check_id"@, DetailValueView::Str(check_id)),
        ("total"@, DetailValueView::UInt(total as u64)),
        ("max"@, DetailValueView::UInt(max as u64)),
    ]
}

/// The tool-budget violations (fail-closed), in order: total tools, tools per plugin,
/// tools per gate (ci_fast, ci, flagship), total checks.
pub open spec fn tool_budget_spec(input: ToolBudgetInput, check: crate::config::ToolBudgetCheckConfigV2) -> Seq<ViolationView> {
    let id = check.id@;
    (if input.tools_total > check.max_tools_total {
        seq![
            ViolationView {
                code: "tool_budget.max_tools_total_exceeded"@,
                message: "tool count"@ + " exceeds budget: total="@ + decimal_spec(input.tools_total as nat) + " > max="@
                    + decimal_spec(check.max_tools_total as nat),
                path: Some(".agents/mcp/compas/plugins"@),
                details: Some(budget_details(id, input.tools_total as nat, check.max_tools_total as nat)),
                tier: ViolationTier::Blocking,
            },
        ]
    } else {
        Seq::empty()
    }) + plugin_budget_spec(input.plugins@, check) + gate_budget_spec("ci_fast"@, input.gate_ci_fast, check)
        + gate_budget_spec("ci"@, input.gate_ci, check) + gate_budget_spec("flagship"@, input.gate_flagship, check) + (
    if input.checks_total > check.max_checks_total {
        seq![
            ViolationView {
                code: "tool_budget.max_checks_total_exceeded"@,
                message: "checks count"@ + " exceeds budget: total="@ + decimal_spec(input.checks_total as nat) + " > max="@
                    + decimal_spec(check.max_checks_total as nat),
                path: Some(".agents/mcp/compas/plugins"@),
                details: Some(budget_details(id, input.checks_total as nat, check.max_checks_total as nat)),
                tier: ViolationTier::Blocking,
            },
        ]
    } else {
        Seq::empty()
    })
}

pub open spec fn plugin_budget_spec(plugins: Seq<(String, usize)>, check: crate::config::ToolBudgetCheckConfigV2) -> Seq<ViolationView>
    decreases plugins.len(),
{
    if plugins.len() == 0 {
        Seq::empty()
    } else {
        let rest = plugin_budget_spec(plugins.drop_last(), check);
        let (pid, total) = plugins.last();
        if total > check.max_tools_per_plugin {
            rest.push(
                ViolationView {
                    code: "tool_budget.max_tools_per_plugin_exceeded"@,
                    message: "plugin "@ + pid@ + " exceeds tool budget: total="@ + decimal_spec(total as nat) + " > max="@
                        + decimal_spec(check.max_tools_per_plugin as nat),
                    path: Some(".agents/mcp/compas/plugins/"@ + pid@ + "/plugin.toml"@),
                    details: Some(
                        seq![
                            ("check_id"@, DetailValueView::Str(check.id@)),
                            ("plugin_id"@, DetailValueView::Str(pid@)),
                            ("total"@, DetailValueView::UInt(total as u64)),
                            ("max"@, DetailValueView::UInt(check.max_tools_per_plugin as u64)),
                        ],
                    ),
                    tier: ViolationTier::Blocking,
                },
            )
        } else {
            rest
        }
    }
}

pub open spec fn gate_budget_spec(kind: Seq<char>, total: usize, check: crate::config::ToolBudgetCheckConfigV2) -> Seq<ViolationView> {
    if total > check.max_gate_tools_per_kind {
        seq![
            ViolationView {
                code: "tool_budget.max_gate_tools_exceeded"@,
                message: "gate "@ + kind + " exceeds budget: total="@ + decimal_spec(total as nat) + " > max="@
                    + decimal_spec(check.max_gate_tools_per_kind as nat),
                path: Some(".agents/mcp/compas/plugins"@),
                details: Some(
                    seq![
                        ("check_id"@, DetailValueView::Str(check.id@)),
                        ("gate_kind"@, DetailValueView::Str(kind)),
                        ("total"@, DetailValueView::UInt(total as u64)),
                        ("max"@, DetailValueView::UInt(check.max_gate_tools_per_kind as u64)),
                    ],
                ),
                tier: ViolationTier::Blocking,
            },
        ]
    } else {
        Seq::empty()
    }
}

fn num(n: usize) -> (s: String)
    ensures
        s@ == decimal_spec(n as nat),
{
    u64_to_string(n as u64)
}

fn budget_violation(code: &str, message: String, path: String, fields: Vec<(String, DetailValue)>) -> (v: Violation)
    ensures
        v.code@ == code@,
        v.message == message,
        v.path == Some(path),
        v.details == Some(Details { fields }),
        v.tier == ViolationTier::Blocking,
{
    Violation::blocking(String::from_str(code), message, Some(path), Some(Details { fields }))
}

fn gate_budget(kind: &str, total: usize, check: &crate::config::ToolBudgetCheckConfigV2) -> (out: Vec<Violation>)
    ensures
        violation_views(out@) == gate_budget_spec(kind@, total, *check),
{
    let mut out: Vec<Violation> = Vec::new();
    if total > check.max_gate_tools_per_kind {
        let a = concat("gate ", kind);
        let b = concat(a.as_str(), " exceeds budget: total=");
        let c = concat(b.as_str(), num(total).as_str());
        let d = concat(c.as_str(), " > max=");
        let m = concat(d.as_str(), num(check.max_gate_tools_per_kind).as_str());
        let mut fields: Vec<(String, DetailValue)> = Vec::new();
        fields.push((String::from_str("check_id"), DetailValue::Str(check.id.clone())));
        fields.push((String::from_str("gate_kind"), DetailValue::Str(String::from_str(kind))));
        fields.push((String::from_str("total"), DetailValue::UInt(total as u64)));
        fields.push((String::from_str("max"), DetailValue::UInt(check.max_gate_tools_per_kind as u64)));
        let v = budget_violation("tool_budget.max_gate_tools_exceeded", m, String::from_str(".agents/mcp/compas/plugins"), fields);
        proof {
            assert(crate::api::details_view(v.details).unwrap() =~= seq![
                ("check_id"@, DetailValueView::Str(check.id@)),
                ("gate_kind"@, DetailValueView::Str(kind@)),
                ("total"@, DetailValueView::UInt(total as u64)),
                ("max"@, DetailValueView::UInt(check.max_gate_tools_per_kind as u64)),
            ]);
        }
        out.push(v);
    }
    proof {
        assert(violation_views(out@) =~= gate_budget_spec(kind@, total, *check));
    }
    out
}

fn total_budget(code: &str, what: &str, total: usize, max: usize, check_id: &String) -> (out: Vec<Violation>)
    ensures
        total > max ==> violation_views(out@) == seq![
            ViolationView {
                code: code@,
                message: what@ + " exceeds budget: total="@ + decimal_spec(total as nat) + " > max="@ + decimal_spec(max as nat),
                path: Some(".agents/mcp/compas/plugins"@),
                details: Some(budget_details(check_id@, total as nat, max as nat)),
                tier: ViolationTier::Blocking,
            },
        ],
        total <= max ==> out@.len() == 0,
{
    let mut out: Vec<Violation> = Vec::new();
    if total > max {
        let a = concat(what, " exceeds budget: total=");
        let b = concat(a.as_str(), num(total).as_str());
        let c = concat(b.as_str(), " > max=");
        let m = concat(c.as_str(), num(max).as_str());
        let mut fields: Vec<(String, DetailValue)> = Vec::new();
        fields.push((String::from_str("check_id"), DetailValue::Str(check_id.clone())));
        fields.push((String::from_str("total"), DetailValue::UInt(total as u64)));
        fields.push((String::from_str("max"), DetailValue::UInt(max as u64)));
        let v = budget_violation(code, m, String::from_str(".agents/mcp/compas/plugins"), fields);
        proof {
            assert(crate::api::details_view(v.details).unwrap() =~= budget_details(check_id@, total as nat, max as nat));
        }
        out.push(v);
        proof {
            assert(violation_views(out@) =~= seq![violation_view(v)]);
        }
    }
    out
}

/// The tool-budget violations (fail-closed) (see `tool_budget_spec`).
pub fn run_tool_budget_check(input: &ToolBudgetInput, check: &crate::config::ToolBudgetCheckConfigV2) -> (out: Vec<Violation>)
    ensures
        violation_views(out@) == tool_budget_spec(*input, *check),
{
    let mut out = total_budget("tool_budget.max_tools_total_exceeded", "tool count", input.tools_total, check.max_tools_total, &check.id);
    let ghost s0 = violation_views(out@);
    let mut i: usize = 0;
    proof {
        assert(input.plugins@.take(0) =~= Seq::<(String, usize)>::empty());
        assert(s0 + plugin_budget_spec(input.plugins@.take(0), *check) =~= s0);
    }
    while i < input.plugins.len()
        invariant
            i <= input.plugins@.len(),
            violation_views(out@) == s0 + plugin_budget_spec(input.plugins@.take(i as int), *check),
        decreases input.plugins@.len() - i,
    {
        proof {
            assert(input.plugins@.take(i + 1).drop_last() =~= input.plugins@.take(i as int));
            assert(input.plugins@.take(i + 1).last() == input.plugins@[i as int]);
        }
        let pid = &input.plugins[i].0;
        let total = input.plugins[i].1;
        if total > check.max_tools_per_plugin {
            let a = concat("plugin ", pid.as_str());
            let b = concat(a.as_str(), " exceeds tool budget: total=");
            let c = concat(b.as_str(), num(total).as_str());
            let d = concat(c.as_str(), " > max=");
            let m = concat(d.as_str(), num(check.max_tools_per_plugin).as_str());
            let pa = concat(".agents/mcp/compas/plugins/", pid.as_str());
            let path = concat(pa.as_str(), "/plugin.toml");
            let mut fields: Vec<(String, DetailValue)> = Vec::new();
            fields.push((String::from_str("check_id"), DetailValue::Str(check.id.clone())));
            fields.push((String::from_str("plugin_id"), DetailValue::Str(pid.clone())));
            fields.push((String::from_str("total"), DetailValue::UInt(total as u64)));
            fields.push((String::from_str("max"), DetailValue::UInt(check.max_tools_per_plugin as u64)));
            let v = budget_violation("tool_budget.max_tools_per_plugin_exceeded", m, path, fields);
            proof {
                assert(crate::api::details_view(v.details).unwrap() =~= seq![
                    ("check_id"@, DetailValueView::Str(check.id@)),
                    ("plugin_id"@, DetailValueView::Str(pid@)),
                    ("total"@, DetailValueView::UInt(total as u64)),
                    ("max"@, DetailValueView::UInt(check.max_tools_per_plugin as u64)),
                ]);
            }
            let ghost before = violation_views(out@);
            out.push(v);
            proof {
                assert(violation_views(out@) =~= before.push(violation_view(v)));
            }
        }
        i = i + 1;
    }
    proof {
        assert(input.plugins@.take(input.plugins@.len() as int) =~= input.plugins@);
    }
    let mut g1 = gate_budget("ci_fast", input.gate_ci_fast, check);
    let mut g2 = gate_budget("ci", input.gate_ci, check);
    let mut g3 = gate_budget("flagship", input.gate_flagship, check);
    let mut tail = total_budget("tool_budget.max_checks_total_exceeded", "checks count", input.checks_total, check.max_checks_total, &check.id);
    let ghost (a1, a2, a3, a4) = (violation_views(g1@), violation_views(g2@), violation_views(g3@), violation_views(tail@));
    let ghost before = violation_views(out@);
    out.append(&mut g1);
    out.append(&mut g2);
    out.append(&mut g3);
    out.append(&mut tail);
    proof {
        assert(violation_views(out@) =~= before + a1 + a2 + a3 + a4);
        assert(violation_views(out@) =~= tool_budget_spec(*input, *check));
    }
    out
}

/// One observation for each file over the line budget, in file order.
pub open spec fn loc_violations_spec(files: Seq<(String, usize)>, max_loc: usize) -> Seq<ViolationView>
    decreases files.len(),
{
    if files.len() == 0 {
        Seq::empty()
    } else {
        let rest = loc_violations_spec(files.drop_last(), max_loc);
        let (path, loc) = files.last();
        if loc > max_loc {
            rest.push(
                ViolationView {
                    code: "loc.max_exceeded"@,
                    message: "file exceeds max_loc="@ + decimal_spec(max_loc as nat) + " (loc="@ + decimal_spec(
                        loc as nat,
                    ) + ")"@,
                    path: Some(path@),
                    details: None,
                    tier: ViolationTier::Observation,
                },
            )
        } else {
            rest
        }
    }
}

/// The largest line count (0 for no files) and the first file that has it.
pub open spec fn worst_file(files: Seq<(String, usize)>) -> (usize, Option<Seq<char>>)
    decreases files.len(),
{
    if files.len() == 0 {
        (0, None)
    } else {
        let (m, p) = worst_file(files.drop_last());
        if files.last().1 > m {
            (files.last().1, Some(files.last().0@))
        } else {
            (m, p)
        }
    }
}

/// The line-count results over files (ordered by path): the files over the
/// budget, the largest count, and the first file with it.
pub fn loc_results(files: &Vec<(String, usize)>, max_loc: usize) -> (r: (Vec<Violation>, usize, Option<String>))
    ensures
        violation_views(r.0@) == loc_violations_spec(files@, max_loc),
        r.1 == worst_file(files@).0,
        match worst_file(files@).1 {
            None => r.2 is None,
            Some(p) => r.2 is Some && r.2.unwrap()@ == p,
        },
{
    let mut violations: Vec<Violation> = Vec::new();
    let mut max: usize = 0;
    let mut worst: Option<String> = None;
    let mut i: usize = 0;
    proof {
        assert(files@.take(0) =~= Seq::<(String, usize)>::empty());
        assert(violation_views(violations@) =~= Seq::<ViolationView>::empty());
    }
    while i < files.len()
        invariant
            i <= files@.len(),
            violation_views(violations@) == loc_violations_spec(files@.take(i as int), max_loc),
            max == worst_file(files@.take(i as int)).0,
            match worst_file(files@.take(i as int)).1 {
                None => worst is None,
                Some(p) => worst is Some && worst.unwrap()@ == p,
            },
        decreases files@.len() - i,
    {
        proof {
            assert(files@.take(i + 1).drop_last() =~= files@.take(i as int));
            assert(files@.take(i + 1).last() == files@[i as int]);
        }
        let path = &files[i].0;
        let loc = files[i].1;
        if loc > max {
            max = loc;
            worst = Some(path.clone());
        }
        if loc > max_loc {
            let a = concat("file exceeds max_loc=", u64_to_string(max_loc as u64).as_str());
            let b = concat(a.as_str(), " (loc=");
            let c = concat(b.as_str(), u64_to_string(loc as u64).as_str());
            let v = Violation::observation(
                String::from_str("loc.max_exceeded"),
                concat(c.as_str(), ")"),
                Some(path.clone()),
                None,
            );
            let ghost before = violation_views(violations@);
            violations.push(v);
            proof {
                assert(violation_views(violations@) =~= before.push(violation_view(v)));
            }
        }
        i = i + 1;
    }
    proof {
        assert(files@.take(files@.len() as int) =~= files@);
    }
    (violations, max, worst)
}

} // verus!
