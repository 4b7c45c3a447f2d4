//! Boundary rules over source text: blanking Rust `#[cfg(test)]` modules
//! (keeping line numbers), locating matches by line, and the boundary check
//! that applies deny patterns to the selected files.

use crate::api::{DetailValue, DetailValueView, Details, Violation, ViolationTier, ViolationView, violation_views};
use crate::config::{BoundaryCheckConfigV2, BoundaryRuleConfigV2};
use crate::csv::{split_on, views};
use crate::patterns::{
    CompiledGlobSet, CompiledRegex, any_glob_matches, glob_new_error, globset_build_error, regex_first_match,
    regex_new_error,
};
use crate::text::{
    chars_of, concat, debug_str, seq_ends_with, seq_starts_with, str_starts_with, string_of, trim_spec, trim_start_spec,
    trim_start_str,
};
use vstd::prelude::*;
use vstd::string::*;

verus! {

/// The number of occurrences of `c` in `s`.
pub open spec fn count_char(s: Seq<char>, c: char) -> nat
    decreases s.len(),
{
    if s.len() == 0 {
        0
    } else {
        count_char(s.drop_last(), c) + if s.last() == c { 1nat } else { 0nat }
    }
}

pub proof fn lemma_count_le(s: Seq<char>, c: char)
    ensures
        count_char(s, c) <= s.len(),
    decreases s.len(),
{
    if s.len() > 0 {
        lemma_count_le(s.drop_last(), c);
    }
}

/// Opening braces minus closing braces.
pub open spec fn brace_delta_spec(line: Seq<char>) -> int {
    count_char(line, '{') as int - count_char(line, '}') as int
}

pub(crate) fn count_in(cs: &Vec<char>, c: char) -> (n: usize)
    ensures
        n as nat == count_char(cs@, c),
{
    let mut n: usize = 0;
    let mut i: usize = 0;
    proof {
        assert(cs@.take(0) =~= Seq::<char>::empty());
    }
    while i < cs.len()
        invariant
            i <= cs@.len(),
            n as nat == count_char(cs@.take(i as int), c),
            n <= i,
        decreases cs@.len() - i,
    {
        proof {
            assert(cs@.take(i + 1).drop_last() =~= cs@.take(i as int));
        }
        if cs[i] == c {
            n = n + 1;
        }
        i = i + 1;
    }
    proof {
        assert(cs@.take(cs@.len() as int) =~= cs@);
    }
    n
}

/// Opening braces minus closing braces on a line.
pub fn brace_delta(line: &str) -> (d: i128)
    ensures
        d as int == brace_delta_spec(line@),
{
    let cs = chars_of(line);
    let opens = count_in(&cs, '{');
    let closes = count_in(&cs, '}');
    opens as i128 - closes as i128
}

/// A Rust module declaration that opens its body on this line.
pub open spec fn mod_decl_with_body(line: Seq<char>) -> bool {
    let t = trim_start_spec(line);
    (seq_starts_with(t, "mod "@) || seq_starts_with(t, "pub mod "@) || seq_starts_with(t, "pub(crate) mod "@)
        || seq_starts_with(t, "pub(super) mod "@) || seq_starts_with(t, "pub(in "@)) && t.contains('{')
}

pub fn looks_like_rust_mod_decl_with_body(line: &str) -> (b: bool)
    ensures
        b == mod_decl_with_body(line@),
{
    let t = trim_start_str(line);
    let ts = t.as_str();
    let starts = str_starts_with(ts, "mod ") || str_starts_with(ts, "pub mod ") || str_starts_with(ts, "pub(crate) mod ")
        || str_starts_with(ts, "pub(super) mod ") || str_starts_with(ts, "pub(in ");
    if !starts {
        return false;
    }
    let cs = chars_of(ts);
    let mut i: usize = 0;
    while i < cs.len()
        invariant
            cs@ == t@,
            t@ == trim_start_spec(line@),
            starts == (seq_starts_with(t@, "mod "@) || seq_starts_with(t@, "pub mod "@) || seq_starts_with(t@, "pub(crate) mod "@)
                || seq_starts_with(t@, "pub(super) mod "@) || seq_starts_with(t@, "pub(in "@)),
            starts,
            i <= cs@.len(),
            forall|j: int| 0 <= j < i ==> cs@[j] != '{',
        decreases cs@.len() - i,
    {
        if cs[i] == '{' {
            proof {
                assert(t@[i as int] == '{');
                assert(t@.contains('{'));
            }
            return true;
        }
        i = i + 1;
    }
    false
}

pub open spec fn is_attr(line: Seq<char>) -> bool {
    seq_starts_with(trim_start_spec(line), "#["@)
}

pub open spec fn is_cfg_test(line: Seq<char>) -> bool {
    seq_starts_with(trim_start_spec(line), "#[cfg(test)]"@)
}

/// The first line from `j` on that is not an attribute.
pub open spec fn attrs_end(lines: Seq<Seq<char>>, j: int) -> int
    decreases lines.len() - j,
{
    if 0 <= j < lines.len() && is_attr(lines[j]) {
        attrs_end(lines, j + 1)
    } else {
        j
    }
}

/// Where a module body that is `depth` braces deep at line `k` ends.
pub open spec fn block_end(lines: Seq<Seq<char>>, k: int, depth: int) -> int
    decreases lines.len() - k,
{
    if 0 <= k < lines.len() && depth > 0 {
        block_end(lines, k + 1, depth + brace_delta_spec(lines[k]))
    } else {
        k
    }
}

/// Where the test-only part that starts at the `#[cfg(test)]` line `i` ends:
/// after its attributes and, when a module with a body follows, after that body.
pub open spec fn test_part_end(lines: Seq<Seq<char>>, i: int) -> int {
    let j = attrs_end(lines, i + 1);
    if j < lines.len() && mod_decl_with_body(lines[j]) {
        block_end(lines, j + 1, brace_delta_spec(lines[j]))
    } else {
        j
    }
}

proof fn lemma_attrs_end(lines: Seq<Seq<char>>, j: int)
    requires
        0 <= j <= lines.len(),
    ensures
        j <= attrs_end(lines, j) <= lines.len(),
    decreases lines.len() - j,
{
    if j < lines.len() && is_attr(lines[j]) {
        lemma_attrs_end(lines, j + 1);
    }
}

proof fn lemma_block_end(lines: Seq<Seq<char>>, k: int, depth: int)
    requires
        0 <= k <= lines.len(),
    ensures
        k <= block_end(lines, k, depth) <= lines.len(),
    decreases lines.len() - k,
{
    if k < lines.len() && depth > 0 {
        lemma_block_end(lines, k + 1, depth + brace_delta_spec(lines[k]));
    }
}

proof fn lemma_test_part_end(lines: Seq<Seq<char>>, i: int)
    requires
        0 <= i < lines.len(),
    ensures
        i < test_part_end(lines, i) <= lines.len(),
{
    lemma_attrs_end(lines, i + 1);
    let j = attrs_end(lines, i + 1);
    if j < lines.len() && mod_decl_with_body(lines[j]) {
        lemma_block_end(lines, j + 1, brace_delta_spec(lines[j]));
    }
}

/// The lines from `i` on with test-only parts blanked.
pub open spec fn blank_tests_from(lines: Seq<Seq<char>>, i: int) -> Seq<Seq<char>>
    decreases lines.len() - i,
{
    if i < 0 || i >= lines.len() {
        Seq::empty()
    } else if is_cfg_test(lines[i]) {
        let e = test_part_end(lines, i);
        if i < e <= lines.len() {
            Seq::new((e - i) as nat, |x: int| Seq::<char>::empty()) + blank_tests_from(lines, e)
        } else {
            Seq::empty()
        }
    } else {
        seq![lines[i]] + blank_tests_from(lines, i + 1)
    }
}

proof fn lemma_split_bounds(s: Seq<char>, sep: char)
    ensures
        split_on(s, sep).len() <= s.len() + 1,
        forall|k: int| 0 <= k < split_on(s, sep).len() ==> (#[trigger] split_on(s, sep)[k]).len() <= s.len(),
    decreases s.len(),
{
    if s.len() > 0 {
        lemma_split_bounds(s.drop_last(), sep);
        crate::csv::lemma_split_nonempty(s.drop_last(), sep);
    }
}

/// The source with every `#[cfg(test)]` part blanked line for line, so that
/// line numbers stay as they were.
pub open spec fn strip_spec(source: Seq<char>) -> Seq<char> {
    crate::plugins::join_spec(blank_tests_from(split_on(source, '\n'), 0), "\n"@)
}

fn line_is_cfg_test(line: &Vec<char>) -> (b: bool)
    ensures
        b == is_cfg_test(line@),
{
    let s = string_of(line.as_slice());
    let t = trim_start_str(s.as_str());
    str_starts_with(t.as_str(), "#[cfg(test)]")
}

fn line_is_attr(line: &Vec<char>) -> (b: bool)
    ensures
        b == is_attr(line@),
{
    let s = string_of(line.as_slice());
    let t = trim_start_str(s.as_str());
    str_starts_with(t.as_str(), "#[")
}

fn line_delta(line: &Vec<char>) -> (d: i128)
    ensures
        d as int == brace_delta_spec(line@),
        -(line@.len() as int) <= d <= line@.len(),
{
    proof {
        lemma_count_le(line@, '{');
        lemma_count_le(line@, '}');
    }
    let opens = count_in(line, '{');
    let closes = count_in(line, '}');
    opens as i128 - closes as i128
}

/// Blanks the Rust `#[cfg(test)]` parts of the source (see `strip_spec`).
pub fn strip_rust_cfg_test_modules(source: &str) -> (out: String)
    requires
        source@.len() < 0x7fff_ffff_ffff_ffff,
    ensures
        out@ == strip_spec(source@),
{
    let cs = chars_of(source);
    let ghost lines = split_on(source@, '\n');
    let pieces = crate::arch_layers::split_lines_of(&cs);
    proof {
        lemma_split_bounds(source@, '\n');
    }
    let n = pieces.len();
    let mut outs: Vec<String> = Vec::new();
    let mut i: usize = 0;
    proof {
        assert(blank_tests_from(lines, 0) =~= crate::csv::views(outs@) + blank_tests_from(lines, 0));
    }
    while i < n
        invariant
            n == pieces@.len(),
            n == lines.len(),
            lines == split_on(source@, '\n'),
            source@.len() < 0x7fff_ffff_ffff_ffff,
            n <= source@.len() + 1,
            forall|k: int| 0 <= k < n ==> (#[trigger] pieces@[k])@ == lines[k],
            forall|k: int| 0 <= k < n ==> (#[trigger] lines[k]).len() <= source@.len(),
            i <= n,
            crate::csv::views(outs@) + blank_tests_from(lines, i as int) == blank_tests_from(lines, 0),
        decreases n - i,
    {
        let line = &pieces[i];
        if !line_is_cfg_test(line) {
            let ghost before = crate::csv::views(outs@);
            outs.push(string_of(line.as_slice()));
            proof {
                assert(crate::csv::views(outs@) =~= before.push(lines[i as int]));
                assert(blank_tests_from(lines, i as int) == seq![lines[i as int]] + blank_tests_from(lines, i + 1));
                assert(before.push(lines[i as int]) + blank_tests_from(lines, i + 1) =~= before + (seq![lines[i as int]] + blank_tests_from(lines, i + 1)));
            }
            i = i + 1;
        } else {
            let mut j: usize = i + 1;
            while j < n && line_is_attr(&pieces[j])
                invariant
                    n == pieces@.len(),
                    n == lines.len(),
                    forall|k: int| 0 <= k < n ==> (#[trigger] pieces@[k])@ == lines[k],
                    i < j <= n,
                    attrs_end(lines, i + 1) == attrs_end(lines, j as int),
                decreases n - j,
            {
                j = j + 1;
            }
            let mut e: usize = j;
            if j < n && looks_like_rust_mod_decl_with_body(string_of(pieces[j].as_slice()).as_str()) {
                let mut depth: i128 = line_delta(&pieces[j]);
                let mut k: usize = j + 1;
                while k < n && depth > 0
                    invariant
                        n == pieces@.len(),
                        n == lines.len(),
                        n <= source@.len() + 1,
                        source@.len() < 0x7fff_ffff_ffff_ffff,
                        forall|x: int| 0 <= x < n ==> (#[trigger] pieces@[x])@ == lines[x],
                        forall|x: int| 0 <= x < n ==> (#[trigger] lines[x]).len() <= source@.len(),
                        j < k <= n,
                        j < n,
                        block_end(lines, j + 1, brace_delta_spec(lines[j as int])) == block_end(lines, k as int, depth as int),
                        -0x7fff_ffff_ffff_ffff <= depth <= (k - j) * 0x7fff_ffff_ffff_ffff,
                    decreases n - k,
                {
                    let d = line_delta(&pieces[k]);
                    proof {
                        assert(pieces@[k as int]@.len() <= source@.len());
                        assert((k - j) <= 0x8000_0000_0000_0000) by {
                            assert(k <= n);
                        }
                        assert((k - j + 1) * 0x7fff_ffff_ffff_ffff <= 0x8000_0000_0000_0001 * 0x7fff_ffff_ffff_ffff) by (nonlinear_arith)
                            requires k - j + 1 <= 0x8000_0000_0000_0001;
                    }
                    depth = depth + d;
                    k = k + 1;
                }
                e = k;
                proof {
                    assert(pieces@[j as int]@ == lines[j as int]);
                }
            }
            proof {
                lemma_test_part_end(lines, i as int);
                assert(e as int == test_part_end(lines, i as int));
            }
            let ghost before = crate::csv::views(outs@);
            let mut x: usize = i;
            while x < e
                invariant
                    i <= x <= e,
                    crate::csv::views(outs@) == before + Seq::new((x - i) as nat, |y: int| Seq::<char>::empty()),
                decreases e - x,
            {
                let ghost b2 = crate::csv::views(outs@);
                outs.push(String::new());
                proof {
                    let nb = Seq::new((x + 1 - i) as nat, |y: int| Seq::<char>::empty());
                    assert(crate::csv::views(outs@) =~= b2.push(Seq::<char>::empty()));
                    assert(crate::csv::views(outs@) =~= before + nb) by {
                        assert forall|y: int| 0 <= y < crate::csv::views(outs@).len() implies
                            #[trigger] crate::csv::views(outs@)[y] == (before + nb)[y] by {
                            if y < before.len() {
                                assert(b2[y] == before[y]);
                            }
                        }
                    }
                }
                x = x + 1;
            }
            proof {
                let blanks = Seq::new((e - i) as nat, |y: int| Seq::<char>::empty());
                assert(blank_tests_from(lines, i as int) == blanks + blank_tests_from(lines, e as int));
                assert(crate::csv::views(outs@) + blank_tests_from(lines, e as int) =~= before + (blanks + blank_tests_from(lines, e as int)));
            }
            i = e;
        }
    }
    proof {
        assert(blank_tests_from(lines, n as int) =~= Seq::<Seq<char>>::empty());
        assert(crate::csv::views(outs@) =~= blank_tests_from(lines, 0));
    }
    crate::plugins::join_strings(outs.as_slice(), "\n")
}

/// The line (from 1) of the byte at `offset`: one more than the line feeds
/// among the bytes before it.
pub open spec fn line_for_offset_spec(bytes: Seq<u8>, offset: int) -> nat
    decreases offset,
{
    if offset <= 0 || bytes.len() == 0 {
        1
    } else if offset > bytes.len() {
        line_for_offset_spec(bytes, bytes.len() as int)
    } else {
        line_for_offset_spec(bytes, offset - 1) + if bytes[offset - 1] == 10u8 { 1nat } else { 0nat }
    }
}

/// The line of `text` at byte `offset` (see `line_for_offset_spec`).
pub fn line_for_offset(text: &str, offset: usize) -> (n: u128)
    requires
        offset <= vstd::utf8::encode_utf8(text@).len(),
    ensures
        n == line_for_offset_spec(vstd::utf8::encode_utf8(text@), offset as int),
{
    let bytes = text.as_bytes();
    let mut n: u128 = 1;
    let mut i: usize = 0;
    while i < offset
        invariant
            bytes@ == vstd::utf8::encode_utf8(text@),
            offset <= bytes@.len(),
            i <= offset,
            n == line_for_offset_spec(bytes@, i as int),
            n <= i + 1,
        decreases offset - i,
    {
        if bytes[i] == 10u8 {
            n = n + 1;
        }
        i = i + 1;
    }
    n
}

/// The globs a check uses: its own, or the given defaults where it lists none.
pub open spec fn globs_or(globs: Seq<Seq<char>>, defaults: Seq<Seq<char>>) -> Seq<Seq<char>> {
    if globs.len() == 0 {
        defaults
    } else {
        globs
    }
}

/// The first glob from `i` on that does not parse.
pub open spec fn first_bad_glob(globs: Seq<Seq<char>>, i: int) -> Option<int>
    decreases globs.len() - i,
{
    if 0 <= i < globs.len() {
        if glob_new_error(globs[i]) is Some {
            Some(i)
        } else {
            first_bad_glob(globs, i + 1)
        }
    } else {
        None
    }
}

/// Building a glob set from `globs`: the first glob that does not parse, or
/// the set's own error, gives the error's message; else the set is built.
pub open spec fn globset_error(globs: Seq<Seq<char>>) -> Option<Seq<char>> {
    match first_bad_glob(globs, 0) {
        Some(i) => Some("bad glob "@ + debug_str(globs[i]) + ": "@ + glob_new_error(globs[i]).unwrap()),
        None => match globset_build_error(globs) {
            Some(e) => Some("failed to build globset: "@ + e),
            None => None,
        },
    }
}

/// A glob set built from `globs` (see `globset_error`).
pub fn build_globset(globs: &Vec<String>) -> (r: Result<CompiledGlobSet, String>)
    ensures
        match r {
            Ok(s) => globset_error(views(globs@)) is None && s.patterns_of() == views(globs@),
            Err(e) => globset_error(views(globs@)) == Some(e@),
        },
{
    let ghost gv = views(globs@);
    let mut parsed: Vec<crate::patterns::ParsedGlob> = Vec::new();
    let mut i: usize = 0;
    while i < globs.len()
        invariant
            gv == views(globs@),
            i <= gv.len(),
            parsed@.len() == i,
            forall|k: int| 0 <= k < i ==> (#[trigger] parsed@[k]).pattern_of() == gv[k],
            first_bad_glob(gv, 0) == first_bad_glob(gv, i as int),
        decreases gv.len() - i,
    {
        match crate::patterns::glob_new(globs[i].as_str()) {
            Ok(g) => {
                parsed.push(g);
            },
            Err(e) => {
                let a = concat("bad glob ", crate::text::debug_quoted(globs[i].as_str()).as_str());
                let b = concat(a.as_str(), ": ");
                return Err(concat(b.as_str(), e.as_str()));
            },
        }
        i = i + 1;
    }
    proof {
        assert(crate::patterns::glob_patterns(parsed@) =~= gv);
    }
    match crate::patterns::globset_build(&parsed) {
        Ok(set) => Ok(set),
        Err(e) => Err(concat("failed to build globset: ", e.as_str())),
    }
}

/// A compiled boundary rule: its id and message, and its regex.
pub struct CompiledRule {
    pub id: String,
    pub message: String,
    pub regex: CompiledRegex,
}

/// A rule as contracts see it: id, message, pattern.
pub open spec fn rule_view(r: CompiledRule) -> (Seq<char>, Seq<char>, Seq<char>) {
    (r.id@, r.message@, r.regex.pattern_of())
}

pub open spec fn rule_views(rules: Seq<CompiledRule>) -> Seq<(Seq<char>, Seq<char>, Seq<char>)> {
    rules.map_values(|c: CompiledRule| rule_view(c))
}

/// Compiling the rules from `i` on: each needs an id (trimmed) that is not
/// empty and a deny pattern (trimmed) that compiles; a rule without a message
/// says `boundary rule violation`.
pub open spec fn rules_from(rules: Seq<BoundaryRuleConfigV2>, i: int) -> Result<Seq<(Seq<char>, Seq<char>, Seq<char>)>, Seq<char>>
    decreases rules.len() - i,
{
    if 0 <= i < rules.len() {
        let id = trim_spec(rules[i].id@);
        let pattern = trim_spec(rules[i].deny_regex@);
        if id.len() == 0 {
            Err("boundary rule has empty id"@)
        } else {
            match regex_new_error(pattern) {
                Some(e) => Err("failed to compile boundary rule regex id="@ + id + " regex="@ + debug_str(
                    rules[i].deny_regex@,
                ) + ": "@ + e),
                None => match rules_from(rules, i + 1) {
                    Err(e) => Err(e),
                    Ok(rest) => Ok(seq![
                        (
                            id,
                            match rules[i].message {
                                Some(m) => m@,
                                None => "boundary rule violation"@,
                            },
                            pattern,
                        ),
                    ] + rest),
                },
            }
        }
    } else {
        Ok(Seq::empty())
    }
}

/// A rule whose id (trimmed) is not empty and whose pattern (trimmed) compiles.
pub open spec fn rule_ok(r: BoundaryRuleConfigV2) -> bool {
    trim_spec(r.id@).len() != 0 && regex_new_error(trim_spec(r.deny_regex@)) is None
}

/// The rules compiled (see `rules_from`).
pub fn compile_rules(rules: &Vec<BoundaryRuleConfigV2>) -> (r: Result<Vec<CompiledRule>, String>)
    ensures
        match r {
            Ok(v) => rules_from(rules@, 0) == Ok::<_, Seq<char>>(rule_views(v@)),
            Err(e) => rules_from(rules@, 0) == Err::<Seq<(Seq<char>, Seq<char>, Seq<char>)>, _>(e@),
        },
{
    let mut out: Vec<CompiledRule> = Vec::new();
    let mut i: usize = 0;
    while i < rules.len()
        invariant
            i <= rules@.len(),
            out@.len() == i,
            forall|k: int| 0 <= k < i ==> #[trigger] rule_view(out@[k]) == (
                trim_spec(rules@[k].id@),
                match rules@[k].message {
                    Some(m) => m@,
                    None => "boundary rule violation"@,
                },
                trim_spec(rules@[k].deny_regex@),
            ),
            forall|k: int| 0 <= k < i ==> #[trigger] rule_ok(rules@[k]),
        decreases rules@.len() - i,
    {
        let rule = &rules[i];
        let id = crate::text::trim_str(rule.id.as_str());
        if chars_of(id.as_str()).len() == 0 {
            proof {
                lemma_rules_prefix_ok(rules@, i as int);
            }
            return Err(String::from_str("boundary rule has empty id"));
        }
        let pattern = crate::text::trim_str(rule.deny_regex.as_str());
        match crate::patterns::regex_new(pattern.as_str()) {
            Ok(re) => {
                let message = match &rule.message {
                    Some(m) => m.clone(),
                    None => String::from_str("boundary rule violation"),
                };
                out.push(CompiledRule { id, message, regex: re });
            },
            Err(e) => {
                let a = concat("failed to compile boundary rule regex id=", id.as_str());
                let b = concat(a.as_str(), " regex=");
                let c = concat(b.as_str(), crate::text::debug_quoted(rule.deny_regex.as_str()).as_str());
                let d = concat(c.as_str(), ": ");
                proof {
                    lemma_rules_prefix_ok(rules@, i as int);
                }
                return Err(concat(d.as_str(), e.as_str()));
            },
        }
        i = i + 1;
    }
    proof {
        lemma_rules_all_ok(rules@, 0, rule_views(out@));
        assert(rule_views(out@).skip(0) =~= rule_views(out@));
    }
    Ok(out)
}

/// Where the rules before `i` compile, compiling from 0 fails or succeeds as
/// compiling from `i` does, with those rules in front.
proof fn lemma_rules_prefix_ok(rules: Seq<BoundaryRuleConfigV2>, i: int)
    requires
        0 <= i <= rules.len(),
        forall|k: int| 0 <= k < i ==> #[trigger] rule_ok(rules[k]),
    ensures
        rules_from(rules, i) is Err ==> rules_from(rules, 0) == rules_from(rules, i),
    decreases i,
{
    if i > 0 {
        assert(rule_ok(rules[i - 1]));
        lemma_rules_prefix_ok_step(rules, i - 1);
        lemma_rules_prefix_ok(rules, i - 1);
    }
}

proof fn lemma_rules_prefix_ok_step(rules: Seq<BoundaryRuleConfigV2>, j: int)
    requires
        0 <= j < rules.len(),
        trim_spec(rules[j].id@).len() != 0,
        regex_new_error(trim_spec(rules[j].deny_regex@)) is None,
    ensures
        rules_from(rules, j + 1) is Err ==> rules_from(rules, j) == rules_from(rules, j + 1),
{
}

proof fn lemma_rules_all_ok(rules: Seq<BoundaryRuleConfigV2>, i: int, views: Seq<(Seq<char>, Seq<char>, Seq<char>)>)
    requires
        0 <= i <= rules.len(),
        views.len() == rules.len(),
        forall|k: int| 0 <= k < rules.len() ==> #[trigger] rule_ok(rules[k]),
        forall|k: int| 0 <= k < rules.len() ==> #[trigger] views[k] == (
            trim_spec(rules[k].id@),
            match rules[k].message {
                Some(m) => m@,
                None => "boundary rule violation"@,
            },
            trim_spec(rules[k].deny_regex@),
        ),
    ensures
        rules_from(rules, i) == Ok::<_, Seq<char>>(views.skip(i)),
    decreases rules.len() - i,
{
    if i < rules.len() {
        assert(rule_ok(rules[i]));
        lemma_rules_all_ok(rules, i + 1, views);
        assert(seq![views[i]] + views.skip(i + 1) =~= views.skip(i));
    } else {
        assert(views.skip(i) =~= Seq::<(Seq<char>, Seq<char>, Seq<char>)>::empty());
    }
}

/// The outcome of the boundary check.
pub struct BoundaryCheckResult {
    pub violations: Vec<Violation>,
    pub files_scanned: usize,
    pub rules_checked: usize,
}

/// The include globs: the check's own, or `crates/**/*.rs`.
pub open spec fn boundary_includes(cfg: BoundaryCheckConfigV2) -> Seq<Seq<char>> {
    globs_or(views(cfg.include_globs@), seq!["crates/**/*.rs"@])
}

/// The exclude globs: the check's own, or `**/target/**` and `.git/**`.
pub open spec fn boundary_excludes(cfg: BoundaryCheckConfigV2) -> Seq<Seq<char>> {
    globs_or(views(cfg.exclude_globs@), seq!["**/target/**"@, ".git/**"@])
}

/// A file is scanned when no exclude glob and some include glob matches it.
pub open spec fn boundary_selects(includes: Seq<Seq<char>>, excludes: Seq<Seq<char>>, rel: Seq<char>) -> bool {
    !any_glob_matches(excludes, rel) && any_glob_matches(includes, rel)
}

/// The text a rule is applied to: a Rust file's text without its test parts
/// where the check asks for it.
pub open spec fn scan_text(strip: bool, rel: Seq<char>, source: Seq<char>) -> Seq<char> {
    if strip && seq_ends_with(rel, ".rs"@) {
        strip_spec(source)
    } else {
        source
    }
}

/// One violation for each rule, in order, whose pattern matches the text: at
/// the line of its first match, with the matched text.
pub open spec fn rule_hits(rules: Seq<(Seq<char>, Seq<char>, Seq<char>)>, text: Seq<char>, rel: Seq<char>) -> Seq<ViolationView>
    decreases rules.len(),
{
    if rules.len() == 0 {
        Seq::empty()
    } else {
        let r = rules.last();
        rule_hits(rules.drop_last(), text, rel) + match regex_first_match(r.2, text) {
            Some(m) => seq![
                ViolationView {
                    code: "boundary.rule_violation"@,
                    message: r.1 + " (rule_id="@ + r.0 + ")"@,
                    path: Some(rel),
                    details: Some(seq![
                        ("rule_id"@, DetailValueView::Str(r.0)),
                        ("line"@, DetailValueView::UWide(line_for_offset_spec(vstd::utf8::encode_utf8(text), m.0 as int) as u128)),
                        ("matched"@, DetailValueView::Str(m.1)),
                    ]),
                    tier: ViolationTier::Blocking,
                },
            ],
            None => Seq::empty(),
        }
    }
}

/// The files scanned and the violations found, over the files in order.
pub open spec fn boundary_scan(
    files: Seq<(String, Result<String, String>)>,
    includes: Seq<Seq<char>>,
    excludes: Seq<Seq<char>>,
    rules: Seq<(Seq<char>, Seq<char>, Seq<char>)>,
    strip: bool,
) -> (nat, Seq<ViolationView>)
    decreases files.len(),
{
    if files.len() == 0 {
        (0, Seq::empty())
    } else {
        let prev = boundary_scan(files.drop_last(), includes, excludes, rules, strip);
        let f = files.last();
        if boundary_selects(includes, excludes, f.0@) {
            (
                prev.0 + 1,
                prev.1 + match f.1 {
                    Err(e) => seq![
                        ViolationView {
                            code: "boundary.read_failed"@,
                            message: "failed to read file for boundary check: "@ + e@,
                            path: Some(f.0@),
                            details: None,
                            tier: ViolationTier::Blocking,
                        },
                    ],
                    Ok(source) => rule_hits(rules, scan_text(strip, f.0@, source@), f.0@),
                },
            )
        } else {
            prev
        }
    }
}

/// The boundary check's result: the error of building the include or exclude
/// globs or of compiling the rules, in that order; else the number of files
/// scanned, of rules, and the violations.
pub open spec fn boundary_spec(cfg: BoundaryCheckConfigV2, files: Seq<(String, Result<String, String>)>) -> Result<
    (nat, nat, Seq<ViolationView>),
    Seq<char>,
> {
    let inc = boundary_includes(cfg);
    let exc = boundary_excludes(cfg);
    match globset_error(inc) {
        Some(e) => Err(e),
        None => match globset_error(exc) {
            Some(e) => Err(e),
            None => match rules_from(cfg.rules@, 0) {
                Err(e) => Err(e),
                Ok(rules) => {
                    let scan = boundary_scan(files, inc, exc, rules, cfg.strip_rust_cfg_test_blocks);
                    Ok((scan.0, rules.len(), scan.1))
                },
            },
        },
    }
}

fn rule_hits_exec(rules: &Vec<CompiledRule>, text: &str, rel: &String, out: &mut Vec<Violation>)
    ensures
        violation_views(final(out)@) == violation_views(old(out)@) + rule_hits(
            rule_views(rules@),
            text@,
            rel@,
        ),
{
    let ghost rv = rule_views(rules@);
    let ghost start = violation_views(out@);
    let mut i: usize = 0;
    proof {
        assert(rv.take(0) =~= Seq::<(Seq<char>, Seq<char>, Seq<char>)>::empty());
        assert(violation_views(out@) =~= start + rule_hits(rv.take(0), text@, rel@));
    }
    while i < rules.len()
        invariant
            rv == rule_views(rules@),
            i <= rv.len(),
            violation_views(out@) == start + rule_hits(rv.take(i as int), text@, rel@),
        decreases rv.len() - i,
    {
        proof {
            assert(rv.take(i + 1).drop_last() =~= rv.take(i as int));
            assert(rv.take(i + 1).last() == rule_view(rules@[i as int]));
        }
        let rule = &rules[i];
        let ghost before = violation_views(out@);
        match crate::patterns::regex_find(&rule.regex, text) {
            Some(m) => {
                let (start_at, matched) = m;
                let line = line_for_offset(text, start_at);
                let a = concat(rule.message.as_str(), " (rule_id=");
                let b = concat(a.as_str(), rule.id.as_str());
                let message = concat(b.as_str(), ")");
                let mut fields: Vec<(String, DetailValue)> = Vec::new();
                fields.push((String::from_str("rule_id"), DetailValue::Str(rule.id.clone())));
                fields.push((String::from_str("line"), DetailValue::UWide(line)));
                fields.push((String::from_str("matched"), DetailValue::Str(matched)));
                let v = Violation::blocking(
                    String::from_str("boundary.rule_violation"),
                    message,
                    Some(rel.clone()),
                    Some(Details { fields }),
                );
                out.push(v);
                proof {
                    assert(crate::api::details_view(v.details).unwrap() =~= seq![
                        ("rule_id"@, DetailValueView::Str(rule.id@)),
                        ("line"@, DetailValueView::UWide(line)),
                        ("matched"@, DetailValueView::Str(m.1@)),
                    ]);
                    assert(violation_views(out@) =~= before + rule_hits(rv.take(i + 1), text@, rel@).subrange(
                        rule_hits(rv.take(i as int), text@, rel@).len() as int,
                        rule_hits(rv.take(i + 1), text@, rel@).len() as int,
                    ));
                    assert(violation_views(out@) =~= start + rule_hits(rv.take(i + 1), text@, rel@));
                }
            },
            None => {
                proof {
                    assert(rule_hits(rv.take(i + 1), text@, rel@) =~= rule_hits(rv.take(i as int), text@, rel@));
                }
            },
        }
        i = i + 1;
    }
    proof {
        assert(rv.take(rv.len() as int) =~= rv);
    }
}

pub(crate) fn default_globs(globs: &Vec<String>, first: &str, second: Option<&str>) -> (out: Vec<String>)
    ensures
        views(out@) == globs_or(
            views(globs@),
            match second {
                Some(s) => seq![first@, s@],
                None => seq![first@],
            },
        ),
{
    if globs.len() == 0 {
        let mut out: Vec<String> = Vec::new();
        out.push(String::from_str(first));
        match second {
            Some(s) => {
                out.push(String::from_str(s));
                proof {
                    assert(views(out@) =~= seq![first@, s@]);
                }
            },
            None => {
                proof {
                    assert(views(out@) =~= seq![first@]);
                }
            },
        }
        out
    } else {
        crate::csv::copy_strings(globs.as_slice())
    }
}

/// The boundary check over the files of the repository walk, each with its
/// text or the error of reading it (see `boundary_spec`).
pub fn run_boundary_check(cfg: &BoundaryCheckConfigV2, files: &Vec<(String, Result<String, String>)>) -> (r: Result<
    BoundaryCheckResult,
    String,
>)
    requires
        crate::complexity::texts_fit(files@),
    ensures
        match r {
            Ok(res) => boundary_spec(*cfg, files@) == Ok::<_, Seq<char>>(
                (res.files_scanned as nat, res.rules_checked as nat, violation_views(res.violations@)),
            ),
            Err(e) => boundary_spec(*cfg, files@) == Err::<(nat, nat, Seq<ViolationView>), _>(e@),
        },
{
    let include_globs = default_globs(&cfg.include_globs, "crates/**/*.rs", None);
    let exclude_globs = default_globs(&cfg.exclude_globs, "**/target/**", Some(".git/**"));
    let includes = match build_globset(&include_globs) {
        Ok(s) => s,
        Err(e) => return Err(e),
    };
    let excludes = match build_globset(&exclude_globs) {
        Ok(s) => s,
        Err(e) => return Err(e),
    };
    let rules = match compile_rules(&cfg.rules) {
        Ok(v) => v,
        Err(e) => return Err(e),
    };
    let ghost inc = boundary_includes(*cfg);
    let ghost exc = boundary_excludes(*cfg);
    let ghost rv = rule_views(rules@);
    let mut violations: Vec<Violation> = Vec::new();
    let mut files_scanned: usize = 0;
    let mut i: usize = 0;
    proof {
        assert(files@.take(0) =~= Seq::<(String, Result<String, String>)>::empty());
    }
    while i < files.len()
        invariant
            crate::complexity::texts_fit(files@),
            rv == rule_views(rules@),
            includes.patterns_of() == inc,
            excludes.patterns_of() == exc,
            i <= files@.len(),
            files_scanned <= i,
            (files_scanned as nat, violation_views(violations@)) == boundary_scan(
                files@.take(i as int),
                inc,
                exc,
                rv,
                cfg.strip_rust_cfg_test_blocks,
            ),
        decreases files@.len() - i,
    {
        proof {
            assert(files@.take(i + 1).drop_last() =~= files@.take(i as int));
            assert(files@.take(i + 1).last() == files@[i as int]);
        }
        let rel = &files[i].0;
        let ghost prev = boundary_scan(files@.take(i as int), inc, exc, rv, cfg.strip_rust_cfg_test_blocks);
        let ghost next = boundary_scan(files@.take(i + 1), inc, exc, rv, cfg.strip_rust_cfg_test_blocks);
        if !crate::patterns::globset_matches(&excludes, rel.as_str()) && crate::patterns::globset_matches(
            &includes,
            rel.as_str(),
        ) {
            proof {
                assert(boundary_selects(inc, exc, rel@));
            }
            files_scanned = files_scanned + 1;
            let ghost before = violation_views(violations@);
            match &files[i].1 {
                Err(e) => {
                    let m = concat("failed to read file for boundary check: ", e.as_str());
                    violations.push(Violation::blocking(String::from_str("boundary.read_failed"), m, Some(rel.clone()), None));
                    proof {
                        let v = seq![
                            ViolationView {
                                code: "boundary.read_failed"@,
                                message: "failed to read file for boundary check: "@ + e@,
                                path: Some(rel@),
                                details: None,
                                tier: ViolationTier::Blocking,
                            },
                        ];
                        assert(violation_views(violations@) =~= before + v);
                        assert(files@[i as int].1 matches Err(x) && x == *e);
                        assert(next.1 == prev.1 + v);
                    }
                },
                Ok(source) => {
                    proof {
                        assert(files@[i as int].1 matches Ok(x) && x == *source);
                        assert(next.1 == prev.1 + rule_hits(rv, scan_text(cfg.strip_rust_cfg_test_blocks, rel@, source@), rel@));
                    }
                    if cfg.strip_rust_cfg_test_blocks && crate::text::str_ends_with(rel.as_str(), ".rs") {
                        let stripped = strip_rust_cfg_test_modules(source.as_str());
                        rule_hits_exec(&rules, stripped.as_str(), rel, &mut violations);
                        proof {
                            assert(stripped@ == scan_text(cfg.strip_rust_cfg_test_blocks, rel@, source@));
                            assert(violation_views(violations@) == before + rule_hits(rv, stripped@, rel@));
                            assert(violation_views(violations@) == next.1);
                        }
                    } else {
                        rule_hits_exec(&rules, source.as_str(), rel, &mut violations);
                        proof {
                            assert(source@ == scan_text(cfg.strip_rust_cfg_test_blocks, rel@, source@));
                            assert(violation_views(violations@) == next.1);
                        }
                    }
                },
            }
            proof {
                assert(files_scanned as nat == next.0);
                assert(violation_views(violations@) == next.1);
            }
        } else {
            proof {
                assert(!boundary_selects(inc, exc, rel@));
                assert(next == prev);
            }
        }
        i = i + 1;
    }
    proof {
        assert(files@.take(files@.len() as int) =~= files@);
    }
    Ok(BoundaryCheckResult { violations, files_scanned, rules_checked: rules.len() })
}

} // verus!
