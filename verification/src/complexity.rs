//! The complexity budget: functions found by their first line, measured by
//! length, cyclomatic and cognitive complexity, and reported where a measure
//! exceeds its limit.

use crate::api::{DetailValue, DetailValueView, Details, Violation, ViolationTier, ViolationView, violation_view, violation_views};
use crate::boundary::{count_char, count_in, lemma_count_le};
use crate::code_blocks::{
    SourceKind, brace_block_end, brace_block_end_exec, char_lines, char_views, complexity_fn_start, complexity_symbol,
    count_matches, count_matches_in, has_sub, has_sub_exec, is_fn_start, lemma_brace_end_from, lemma_py_end_from,
    lemma_weight_std_lines, lemma_weight_subrange, lines_of, parse_symbol, py_block_end, py_block_end_exec,
    source_kind, source_kind_of, std_lines, weight,
};
use crate::checks::first_occurrence;
use crate::config::ComplexityBudgetCheckConfigV2;
use crate::csv::views;
use crate::text::{chars_of, concat, decimal_spec, lead_ws, seq_starts_with, string_of, trim_spec, u128_to_string, u64_to_string};
use vstd::prelude::*;
use vstd::string::*;

verus! {

/// A function found in a file: where it starts, its name and its lines.
pub struct FnBlock {
    pub rel_path: String,
    pub start_line: usize,
    pub symbol: String,
    pub lines: Vec<String>,
}

/// A function block as contracts see it.
pub struct FnBlockView {
    pub rel_path: Seq<char>,
    pub start_line: int,
    pub symbol: Seq<char>,
    pub lines: Seq<Seq<char>>,
}

pub open spec fn fn_block_view(b: FnBlock) -> FnBlockView {
    FnBlockView { rel_path: b.rel_path@, start_line: b.start_line as int, symbol: b.symbol@, lines: views(b.lines@) }
}

pub open spec fn fn_block_views(v: Seq<FnBlock>) -> Seq<FnBlockView> {
    v.map_values(|b: FnBlock| fn_block_view(b))
}

/// Where the function whose first line is `i` ends: by indentation in Python,
/// by braces elsewhere.
pub open spec fn block_end(kind: SourceKind, lines: Seq<Seq<char>>, i: int) -> int {
    if kind == SourceKind::Python {
        py_block_end(lines, i)
    } else {
        brace_block_end(lines, i)
    }
}

/// The functions of a file from line `i` on: at each line that starts one, the
/// block up to its end, and the scan goes on after the block.
pub open spec fn complexity_blocks(rel: Seq<char>, lines: Seq<Seq<char>>, i: int) -> Seq<FnBlockView>
    decreases lines.len() - i,
{
    if 0 <= i < lines.len() {
        let kind = source_kind(rel);
        if complexity_fn_start(kind, lines[i]) {
            let e = block_end(kind, lines, i);
            if i < e <= lines.len() {
                seq![
                    FnBlockView {
                        rel_path: rel,
                        start_line: i + 1,
                        symbol: complexity_symbol(lines[i]),
                        lines: lines.subrange(i, e),
                    },
                ] + complexity_blocks(rel, lines, e)
            } else {
                Seq::empty()
            }
        } else {
            complexity_blocks(rel, lines, i + 1)
        }
    } else {
        Seq::empty()
    }
}

proof fn lemma_block_end(kind: SourceKind, lines: Seq<Seq<char>>, i: int)
    requires
        0 <= i < lines.len(),
    ensures
        i < block_end(kind, lines, i) <= lines.len(),
{
    if kind == SourceKind::Python {
        lemma_py_end_from(lines, lead_ws(lines[i]), i + 1);
    } else {
        lemma_brace_end_from(lines, i, 0, false);
    }
}

proof fn lemma_blocks_weight(rel: Seq<char>, lines: Seq<Seq<char>>, i: int)
    requires
        0 <= i <= lines.len(),
    ensures
        forall|k: int| 0 <= k < complexity_blocks(rel, lines, i).len()
            ==> weight((#[trigger] complexity_blocks(rel, lines, i)[k]).lines) <= weight(lines),
    decreases lines.len() - i,
{
    if i < lines.len() {
        let kind = source_kind(rel);
        if complexity_fn_start(kind, lines[i]) {
            lemma_block_end(kind, lines, i);
            let e = block_end(kind, lines, i);
            lemma_blocks_weight(rel, lines, e);
            lemma_weight_subrange(lines, i, e);
            let rest = complexity_blocks(rel, lines, e);
            assert forall|k: int| 0 <= k < complexity_blocks(rel, lines, i).len()
                implies weight((#[trigger] complexity_blocks(rel, lines, i)[k]).lines) <= weight(lines) by {
                if k > 0 {
                    assert(complexity_blocks(rel, lines, i)[k] == rest[k - 1]);
                }
            }
        } else {
            lemma_blocks_weight(rel, lines, i + 1);
            assert(complexity_blocks(rel, lines, i) == complexity_blocks(rel, lines, i + 1));
        }
    } else {
        assert(complexity_blocks(rel, lines, i).len() == 0);
    }
}

fn copy_lines(lines: &Vec<String>, from: usize, to: usize) -> (out: Vec<String>)
    requires
        from <= to <= lines@.len(),
    ensures
        views(out@) == views(lines@).subrange(from as int, to as int),
{
    let mut out: Vec<String> = Vec::new();
    let mut k: usize = from;
    while k < to
        invariant
            from <= k <= to <= lines@.len(),
            out@ == lines@.subrange(from as int, k as int),
        decreases to - k,
    {
        out.push(lines[k].clone());
        proof {
            assert(out@ =~= lines@.subrange(from as int, k + 1));
        }
        k = k + 1;
    }
    proof {
        assert(views(out@) =~= views(lines@).subrange(from as int, to as int));
    }
    out
}

/// The functions of the file `rel` with text `raw` (see `complexity_blocks`).
pub fn extract_functions(rel: &str, raw: &str) -> (out: Vec<FnBlock>)
    requires
        raw@.len() < 0x7fff_ffff_ffff_ffff,
    ensures
        fn_block_views(out@) == complexity_blocks(rel@, std_lines(raw@), 0),
{
    let kind = source_kind_of(rel);
    let strs = lines_of(raw);
    let lines = char_lines(&strs);
    let ghost ls = std_lines(raw@);
    proof {
        lemma_weight_std_lines(raw@);
        assert(char_views(lines@) =~= ls);
    }
    let n = lines.len();
    let mut out: Vec<FnBlock> = Vec::new();
    let mut i: usize = 0;
    proof {
        assert(complexity_blocks(rel@, ls, 0) =~= fn_block_views(out@) + complexity_blocks(rel@, ls, 0));
    }
    while i < n
        invariant
            kind == source_kind(rel@),
            ls == std_lines(raw@),
            views(strs@) == ls,
            char_views(lines@) == ls,
            n == ls.len(),
            weight(ls) <= 0x7fff_ffff_ffff_ffff,
            i <= n,
            fn_block_views(out@) + complexity_blocks(rel@, ls, i as int) == complexity_blocks(rel@, ls, 0),
        decreases n - i,
    {
        proof {
            assert(lines@[i as int]@ == ls[i as int]);
        }
        if !is_fn_start(kind, &lines[i]) {
            i = i + 1;
        } else {
            let e = if kind == SourceKind::Python {
                py_block_end_exec(&lines, i)
            } else {
                brace_block_end_exec(&lines, i)
            };
            let symbol = parse_symbol(strs[i].as_str());
            let block = FnBlock {
                rel_path: String::from_str(rel),
                start_line: i + 1,
                symbol,
                lines: copy_lines(&strs, i, e),
            };
            let ghost before = fn_block_views(out@);
            out.push(block);
            proof {
                assert(strs@[i as int]@ == ls[i as int]);
                let v = FnBlockView {
                    rel_path: rel@,
                    start_line: i + 1,
                    symbol: complexity_symbol(ls[i as int]),
                    lines: ls.subrange(i as int, e as int),
                };
                assert(fn_block_views(out@) =~= before.push(v));
                assert(complexity_blocks(rel@, ls, i as int) == seq![v] + complexity_blocks(rel@, ls, e as int));
                assert(before.push(v) + complexity_blocks(rel@, ls, e as int) =~= before + (seq![v]
                    + complexity_blocks(rel@, ls, e as int)));
            }
            i = e;
        }
    }
    proof {
        assert(complexity_blocks(rel@, ls, n as int) =~= Seq::<FnBlockView>::empty());
        assert(fn_block_views(out@) =~= complexity_blocks(rel@, ls, 0));
    }
    out
}

/// A line with one space added on each side.
pub open spec fn padded(t: Seq<char>) -> Seq<char> {
    seq![' '] + t + seq![' ']
}

pub open spec fn hit(b: bool) -> nat {
    if b { 1 } else { 0 }
}

/// How many of the branch words ` if `, ` else if `, ` for `, ` while `,
/// ` match `, ` case ` occur in the padded line.
pub open spec fn branch_words(t: Seq<char>) -> nat {
    let p = padded(t);
    hit(has_sub(p, " if "@)) + hit(has_sub(p, " else if "@)) + hit(has_sub(p, " for "@)) + hit(has_sub(p, " while "@))
        + hit(has_sub(p, " match "@)) + hit(has_sub(p, " case "@))
}

/// What a line adds to the cyclomatic complexity: its branch words and its
/// `&&`, `||` and `?` operators, all on the trimmed line.
pub open spec fn cyclomatic_line(line: Seq<char>) -> nat {
    let t = trim_spec(line);
    branch_words(t) + count_matches(t, "&&"@, 0) + count_matches(t, "||"@, 0) + count_matches(t, "?"@, 0)
}

pub open spec fn cyclomatic_sum(lines: Seq<Seq<char>>) -> nat
    decreases lines.len(),
{
    if lines.len() == 0 {
        0
    } else {
        cyclomatic_sum(lines.drop_last()) + cyclomatic_line(lines.last())
    }
}

/// The cyclomatic complexity of a function's lines: one more than what its
/// lines add.
pub open spec fn cyclomatic_spec(lines: Seq<Seq<char>>) -> nat {
    1 + cyclomatic_sum(lines)
}

fn hit_exec(b: bool) -> (n: u128)
    ensures
        n == hit(b),
{
    if b { 1 } else { 0 }
}

fn cyclomatic_line_exec(line: &String) -> (n: u128)
    ensures
        n == cyclomatic_line(line@),
        n <= 6 + 3 * line@.len(),
{
    let cs = chars_of(line.as_str());
    let t = crate::text::trim_chars(cs.as_slice());
    let mut p: Vec<char> = Vec::new();
    p.push(' ');
    let mut k: usize = 0;
    while k < t.len()
        invariant
            k <= t@.len(),
            p@ == seq![' '] + t@.take(k as int),
        decreases t@.len() - k,
    {
        p.push(t[k]);
        k = k + 1;
        assert(p@ =~= seq![' '] + t@.take(k as int));
    }
    p.push(' ');
    proof {
        assert(t@.take(t@.len() as int) =~= t@);
        assert(p@ =~= padded(t@));
        reveal_strlit("&&");
        reveal_strlit("||");
        reveal_strlit("?");
    }
    let words = hit_exec(has_sub_exec(&p, " if ")) + hit_exec(has_sub_exec(&p, " else if ")) + hit_exec(
        has_sub_exec(&p, " for "),
    ) + hit_exec(has_sub_exec(&p, " while ")) + hit_exec(has_sub_exec(&p, " match ")) + hit_exec(
        has_sub_exec(&p, " case "),
    );
    let a = count_matches_in(&t, "&&");
    let o = count_matches_in(&t, "||");
    let q = count_matches_in(&t, "?");
    words + a as u128 + o as u128 + q as u128
}

/// The cyclomatic complexity of a function's lines (see `cyclomatic_spec`).
pub fn cyclomatic(lines: &Vec<String>) -> (n: u128)
    requires
        weight(views(lines@)) <= 0x7fff_ffff_ffff_ffff,
    ensures
        n == cyclomatic_spec(views(lines@)),
{
    let ghost ls = views(lines@);
    let mut count: u128 = 1;
    let mut i: usize = 0;
    proof {
        assert(ls.take(0) =~= Seq::<Seq<char>>::empty());
    }
    while i < lines.len()
        invariant
            ls == views(lines@),
            weight(ls) <= 0x7fff_ffff_ffff_ffff,
            i <= ls.len(),
            count == 1 + cyclomatic_sum(ls.take(i as int)),
            count <= 1 + 6 * weight(ls.take(i as int)),
        decreases ls.len() - i,
    {
        proof {
            assert(ls.take(i + 1).drop_last() =~= ls.take(i as int));
            assert(ls.take(i + 1).last() == lines@[i as int]@);
            lemma_weight_subrange(ls, 0, i + 1);
            assert(ls.subrange(0, i + 1) =~= ls.take(i + 1));
        }
        let c = cyclomatic_line_exec(&lines[i]);
        count = count + c;
        i = i + 1;
    }
    proof {
        assert(ls.take(ls.len() as int) =~= ls);
    }
    count
}

/// Whether a trimmed line is a branch for the cognitive measure: it starts
/// with one of the words or holds it after a space.
pub open spec fn cognitive_branch(t: Seq<char>) -> bool {
    seq_starts_with(t, "if "@) || has_sub(t, " if "@) || seq_starts_with(t, "for "@) || has_sub(t, " for "@)
        || seq_starts_with(t, "while "@) || has_sub(t, " while "@) || seq_starts_with(t, "match "@) || has_sub(t, " match "@) || seq_starts_with(t, "else if "@) || has_sub(t, " else if "@) || seq_starts_with(t, "case "@) || has_sub(
        t,
        " case "@,
    )
}

/// One line's step of the cognitive measure from (score, depth): blank lines
/// change nothing; outside Python the line's `{` deepen first; a branch line
/// scores one more than the depth; then `}` lessen the depth (not below zero),
/// or in Python the depth becomes the indentation in steps of four.
pub open spec fn cognitive_step(st: (nat, nat), line: Seq<char>, py: bool) -> (nat, nat) {
    let t = trim_spec(line);
    if t.len() == 0 {
        st
    } else {
        let d1: nat = if py { st.1 } else { st.1 + count_char(line, '{') };
        let score: nat = if cognitive_branch(t) { st.0 + 1 + d1 } else { st.0 };
        let d2: nat = if py {
            lead_ws(line) / 4
        } else if d1 >= count_char(line, '}') {
            (d1 - count_char(line, '}')) as nat
        } else {
            0
        };
        (score, d2)
    }
}

pub open spec fn cognitive_state(lines: Seq<Seq<char>>, py: bool) -> (nat, nat)
    decreases lines.len(),
{
    if lines.len() == 0 {
        (0, 0)
    } else {
        cognitive_step(cognitive_state(lines.drop_last(), py), lines.last(), py)
    }
}

/// The cognitive complexity of a function's lines: the final score, at least one.
pub open spec fn cognitive_spec(lines: Seq<Seq<char>>, py: bool) -> nat {
    let s = cognitive_state(lines, py).0;
    if s < 1 { 1 } else { s }
}

fn cognitive_branch_exec(t: &Vec<char>) -> (b: bool)
    ensures
        b == cognitive_branch(t@),
{
    let s = string_of(t.as_slice());
    let ts = s.as_str();
    crate::text::str_starts_with(ts, "if ") || has_sub_exec(t, " if ") || crate::text::str_starts_with(ts, "for ")
        || has_sub_exec(t, " for ") || crate::text::str_starts_with(ts, "while ") || has_sub_exec(t, " while ")
        || crate::text::str_starts_with(ts, "match ") || has_sub_exec(t, " match ") || crate::text::str_starts_with(
        ts,
        "else if ",
    ) || has_sub_exec(t, " else if ") || crate::text::str_starts_with(ts, "case ") || has_sub_exec(t, " case ")
}

/// The cognitive complexity of a function's lines (see `cognitive_spec`).
pub fn cognitive(lines: &Vec<String>, py: bool) -> (n: u128)
    requires
        weight(views(lines@)) <= 0x7fff_ffff_ffff_ffff,
    ensures
        n == cognitive_spec(views(lines@), py),
{
    let ghost ls = views(lines@);
    let mut score: u128 = 0;
    let mut depth: u128 = 0;
    let mut i: usize = 0;
    proof {
        assert(ls.take(0) =~= Seq::<Seq<char>>::empty());
    }
    while i < lines.len()
        invariant
            ls == views(lines@),
            weight(ls) <= 0x7fff_ffff_ffff_ffff,
            i <= ls.len(),
            (score as nat, depth as nat) == cognitive_state(ls.take(i as int), py),
            depth <= weight(ls.take(i as int)),
            score <= weight(ls.take(i as int)) * (weight(ls.take(i as int)) + 1),
        decreases ls.len() - i,
    {
        let ghost w0 = weight(ls.take(i as int));
        let ghost w1 = weight(ls.take(i + 1));
        proof {
            assert(ls.take(i + 1).drop_last() =~= ls.take(i as int));
            assert(ls.take(i + 1).last() == lines@[i as int]@);
            lemma_weight_subrange(ls, 0, i + 1);
            assert(ls.subrange(0, i + 1) =~= ls.take(i + 1));
            assert(w1 == w0 + lines@[i as int]@.len() + 1);
            assert(w1 * (w1 + 1) <= 0x8000_0000_0000_0000 * 0x8000_0000_0000_0001) by (nonlinear_arith)
                requires w1 <= 0x8000_0000_0000_0000;
            assert(w0 * (w0 + 1) + 1 + w1 <= w1 * (w1 + 1)) by (nonlinear_arith)
                requires w0 + 1 <= w1;
        }
        let cs = chars_of(lines[i].as_str());
        let t = crate::text::trim_chars(cs.as_slice());
        if t.len() != 0 {
            proof {
                lemma_count_le(cs@, '{');
                lemma_count_le(cs@, '}');
            }
            let opens = count_in(&cs, '{');
            let closes = count_in(&cs, '}');
            let d1: u128 = if py { depth } else { depth + opens as u128 };
            if cognitive_branch_exec(&t) {
                score = score + 1 + d1;
            }
            if py {
                let lead = crate::text::trim_start_index(cs.as_slice());
                depth = (lead / 4) as u128;
            } else if d1 >= closes as u128 {
                depth = d1 - closes as u128;
            } else {
                depth = 0;
            }
        }
        i = i + 1;
    }
    proof {
        assert(ls.take(ls.len() as int) =~= ls);
    }
    if score < 1 { 1 } else { score }
}

/// The outcome of the complexity budget check.
pub struct ComplexityBudgetCheckResult {
    pub scanned_functions: usize,
    pub violations: Vec<Violation>,
}

/// The details of a function over budget.
pub open spec fn over_budget_details(
    f: FnBlockView,
    cfg: ComplexityBudgetCheckConfigV2,
    cyc: nat,
    cog: nat,
) -> Seq<(Seq<char>, DetailValueView)> {
    seq![
        ("check_id"@, DetailValueView::Str(cfg.id@)),
        ("symbol"@, DetailValueView::Str(f.symbol)),
        ("start_line"@, DetailValueView::UInt(f.start_line as u64)),
        ("line_count"@, DetailValueView::UInt(f.lines.len() as u64)),
        ("cyclomatic"@, DetailValueView::UWide(cyc as u128)),
        ("cognitive"@, DetailValueView::UWide(cog as u128)),
        ("limits"@, DetailValueView::UIntObject(seq![
            ("max_function_lines"@, cfg.max_function_lines as u64),
            ("max_cyclomatic"@, cfg.max_cyclomatic as u64),
            ("max_cognitive"@, cfg.max_cognitive as u64),
        ])),
    ]
}

/// What the check reports of one function: a blocking violation where its
/// line count, cyclomatic or cognitive complexity exceeds the limit.
pub open spec fn fn_budget_violations(f: FnBlockView, cfg: ComplexityBudgetCheckConfigV2) -> Seq<ViolationView> {
    let cyc = cyclomatic_spec(f.lines);
    let cog = cognitive_spec(f.lines, source_kind(f.rel_path) == SourceKind::Python);
    if f.lines.len() > cfg.max_function_lines || cyc > cfg.max_cyclomatic || cog > cfg.max_cognitive {
        seq![
            ViolationView {
                code: "complexity_budget.threshold_exceeded"@,
                message: "function "@ + f.symbol + " exceeds complexity budget (lines="@ + decimal_spec(f.lines.len())
                    + ", cyclomatic="@ + decimal_spec(cyc) + ", cognitive="@ + decimal_spec(cog) + ")"@,
                path: Some(f.rel_path),
                details: Some(over_budget_details(f, cfg, cyc, cog)),
                tier: ViolationTier::Blocking,
            },
        ]
    } else {
        Seq::empty()
    }
}

pub open spec fn budget_violations(fns: Seq<FnBlockView>, cfg: ComplexityBudgetCheckConfigV2) -> Seq<ViolationView>
    decreases fns.len(),
{
    if fns.len() == 0 {
        Seq::empty()
    } else {
        budget_violations(fns.drop_last(), cfg) + fn_budget_violations(fns.last(), cfg)
    }
}

/// A file that the check reads: a code file by its extension.
pub open spec fn scanned(rel: Seq<char>) -> bool {
    crate::checks::extension_of(crate::checks::file_name_of(rel)) matches Some(e) && crate::checks::code_extension(e)
}

/// The functions of the files that were read, in order.
pub open spec fn files_functions(files: Seq<(String, Result<String, String>)>) -> Seq<FnBlockView>
    decreases files.len(),
{
    if files.len() == 0 {
        Seq::empty()
    } else {
        let f = files.last();
        files_functions(files.drop_last()) + if scanned(f.0@) {
            match f.1 {
                Ok(raw) => complexity_blocks(f.0@, std_lines(raw@), 0),
                Err(_) => Seq::empty(),
            }
        } else {
            Seq::empty()
        }
    }
}

/// The read failures of the code files, in order, reported under `code`.
pub open spec fn read_failures(files: Seq<(String, Result<String, String>)>, code: Seq<char>) -> Seq<ViolationView>
    decreases files.len(),
{
    if files.len() == 0 {
        Seq::empty()
    } else {
        let f = files.last();
        read_failures(files.drop_last(), code) + if scanned(f.0@) {
            match f.1 {
                Ok(_) => Seq::empty(),
                Err(e) => seq![
                    ViolationView {
                        code: code,
                        message: "failed to read "@ + f.0@ + ": "@ + e@,
                        path: Some(f.0@),
                        details: None,
                        tier: ViolationTier::Blocking,
                    },
                ],
            }
        } else {
            Seq::empty()
        }
    }
}

/// The texts of the files are within what memory can hold.
pub open spec fn texts_fit(files: Seq<(String, Result<String, String>)>) -> bool {
    forall|k: int| 0 <= k < files.len() ==> ((#[trigger] files[k]).1 matches Ok(raw) ==> raw@.len() < 0x7fff_ffff_ffff_ffff)
}

fn over_budget_violation(f: &FnBlock, cfg: &ComplexityBudgetCheckConfigV2, cyc: u128, cog: u128) -> (v: Violation)
    ensures
        violation_view(v) == (ViolationView {
            code: "complexity_budget.threshold_exceeded"@,
            message: "function "@ + f.symbol@ + " exceeds complexity budget (lines="@ + decimal_spec(f.lines@.len())
                + ", cyclomatic="@ + decimal_spec(cyc as nat) + ", cognitive="@ + decimal_spec(cog as nat) + ")"@,
            path: Some(f.rel_path@),
            details: Some(over_budget_details(fn_block_view(*f), *cfg, cyc as nat, cog as nat)),
            tier: ViolationTier::Blocking,
        }),
{
    let m1 = concat("function ", f.symbol.as_str());
    let m2 = concat(m1.as_str(), " exceeds complexity budget (lines=");
    let m3 = concat(m2.as_str(), u64_to_string(f.lines.len() as u64).as_str());
    let m4 = concat(m3.as_str(), ", cyclomatic=");
    let m5 = concat(m4.as_str(), u128_to_string(cyc).as_str());
    let m6 = concat(m5.as_str(), ", cognitive=");
    let m7 = concat(m6.as_str(), u128_to_string(cog).as_str());
    let message = concat(m7.as_str(), ")");
    let mut limits: Vec<(String, u64)> = Vec::new();
    limits.push((String::from_str("max_function_lines"), cfg.max_function_lines as u64));
    limits.push((String::from_str("max_cyclomatic"), cfg.max_cyclomatic as u64));
    limits.push((String::from_str("max_cognitive"), cfg.max_cognitive as u64));
    let mut fields: Vec<(String, DetailValue)> = Vec::new();
    fields.push((String::from_str("check_id"), DetailValue::Str(cfg.id.clone())));
    fields.push((String::from_str("symbol"), DetailValue::Str(f.symbol.clone())));
    fields.push((String::from_str("start_line"), DetailValue::UInt(f.start_line as u64)));
    fields.push((String::from_str("line_count"), DetailValue::UInt(f.lines.len() as u64)));
    fields.push((String::from_str("cyclomatic"), DetailValue::UWide(cyc)));
    fields.push((String::from_str("cognitive"), DetailValue::UWide(cog)));
    fields.push((String::from_str("limits"), DetailValue::UIntObject(limits)));
    let v = Violation::blocking(
        String::from_str("complexity_budget.threshold_exceeded"),
        message,
        Some(f.rel_path.clone()),
        Some(Details { fields }),
    );
    proof {
        assert(limits@.map_values(|e: (String, u64)| (e.0@, e.1)) =~= seq![
            ("max_function_lines"@, cfg.max_function_lines as u64),
            ("max_cyclomatic"@, cfg.max_cyclomatic as u64),
            ("max_cognitive"@, cfg.max_cognitive as u64),
        ]);
        assert(crate::api::details_view(v.details).unwrap() =~= over_budget_details(
            fn_block_view(*f),
            *cfg,
            cyc as nat,
            cog as nat,
        ));
    }
    v
}

/// The complexity budget check over the files that the include and exclude
/// globs selected (or the error of that selection), each with its text or the
/// error of reading it: files that are not code are passed over; a read error
/// is reported; every function of the files read is measured and reported
/// where it is over budget. Read failures come first, then the functions in
/// file order; `scanned_functions` counts all the functions found.
pub fn run_complexity_budget_check(
    cfg: &ComplexityBudgetCheckConfigV2,
    files: Result<Vec<(String, Result<String, String>)>, String>,
) -> (r: ComplexityBudgetCheckResult)
    requires
        files matches Ok(fs) ==> texts_fit(fs@),
    ensures
        match files {
            Err(msg) => r.scanned_functions == 0 && violation_views(r.violations@) == seq![
                ViolationView {
                    code: "complexity_budget.check_failed"@,
                    message: "complexity_budget check failed (id="@ + cfg.id@ + "): "@ + msg@,
                    path: None,
                    details: None,
                    tier: ViolationTier::Blocking,
                },
            ],
            Ok(fs) => r.scanned_functions == files_functions(fs@).len() && violation_views(r.violations@)
                == read_failures(fs@, "complexity_budget.read_failed"@) + budget_violations(files_functions(fs@), *cfg),
        },
{
    match files {
        Err(msg) => {
            let a = concat("complexity_budget check failed (id=", cfg.id.as_str());
            let b = concat(a.as_str(), "): ");
            let m = concat(b.as_str(), msg.as_str());
            let mut violations: Vec<Violation> = Vec::new();
            violations.push(Violation::blocking(String::from_str("complexity_budget.check_failed"), m, None, None));
            proof {
                assert(violation_views(violations@) =~= seq![
                    ViolationView {
                        code: "complexity_budget.check_failed"@,
                        message: "complexity_budget check failed (id="@ + cfg.id@ + "): "@ + msg@,
                        path: None,
                        details: None,
                        tier: ViolationTier::Blocking,
                    },
                ]);
            }
            ComplexityBudgetCheckResult { scanned_functions: 0, violations }
        },
        Ok(fs) => {
            let mut violations: Vec<Violation> = Vec::new();
            let mut all_fns: Vec<FnBlock> = Vec::new();
            let mut i: usize = 0;
            proof {
                assert(fs@.take(0) =~= Seq::<(String, Result<String, String>)>::empty());
            }
            while i < fs.len()
                invariant
                    texts_fit(fs@),
                    i <= fs@.len(),
                    violation_views(violations@) == read_failures(fs@.take(i as int), "complexity_budget.read_failed"@),
                    fn_block_views(all_fns@) == files_functions(fs@.take(i as int)),
                    forall|k: int| 0 <= k < all_fns@.len() ==> weight((#[trigger] fn_block_views(all_fns@)[k]).lines)
                        <= 0x7fff_ffff_ffff_ffff,
                decreases fs@.len() - i,
            {
                proof {
                    assert(fs@.take(i + 1).drop_last() =~= fs@.take(i as int));
                    assert(fs@.take(i + 1).last() == fs@[i as int]);
                }
                let rel = &fs[i].0;
                if crate::checks::is_probably_code_file(rel.as_str()) {
                    match &fs[i].1 {
                        Err(e) => {
                            let a = concat("failed to read ", rel.as_str());
                            let b = concat(a.as_str(), ": ");
                            let m = concat(b.as_str(), e.as_str());
                            let ghost before = violation_views(violations@);
                            violations.push(Violation::blocking(
                                String::from_str("complexity_budget.read_failed"),
                                m,
                                Some(rel.clone()),
                                None,
                            ));
                            proof {
                                assert(violation_views(violations@) =~= before + seq![
                                    ViolationView {
                                        code: "complexity_budget.read_failed"@,
                                        message: "failed to read "@ + rel@ + ": "@ + e@,
                                        path: Some(rel@),
                                        details: None,
                                        tier: ViolationTier::Blocking,
                                    },
                                ]);
                                assert(fn_block_views(all_fns@) =~= files_functions(fs@.take(i as int)) + Seq::<
                                    FnBlockView,
                                >::empty());
                            }
                        },
                        Ok(raw) => {
                            proof {
                                assert(fs@[i as int].1 matches Ok(x) && x == *raw);
                            }
                            let found = extract_functions(rel.as_str(), raw.as_str());
                            proof {
                                lemma_weight_std_lines(raw@);
                                lemma_blocks_weight(rel@, std_lines(raw@), 0);
                            }
                            let ghost before = fn_block_views(all_fns@);
                            let mut found = found;
                            let ghost fv = fn_block_views(found@);
                            all_fns.append(&mut found);
                            proof {
                                assert(fn_block_views(all_fns@) =~= before + fv);
                                assert forall|k: int| 0 <= k < all_fns@.len() implies weight(
                                    (#[trigger] fn_block_views(all_fns@)[k]).lines,
                                ) <= 0x7fff_ffff_ffff_ffff by {
                                    if k >= before.len() {
                                        assert(fn_block_views(all_fns@)[k] == fv[k - before.len()]);
                                    } else {
                                        assert(fn_block_views(all_fns@)[k] == before[k]);
                                    }
                                }
                                assert(violation_views(violations@) =~= read_failures(fs@.take(i as int), "complexity_budget.read_failed"@) + Seq::<
                                    ViolationView,
                                >::empty());
                            }
                        },
                    }
                } else {
                    proof {
                        assert(violation_views(violations@) =~= read_failures(fs@.take(i as int), "complexity_budget.read_failed"@) + Seq::<
                            ViolationView,
                        >::empty());
                        assert(fn_block_views(all_fns@) =~= files_functions(fs@.take(i as int)) + Seq::<
                            FnBlockView,
                        >::empty());
                    }
                }
                i = i + 1;
            }
            proof {
                assert(fs@.take(fs@.len() as int) =~= fs@);
            }
            let ghost failures = violation_views(violations@);
            let ghost fns = fn_block_views(all_fns@);
            let mut j: usize = 0;
            proof {
                assert(fns.take(0) =~= Seq::<FnBlockView>::empty());
                assert(violation_views(violations@) =~= failures + budget_violations(fns.take(0), *cfg));
            }
            while j < all_fns.len()
                invariant
                    fns == fn_block_views(all_fns@),
                    j <= fns.len(),
                    forall|k: int| 0 <= k < all_fns@.len() ==> weight((#[trigger] fn_block_views(all_fns@)[k]).lines)
                        <= 0x7fff_ffff_ffff_ffff,
                    violation_views(violations@) == failures + budget_violations(fns.take(j as int), *cfg),
                decreases fns.len() - j,
            {
                proof {
                    assert(fns.take(j + 1).drop_last() =~= fns.take(j as int));
                    assert(fns.take(j + 1).last() == fn_block_view(all_fns@[j as int]));
                    assert(weight(fns[j as int].lines) <= 0x7fff_ffff_ffff_ffff);
                }
                let f = &all_fns[j];
                let line_count = f.lines.len();
                let cyc = cyclomatic(&f.lines);
                let py = source_kind_of(f.rel_path.as_str()) == SourceKind::Python;
                let cog = cognitive(&f.lines, py);
                let ghost before = violation_views(violations@);
                if line_count > cfg.max_function_lines || cyc > cfg.max_cyclomatic as u128 || cog
                    > cfg.max_cognitive as u128 {
                    let v = over_budget_violation(f, cfg, cyc, cog);
                    violations.push(v);
                    proof {
                        assert(violation_views(violations@) =~= before + fn_budget_violations(fns[j as int], *cfg));
                    }
                } else {
                    proof {
                        assert(violation_views(violations@) =~= before + fn_budget_violations(fns[j as int], *cfg));
                    }
                }
                proof {
                    assert(before + fn_budget_violations(fns[j as int], *cfg) =~= failures + (budget_violations(
                        fns.take(j as int),
                        *cfg,
                    ) + fn_budget_violations(fns[j as int], *cfg)));
                }
                j = j + 1;
            }
            proof {
                assert(fns.take(fns.len() as int) =~= fns);
            }
            ComplexityBudgetCheckResult { scanned_functions: all_fns.len(), violations }
        },
    }
}


/// `p` occurs in `s` at some position.
pub open spec fn occurs_in(s: Seq<char>, p: Seq<char>) -> bool {
    exists|i: int| 0 <= i && i + p.len() <= s.len() && #[trigger] s.subrange(i, i + p.len()) == p
}

/// One for a keyword (with its surrounding spaces) that occurs in the line
/// once it is trimmed and padded with a space on each side.
pub open spec fn keyword_in_line(line: Seq<char>, kw: Seq<char>) -> nat {
    if occurs_in(seq![' '] + trim_spec(line) + seq![' '], kw) {
        1
    } else {
        0
    }
}

proof fn lemma_occurrence_found(s: Seq<char>, p: Seq<char>, i: int)
    requires
        0 <= i,
        exists|j: int| i <= j && j + p.len() <= s.len() && #[trigger] s.subrange(j, j + p.len()) == p,
    ensures
        first_occurrence(s, p, i) is Some,
    decreases s.len() + 1 - i,
{
    let j = choose|j: int| i <= j && j + p.len() <= s.len() && #[trigger] s.subrange(j, j + p.len()) == p;
    if s.subrange(i, i + p.len()) != p {
        assert(j != i);
        lemma_occurrence_found(s, p, i + 1);
    }
}

proof fn lemma_keyword_hit(line: Seq<char>, kw: Seq<char>)
    ensures
        keyword_in_line(line, kw) <= hit(has_sub(padded(trim_spec(line)), kw)),
{
    let p = seq![' '] + trim_spec(line) + seq![' '];
    assert(padded(trim_spec(line)) == p);
    if occurs_in(p, kw) {
        lemma_occurrence_found(p, kw, 0);
    }
}

/// A line adds to the cyclomatic complexity of the lines before it at
/// least one for each branch keyword it holds: `if`, `else if`, `for`,
/// `while`, `match` and `case`, each standing as a word.
pub proof fn law_branch_keywords_add_complexity(lines: Seq<Seq<char>>, line: Seq<char>)
    ensures
        cyclomatic_spec(lines.push(line)) >= cyclomatic_spec(lines) + keyword_in_line(line, " if "@) + keyword_in_line(
            line,
            " else if "@,
        ) + keyword_in_line(line, " for "@) + keyword_in_line(line, " while "@) + keyword_in_line(line, " match "@)
            + keyword_in_line(line, " case "@),
{
    assert(lines.push(line).drop_last() =~= lines);
    lemma_keyword_hit(line, " if "@);
    lemma_keyword_hit(line, " else if "@);
    lemma_keyword_hit(line, " for "@);
    lemma_keyword_hit(line, " while "@);
    lemma_keyword_hit(line, " match "@);
    lemma_keyword_hit(line, " case "@);
}

/// The cyclomatic complexity of a function is at least one more than the
/// number of its lines that hold a ` while ` loop.
pub proof fn law_while_lines_count(lines: Seq<Seq<char>>)
    ensures
        cyclomatic_spec(lines) >= 1 + while_lines(lines),
    decreases lines.len(),
{
    if lines.len() > 0 {
        law_while_lines_count(lines.drop_last());
        law_branch_keywords_add_complexity(lines.drop_last(), lines.last());
        assert(lines.drop_last().push(lines.last()) =~= lines);
    }
}

/// The lines that hold ` while ` as a word.
pub open spec fn while_lines(lines: Seq<Seq<char>>) -> nat
    decreases lines.len(),
{
    if lines.len() == 0 {
        0
    } else {
        while_lines(lines.drop_last()) + keyword_in_line(lines.last(), " while "@)
    }
}

} // verus!
