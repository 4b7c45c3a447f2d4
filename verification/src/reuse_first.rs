//! Reuse first: function blocks normalized (case, names, comments and white
//! space taken out) and fingerprinted, and blocks that share a fingerprint
//! across files reported as duplicate implementations.

use crate::api::{DetailValue, DetailValueView, Details, Violation, ViolationTier, ViolationView, violation_views};
use crate::checks::first_occurrence;
use crate::code_blocks::{
    SourceKind, brace_block_end_exec, char_lines, char_views, is_function_start, lemma_brace_end_from, lemma_py_end_from,
    lemma_weight_std_lines, lines_of, parse_symbol_from_line, reuse_fn_start, reuse_symbol_from, source_kind,
    source_kind_of, std_lines, py_block_end_exec, weight,
};
use crate::complexity::{block_end, read_failures, scanned, texts_fit};
use crate::config::ReuseFirstCheckConfigV2;
use crate::csv::views;
use crate::fingerprint::{fingerprint_spec, sha256_hex};
use crate::order::sorted_distinct;
use crate::patterns::{regex_new_error, regex_replaced};
use crate::plugins::{dedup_spec, join_spec};
use crate::text::{chars_of, concat, decimal_spec, is_ws, string_of, u64_to_string};
use vstd::prelude::*;

verus! {

/// A function block kept for comparison: where it is, its name and its
/// normalized text.
pub struct CodeBlock {
    pub rel_path: String,
    pub start_line: usize,
    pub symbol: String,
    pub normalized: String,
}

pub struct CodeBlockView {
    pub rel_path: Seq<char>,
    pub start_line: int,
    pub symbol: Seq<char>,
    pub normalized: Seq<char>,
}

pub open spec fn code_block_view(b: CodeBlock) -> CodeBlockView {
    CodeBlockView { rel_path: b.rel_path@, start_line: b.start_line as int, symbol: b.symbol@, normalized: b.normalized@ }
}

pub open spec fn code_block_views(v: Seq<CodeBlock>) -> Seq<CodeBlockView> {
    v.map_values(|b: CodeBlock| code_block_view(b))
}

/// A line up to its first `//`, or else up to its first `#`.
pub open spec fn strip_inline(line: Seq<char>) -> Seq<char> {
    match first_occurrence(line, "//"@, 0) {
        Some(i) => line.take(i),
        None => match first_occurrence(line, "#"@, 0) {
            Some(i) => line.take(i),
            None => line,
        },
    }
}

/// The line without its inline comment (see `strip_inline`).
pub fn strip_inline_comments(line: &Vec<char>) -> (out: Vec<char>)
    ensures
        out@ == strip_inline(line@),
{
    let n = line.len();
    let a = crate::checks::find_seq(line, "//");
    let b = crate::checks::find_seq(line, "#");
    proof {
        crate::checks::lemma_first_occurrence(line@, "//"@, 0);
        crate::checks::lemma_first_occurrence(line@, "#"@, 0);
    }
    let end: usize = match a {
        Some(i) => i,
        None => match b {
            Some(i) => i,
            None => line.len(),
        },
    };
    let out = crate::text::slice_vec(line.as_slice(), 0, end);
    proof {
        assert(out@ =~= line@.take(end as int));
        assert(line@.take(line@.len() as int) =~= line@);
        match a {
            Some(i) => {
                assert(first_occurrence(line@, "//"@, 0) == Some(i as int));
                assert(out@ == strip_inline(line@));
            },
            None => {
                assert(first_occurrence(line@, "//"@, 0) is None);
                match b {
                    Some(i) => {
                        assert(first_occurrence(line@, "#"@, 0) == Some(i as int));
                    },
                    None => {
                        assert(first_occurrence(line@, "#"@, 0) is None);
                    },
                }
                assert(out@ == strip_inline(line@));
            },
        }
    }
    out
}

/// An ASCII capital letter as its small letter; other characters as they are.
pub open spec fn lower_char(c: char) -> char {
    if 'A' <= c && c <= 'Z' {
        ((c as u32 + 32) as u8) as char
    } else {
        c
    }
}

fn lower_char_exec(c: char) -> (r: char)
    ensures
        r == lower_char(c),
{
    if 'A' <= c && c <= 'Z' {
        ((c as u32 + 32) as u8) as char
    } else {
        c
    }
}

/// What `str::to_ascii_lowercase` gives.
pub open spec fn ascii_lowercase(s: Seq<char>) -> Seq<char> {
    s.map_values(|c: char| lower_char(c))
}

pub fn ascii_lowercase_exec(s: &str) -> (out: String)
    ensures
        out@ == ascii_lowercase(s@),
{
    let cs = chars_of(s);
    let mut out: Vec<char> = Vec::new();
    let mut i: usize = 0;
    while i < cs.len()
        invariant
            cs@ == s@,
            i <= cs@.len(),
            out@ == ascii_lowercase(cs@.take(i as int)),
        decreases cs@.len() - i,
    {
        out.push(lower_char_exec(cs[i]));
        i = i + 1;
        assert(out@ =~= ascii_lowercase(cs@.take(i as int)));
    }
    assert(cs@.take(cs@.len() as int) =~= cs@);
    string_of(out.as_slice())
}

/// `s` rewritten by the regex of `pattern` where the pattern compiles.
pub open spec fn replace_if(pattern: Seq<char>, s: Seq<char>, replacement: Seq<char>) -> Seq<char> {
    if regex_new_error(pattern) is None {
        regex_replaced(pattern, s, replacement)
    } else {
        s
    }
}

fn replace_if_exec(pattern: &str, s: String, replacement: &str) -> (out: String)
    ensures
        out@ == replace_if(pattern@, s@, replacement@),
{
    match crate::patterns::regex_new(pattern) {
        Ok(re) => crate::patterns::regex_replace_all(&re, s.as_str(), replacement),
        Err(_) => s,
    }
}

/// The characters of `s` that are not white space.
pub open spec fn without_ws(s: Seq<char>) -> Seq<char>
    decreases s.len(),
{
    if s.len() == 0 {
        Seq::empty()
    } else if is_ws(s.last()) {
        without_ws(s.drop_last())
    } else {
        without_ws(s.drop_last()).push(s.last())
    }
}

/// The lines without their inline comments and white space, run together.
pub open spec fn squeeze_lines(lines: Seq<Seq<char>>) -> Seq<char>
    decreases lines.len(),
{
    if lines.len() == 0 {
        Seq::empty()
    } else {
        squeeze_lines(lines.drop_last()) + without_ws(strip_inline(lines.last()))
    }
}

/// The normalized text of a block: its lines joined by line feeds, in ASCII
/// lower case, with the name after `fn`, `def`, `function` and `func` replaced
/// by `_`, then cut into lines again, each without its inline comment, and
/// all white space taken out.
pub open spec fn normalize_spec(block: Seq<Seq<char>>) -> Seq<char> {
    let j = ascii_lowercase(join_spec(block, "\n"@));
    let r1 = replace_if(r"\bfn\s+[a-z_][a-z0-9_]*"@, j, "fn _"@);
    let r2 = replace_if(r"\bdef\s+[a-z_][a-z0-9_]*"@, r1, "def _"@);
    let r3 = replace_if(r"\bfunction\s+[a-z_][a-z0-9_]*"@, r2, "function _"@);
    let r4 = replace_if(r"\bfunc\s+[a-z_][a-z0-9_]*"@, r3, "func _"@);
    squeeze_lines(std_lines(r4))
}

fn without_ws_exec(s: &Vec<char>, out: &mut Vec<char>)
    ensures
        final(out)@ == old(out)@ + without_ws(s@),
{
    let ghost start = out@;
    let mut i: usize = 0;
    proof {
        assert(s@.take(0) =~= Seq::<char>::empty());
        assert(out@ =~= start + without_ws(s@.take(0)));
    }
    while i < s.len()
        invariant
            i <= s@.len(),
            out@ == start + without_ws(s@.take(i as int)),
        decreases s@.len() - i,
    {
        proof {
            assert(s@.take(i + 1).drop_last() =~= s@.take(i as int));
        }
        if !crate::text::char_is_ws(s[i]) {
            out.push(s[i]);
        }
        i = i + 1;
        assert(out@ =~= start + without_ws(s@.take(i as int)));
    }
    proof {
        assert(s@.take(s@.len() as int) =~= s@);
    }
}

/// The normalized text of a block (see `normalize_spec`).
pub fn normalize_block(lines: &Vec<String>) -> (out: String)
    ensures
        out@ == normalize_spec(views(lines@)),
{
    let joined = crate::plugins::join_strings(lines.as_slice(), "\n");
    let j = ascii_lowercase_exec(joined.as_str());
    let r1 = replace_if_exec(r"\bfn\s+[a-z_][a-z0-9_]*", j, "fn _");
    let r2 = replace_if_exec(r"\bdef\s+[a-z_][a-z0-9_]*", r1, "def _");
    let r3 = replace_if_exec(r"\bfunction\s+[a-z_][a-z0-9_]*", r2, "function _");
    let r4 = replace_if_exec(r"\bfunc\s+[a-z_][a-z0-9_]*", r3, "func _");
    let ls = lines_of(r4.as_str());
    let ghost lv = views(ls@);
    let mut out: Vec<char> = Vec::new();
    let mut i: usize = 0;
    proof {
        assert(lv.take(0) =~= Seq::<Seq<char>>::empty());
    }
    while i < ls.len()
        invariant
            lv == views(ls@),
            i <= lv.len(),
            out@ == squeeze_lines(lv.take(i as int)),
        decreases lv.len() - i,
    {
        proof {
            assert(lv.take(i + 1).drop_last() =~= lv.take(i as int));
            assert(lv.take(i + 1).last() == ls@[i as int]@);
        }
        let cs = chars_of(ls[i].as_str());
        let stripped = strip_inline_comments(&cs);
        without_ws_exec(&stripped, &mut out);
        i = i + 1;
    }
    proof {
        assert(lv.take(lv.len() as int) =~= lv);
    }
    string_of(out.as_slice())
}

/// The name of a block in the report: the function's name, or `line_N`.
pub open spec fn reuse_symbol(line: Seq<char>, i: int) -> Seq<char> {
    match reuse_symbol_from(line, 0) {
        Some(s) => s,
        None => "line_"@ + decimal_spec((i + 1) as nat),
    }
}

/// The blocks kept from line `i` on: at each line that starts a function, the
/// block up to its end when it has at least `min_lines` lines and its
/// normalized text at least 32 bytes; the scan goes on after the block.
pub open spec fn reuse_blocks(rel: Seq<char>, lines: Seq<Seq<char>>, min_lines: nat, i: int) -> Seq<CodeBlockView>
    decreases lines.len() - i,
{
    if 0 <= i < lines.len() {
        let kind = source_kind(rel);
        if reuse_fn_start(kind, lines[i]) {
            let e = block_end(kind, lines, i);
            if i < e <= lines.len() {
                let block = lines.subrange(i, e);
                let norm = normalize_spec(block);
                (if block.len() >= min_lines && vstd::utf8::encode_utf8(norm).len() >= 32 {
                    seq![
                        CodeBlockView {
                            rel_path: rel,
                            start_line: i + 1,
                            symbol: reuse_symbol(lines[i], i),
                            normalized: norm,
                        },
                    ]
                } else {
                    Seq::empty()
                }) + reuse_blocks(rel, lines, min_lines, e)
            } else {
                Seq::empty()
            }
        } else {
            reuse_blocks(rel, lines, min_lines, i + 1)
        }
    } else {
        Seq::empty()
    }
}

fn copy_lines(lines: &Vec<String>, from: usize, to: usize) -> (out: Vec<String>)
    requires
        from <= to <= lines@.len(),
    ensures
        views(out@) == views(lines@).subrange(from as int, to as int),
{
    let mut out: Vec<String> = Vec::new();
    let mut k: usize = from;
    while k < to
        invariant
            from <= k <= to <= lines@.len(),
            out@ == lines@.subrange(from as int, k as int),
        decreases to - k,
    {
        out.push(lines[k].clone());
        proof {
            assert(out@ =~= lines@.subrange(from as int, k + 1));
        }
        k = k + 1;
    }
    proof {
        assert(views(out@) =~= views(lines@).subrange(from as int, to as int));
    }
    out
}

/// The blocks of one file kept for comparison (see `reuse_blocks`).
pub fn extract_blocks_for_file(rel_path: &str, raw: &str, min_block_lines: usize) -> (out: Vec<CodeBlock>)
    requires
        raw@.len() < 0x7fff_ffff_ffff_ffff,
    ensures
        code_block_views(out@) == reuse_blocks(rel_path@, std_lines(raw@), min_block_lines as nat, 0),
{
    let kind = source_kind_of(rel_path);
    let strs = lines_of(raw);
    let lines = char_lines(&strs);
    let ghost ls = std_lines(raw@);
    proof {
        lemma_weight_std_lines(raw@);
        assert(char_views(lines@) =~= ls);
    }
    let n = lines.len();
    let mut out: Vec<CodeBlock> = Vec::new();
    let mut i: usize = 0;
    proof {
        assert(reuse_blocks(rel_path@, ls, min_block_lines as nat, 0) =~= code_block_views(out@) + reuse_blocks(
            rel_path@,
            ls,
            min_block_lines as nat,
            0,
        ));
    }
    while i < n
        invariant
            kind == source_kind(rel_path@),
            ls == std_lines(raw@),
            views(strs@) == ls,
            char_views(lines@) == ls,
            n == ls.len(),
            weight(ls) <= 0x7fff_ffff_ffff_ffff,
            i <= n,
            code_block_views(out@) + reuse_blocks(rel_path@, ls, min_block_lines as nat, i as int) == reuse_blocks(
                rel_path@,
                ls,
                min_block_lines as nat,
                0,
            ),
        decreases n - i,
    {
        proof {
            assert(lines@[i as int]@ == ls[i as int]);
            assert(strs@[i as int]@ == ls[i as int]);
        }
        if !is_function_start(kind, &lines[i]) {
            i = i + 1;
        } else {
            let symbol = match parse_symbol_from_line(strs[i].as_str()) {
                Some(s) => s,
                None => concat("line_", u64_to_string((i + 1) as u64).as_str()),
            };
            let e = if kind == SourceKind::Python {
                py_block_end_exec(&lines, i)
            } else {
                brace_block_end_exec(&lines, i)
            };
            proof {
                assert(e == block_end(kind, ls, i as int));
                assert(reuse_fn_start(kind, ls[i as int]));
                assert(symbol@ == reuse_symbol(ls[i as int], i as int));
            }
            let ghost before = code_block_views(out@);
            let ghost rest = reuse_blocks(rel_path@, ls, min_block_lines as nat, e as int);
            let ghost sub = ls.subrange(i as int, e as int);
            let ghost here = if sub.len() >= min_block_lines as nat && vstd::utf8::encode_utf8(normalize_spec(sub)).len()
                >= 32 {
                seq![
                    CodeBlockView {
                        rel_path: rel_path@,
                        start_line: i + 1,
                        symbol: reuse_symbol(ls[i as int], i as int),
                        normalized: normalize_spec(sub),
                    },
                ]
            } else {
                Seq::<CodeBlockView>::empty()
            };
            if e - i >= min_block_lines {
                let block = copy_lines(&strs, i, e);
                let normalized = normalize_block(&block);
                proof {
                    assert(views(block@) == sub);
                }
                if normalized.as_str().as_bytes().len() >= 32 {
                    out.push(
                        CodeBlock { rel_path: String::from_str(rel_path), start_line: i + 1, symbol, normalized },
                    );
                    proof {
                        assert(code_block_views(out@) =~= before + here);
                    }
                } else {
                    proof {
                        assert(code_block_views(out@) =~= before + here);
                    }
                }
            } else {
                proof {
                    assert(code_block_views(out@) =~= before + here);
                }
            }
            proof {
                assert(reuse_blocks(rel_path@, ls, min_block_lines as nat, i as int) == here + rest);
                assert(before + here + rest =~= before + (here + rest));
            }
            i = e;
        }
    }
    proof {
        assert(reuse_blocks(rel_path@, ls, min_block_lines as nat, n as int) =~= Seq::<CodeBlockView>::empty());
        assert(code_block_views(out@) =~= reuse_blocks(rel_path@, ls, min_block_lines as nat, 0));
    }
    out
}

/// The outcome of the reuse check.
pub struct ReuseFirstCheckResult {
    pub scanned_blocks: usize,
    pub violations: Vec<Violation>,
}

/// The blocks kept from the files that were read, in order.
pub open spec fn files_blocks(files: Seq<(String, Result<String, String>)>, min_lines: nat) -> Seq<CodeBlockView>
    decreases files.len(),
{
    if files.len() == 0 {
        Seq::empty()
    } else {
        let f = files.last();
        files_blocks(files.drop_last(), min_lines) + if scanned(f.0@) {
            match f.1 {
                Ok(raw) => reuse_blocks(f.0@, std_lines(raw@), min_lines, 0),
                Err(_) => Seq::empty(),
            }
        } else {
            Seq::empty()
        }
    }
}

/// A block's fingerprint: that of its normalized text.
pub open spec fn block_fingerprint(b: CodeBlockView) -> Seq<char> {
    fingerprint_spec(b.normalized)
}

pub open spec fn fingerprints(blocks: Seq<CodeBlockView>) -> Seq<Seq<char>> {
    blocks.map_values(|b: CodeBlockView| block_fingerprint(b))
}

/// The blocks whose fingerprint is `key`, in order.
pub open spec fn with_fingerprint(blocks: Seq<CodeBlockView>, key: Seq<char>) -> Seq<CodeBlockView>
    decreases blocks.len(),
{
    if blocks.len() == 0 {
        Seq::empty()
    } else {
        let rest = with_fingerprint(blocks.drop_last(), key);
        if block_fingerprint(blocks.last()) == key {
            rest.push(blocks.last())
        } else {
            rest
        }
    }
}

/// How a block is named in the report: `path:line:name`.
pub open spec fn block_label(b: CodeBlockView) -> Seq<char> {
    b.rel_path + ":"@ + decimal_spec(b.start_line as nat) + ":"@ + b.symbol
}

/// What one fingerprint's group gives: a blocking violation when at least two
/// blocks share it and they lie in at least two files.
pub open spec fn group_violations(key: Seq<char>, group: Seq<CodeBlockView>, check_id: Seq<char>) -> Seq<ViolationView> {
    let paths = dedup_spec(group.map_values(|b: CodeBlockView| b.rel_path));
    if group.len() >= 2 && paths.len() >= 2 {
        seq![
            ViolationView {
                code: "reuse_first.exact_duplicate"@,
                message: "detected duplicate implementation blocks across "@ + decimal_spec(paths.len()) + " files"@,
                path: None,
                details: Some(seq![
                    ("check_id"@, DetailValueView::Str(check_id)),
                    ("fingerprint"@, DetailValueView::Str(key)),
                    ("blocks"@, DetailValueView::StrList(group.map_values(|b: CodeBlockView| block_label(b)))),
                ]),
                tier: ViolationTier::Blocking,
            },
        ]
    } else {
        Seq::empty()
    }
}

/// The duplicate groups' violations, one fingerprint after another in `keys` order.
pub open spec fn duplicate_violations(keys: Seq<Seq<char>>, blocks: Seq<CodeBlockView>, check_id: Seq<char>) -> Seq<
    ViolationView,
>
    decreases keys.len(),
{
    if keys.len() == 0 {
        Seq::empty()
    } else {
        duplicate_violations(keys.drop_last(), blocks, check_id) + group_violations(
            keys.last(),
            with_fingerprint(blocks, keys.last()),
            check_id,
        )
    }
}

fn block_label_exec(b: &CodeBlock) -> (s: String)
    ensures
        s@ == block_label(code_block_view(*b)),
{
    let a = concat(b.rel_path.as_str(), ":");
    let c = concat(a.as_str(), u64_to_string(b.start_line as u64).as_str());
    let d = concat(c.as_str(), ":");
    concat(d.as_str(), b.symbol.as_str())
}

fn group_violation_exec(
    key: &String,
    blocks: &Vec<CodeBlock>,
    fps: &Vec<String>,
    check_id: &String,
    out: &mut Vec<Violation>,
)
    requires
        fps@.len() == blocks@.len(),
        forall|k: int| 0 <= k < blocks@.len() ==> (#[trigger] fps@[k])@ == block_fingerprint(code_block_view(blocks@[k])),
    ensures
        violation_views(final(out)@) == violation_views(old(out)@) + group_violations(
            key@,
            with_fingerprint(code_block_views(blocks@), key@),
            check_id@,
        ),
{
    let ghost bv = code_block_views(blocks@);
    let mut labels: Vec<String> = Vec::new();
    let mut paths: Vec<String> = Vec::new();
    let mut k: usize = 0;
    proof {
        assert(bv.take(0) =~= Seq::<CodeBlockView>::empty());
    }
    while k < blocks.len()
        invariant
            bv == code_block_views(blocks@),
            fps@.len() == blocks@.len(),
            forall|x: int| 0 <= x < blocks@.len() ==> (#[trigger] fps@[x])@ == block_fingerprint(code_block_view(blocks@[x])),
            k <= blocks@.len(),
            views(labels@) == with_fingerprint(bv.take(k as int), key@).map_values(|b: CodeBlockView| block_label(b)),
            views(paths@) == with_fingerprint(bv.take(k as int), key@).map_values(|b: CodeBlockView| b.rel_path),
        decreases blocks@.len() - k,
    {
        proof {
            assert(bv.take(k + 1).drop_last() =~= bv.take(k as int));
            assert(bv.take(k + 1).last() == code_block_view(blocks@[k as int]));
        }
        if crate::text::str_eq(fps[k].as_str(), key.as_str()) {
            let ghost l0 = views(labels@);
            let ghost p0 = views(paths@);
            labels.push(block_label_exec(&blocks[k]));
            paths.push(blocks[k].rel_path.clone());
            proof {
                assert(block_fingerprint(bv[k as int]) == key@);
                let g0 = with_fingerprint(bv.take(k as int), key@);
                assert(with_fingerprint(bv.take(k + 1), key@) == g0.push(bv[k as int]));
                assert(views(labels@) =~= l0.push(block_label(bv[k as int])));
                assert(views(paths@) =~= p0.push(bv[k as int].rel_path));
                assert(views(labels@) =~= with_fingerprint(bv.take(k + 1), key@).map_values(|b: CodeBlockView| block_label(b)));
                assert(views(paths@) =~= with_fingerprint(bv.take(k + 1), key@).map_values(|b: CodeBlockView| b.rel_path));
            }
        }
        k = k + 1;
    }
    proof {
        assert(bv.take(bv.len() as int) =~= bv);
    }
    let group_len = labels.len();
    let unique = crate::plugins::dedupe_strings(paths);
    if group_len >= 2 && unique.len() >= 2 {
        let a = concat("detected duplicate implementation blocks across ", u64_to_string(unique.len() as u64).as_str());
        let m = concat(a.as_str(), " files");
        let mut fields: Vec<(String, DetailValue)> = Vec::new();
        fields.push((String::from_str("check_id"), DetailValue::Str(check_id.clone())));
        fields.push((String::from_str("fingerprint"), DetailValue::Str(key.clone())));
        fields.push((String::from_str("blocks"), DetailValue::StrList(labels)));
        let v = Violation::blocking(String::from_str("reuse_first.exact_duplicate"), m, None, Some(Details { fields }));
        let ghost before = violation_views(out@);
        out.push(v);
        proof {
            let group = with_fingerprint(bv, key@);
            assert(crate::api::details_view(v.details).unwrap() =~= seq![
                ("check_id"@, DetailValueView::Str(check_id@)),
                ("fingerprint"@, DetailValueView::Str(key@)),
                ("blocks"@, DetailValueView::StrList(group.map_values(|b: CodeBlockView| block_label(b)))),
            ]);
            assert(violation_views(out@) =~= before + group_violations(key@, group, check_id@));
        }
    } else {
        proof {
            assert(group_violations(key@, with_fingerprint(bv, key@), check_id@) =~= Seq::<ViolationView>::empty());
            assert(violation_views(out@) =~= violation_views(out@) + Seq::<ViolationView>::empty());
        }
    }
}

/// The reuse check over the files that the include and exclude globs selected
/// (or the error of that selection), each with its text or the error of
/// reading it: files that are not code are passed over; a read error is
/// reported; the blocks of the files read are fingerprinted, and for each
/// fingerprint in ascending order whose blocks lie in two files or more a
/// duplicate is reported. `scanned_blocks` counts the blocks kept.
pub fn run_reuse_first_check(
    cfg: &ReuseFirstCheckConfigV2,
    files: Result<Vec<(String, Result<String, String>)>, String>,
) -> (r: ReuseFirstCheckResult)
    requires
        files matches Ok(fs) ==> texts_fit(fs@),
    ensures
        match files {
            Err(msg) => r.scanned_blocks == 0 && violation_views(r.violations@) == seq![
                ViolationView {
                    code: "reuse_first.check_failed"@,
                    message: "reuse_first check failed (id="@ + cfg.id@ + "): "@ + msg@,
                    path: None,
                    details: None,
                    tier: ViolationTier::Blocking,
                },
            ],
            Ok(fs) => {
                let blocks = files_blocks(fs@, cfg.min_block_lines as nat);
                &&& r.scanned_blocks == blocks.len()
                &&& violation_views(r.violations@) == read_failures(fs@, "reuse_first.read_failed"@)
                    + duplicate_violations(sorted_distinct(fingerprints(blocks)), blocks, cfg.id@)
            },
        },
{
    match files {
        Err(msg) => {
            let a = concat("reuse_first check failed (id=", cfg.id.as_str());
            let b = concat(a.as_str(), "): ");
            let m = concat(b.as_str(), msg.as_str());
            let mut violations: Vec<Violation> = Vec::new();
            violations.push(Violation::blocking(String::from_str("reuse_first.check_failed"), m, None, None));
            proof {
                assert(violation_views(violations@) =~= seq![
                    ViolationView {
                        code: "reuse_first.check_failed"@,
                        message: "reuse_first check failed (id="@ + cfg.id@ + "): "@ + msg@,
                        path: None,
                        details: None,
                        tier: ViolationTier::Blocking,
                    },
                ]);
            }
            ReuseFirstCheckResult { scanned_blocks: 0, violations }
        },
        Ok(fs) => {
            let ghost code = "reuse_first.read_failed"@;
            let mut violations: Vec<Violation> = Vec::new();
            let mut blocks: Vec<CodeBlock> = Vec::new();
            let mut i: usize = 0;
            proof {
                assert(fs@.take(0) =~= Seq::<(String, Result<String, String>)>::empty());
            }
            while i < fs.len()
                invariant
                    code == "reuse_first.read_failed"@,
                    texts_fit(fs@),
                    i <= fs@.len(),
                    violation_views(violations@) == read_failures(fs@.take(i as int), code),
                    code_block_views(blocks@) == files_blocks(fs@.take(i as int), cfg.min_block_lines as nat),
                decreases fs@.len() - i,
            {
                proof {
                    assert(fs@.take(i + 1).drop_last() =~= fs@.take(i as int));
                    assert(fs@.take(i + 1).last() == fs@[i as int]);
                }
                let rel = &fs[i].0;
                if crate::checks::is_probably_code_file(rel.as_str()) {
                    match &fs[i].1 {
                        Err(e) => {
                            let a = concat("failed to read ", rel.as_str());
                            let b = concat(a.as_str(), ": ");
                            let m = concat(b.as_str(), e.as_str());
                            let ghost before = violation_views(violations@);
                            violations.push(Violation::blocking(
                                String::from_str("reuse_first.read_failed"),
                                m,
                                Some(rel.clone()),
                                None,
                            ));
                            proof {
                                assert(violation_views(violations@) =~= before + seq![
                                    ViolationView {
                                        code: code,
                                        message: "failed to read "@ + rel@ + ": "@ + e@,
                                        path: Some(rel@),
                                        details: None,
                                        tier: ViolationTier::Blocking,
                                    },
                                ]);
                                assert(code_block_views(blocks@) =~= files_blocks(
                                    fs@.take(i as int),
                                    cfg.min_block_lines as nat,
                                ) + Seq::<CodeBlockView>::empty());
                            }
                        },
                        Ok(raw) => {
                            proof {
                                assert(fs@[i as int].1 matches Ok(x) && x == *raw);
                            }
                            let mut found = extract_blocks_for_file(rel.as_str(), raw.as_str(), cfg.min_block_lines);
                            let ghost before = code_block_views(blocks@);
                            let ghost fv = code_block_views(found@);
                            blocks.append(&mut found);
                            proof {
                                assert(code_block_views(blocks@) =~= before + fv);
                                assert(violation_views(violations@) =~= read_failures(fs@.take(i as int), code)
                                    + Seq::<ViolationView>::empty());
                            }
                        },
                    }
                } else {
                    proof {
                        assert(violation_views(violations@) =~= read_failures(fs@.take(i as int), code) + Seq::<
                            ViolationView,
                        >::empty());
                        assert(code_block_views(blocks@) =~= files_blocks(fs@.take(i as int), cfg.min_block_lines as nat)
                            + Seq::<CodeBlockView>::empty());
                    }
                }
                i = i + 1;
            }
            proof {
                assert(fs@.take(fs@.len() as int) =~= fs@);
            }
            let ghost bv = code_block_views(blocks@);
            let ghost failures = violation_views(violations@);
            let mut fps: Vec<String> = Vec::new();
            let mut k: usize = 0;
            while k < blocks.len()
                invariant
                    bv == code_block_views(blocks@),
                    k <= blocks@.len(),
                    fps@.len() == k,
                    forall|x: int| 0 <= x < k ==> (#[trigger] fps@[x])@ == block_fingerprint(code_block_view(blocks@[x])),
                decreases blocks@.len() - k,
            {
                fps.push(sha256_hex(blocks[k].normalized.as_str()));
                k = k + 1;
            }
            proof {
                assert(views(fps@) =~= fingerprints(bv));
            }
            let keys = crate::order::sorted_unique(crate::csv::copy_strings(fps.as_slice()));
            let mut j: usize = 0;
            proof {
                assert(views(keys@).take(0) =~= Seq::<Seq<char>>::empty());
                assert(violation_views(violations@) =~= failures + duplicate_violations(
                    views(keys@).take(0),
                    bv,
                    cfg.id@,
                ));
            }
            while j < keys.len()
                invariant
                    bv == code_block_views(blocks@),
                    fps@.len() == blocks@.len(),
                    forall|x: int| 0 <= x < blocks@.len() ==> (#[trigger] fps@[x])@ == block_fingerprint(
                        code_block_view(blocks@[x]),
                    ),
                    j <= keys@.len(),
                    violation_views(violations@) == failures + duplicate_violations(
                        views(keys@).take(j as int),
                        bv,
                        cfg.id@,
                    ),
                decreases keys@.len() - j,
            {
                proof {
                    assert(views(keys@).take(j + 1).drop_last() =~= views(keys@).take(j as int));
                    assert(views(keys@).take(j + 1).last() == keys@[j as int]@);
                }
                let ghost before = violation_views(violations@);
                group_violation_exec(&keys[j], &blocks, &fps, &cfg.id, &mut violations);
                proof {
                    assert(before + group_violations(keys@[j as int]@, with_fingerprint(bv, keys@[j as int]@), cfg.id@)
                        =~= failures + duplicate_violations(views(keys@).take(j + 1), bv, cfg.id@));
                }
                j = j + 1;
            }
            proof {
                assert(views(keys@).take(keys@.len() as int) =~= views(keys@));
            }
            ReuseFirstCheckResult { scanned_blocks: blocks.len(), violations }
        },
    }
}

} // verus!
