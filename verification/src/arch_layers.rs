//! Architecture layers: which module a source line imports, which layer a
//! module belongs to, and which layer edges the rules forbid.

use crate::api::{violation_view, violation_views, DetailValue, DetailValueView, Details, Violation, ViolationTier, ViolationView};
use crate::checks::{first_index, first_occurrence, lemma_first_index};
use crate::config::{ArchLayerConfigV2, ArchLayerRuleConfigV2, ArchLayersCheckConfigV2};
use crate::csv::{split_on, views};
use crate::text::{chars_of, concat, seq_starts_with, slice_vec, str_eq, string_of, trim_chars, trim_spec};
use vstd::prelude::*;
use vstd::string::*;

verus! {

/// `s` up to the first `c` (all of it without one).
pub open spec fn before_char(s: Seq<char>, c: char) -> Seq<char> {
    match first_index(s, c, 0) {
        Some(k) => s.subrange(0, k),
        None => s,
    }
}

/// `s` up to the first occurrence of `p` (all of it without one).
pub open spec fn before_seq(s: Seq<char>, p: Seq<char>) -> Seq<char> {
    match first_occurrence(s, p, 0) {
        Some(k) => s.subrange(0, k),
        None => s,
    }
}

/// `s` without the copies of `c` at its start.
pub open spec fn drop_leading(s: Seq<char>, c: char) -> Seq<char>
    decreases s.len(),
{
    if s.len() > 0 && s[0] == c {
        drop_leading(s.drop_first(), c)
    } else {
        s
    }
}

/// `s` up to the first quote, apostrophe or closing parenthesis.
pub open spec fn before_quote_or_paren(s: Seq<char>) -> Seq<char>
    decreases s.len(),
{
    if s.len() == 0 {
        s
    } else if s[0] == '"' || s[0] == '\'' || s[0] == ')' {
        Seq::empty()
    } else {
        seq![s[0]] + before_quote_or_paren(s.drop_first())
    }
}

/// The module names that `import a.b, c` names: each part's text before its
/// first dot, trimmed, blank ones dropped.
pub open spec fn import_list(parts: Seq<Seq<char>>) -> Seq<Seq<char>>
    decreases parts.len(),
{
    if parts.len() == 0 {
        Seq::empty()
    } else {
        let rest = import_list(parts.drop_last());
        let m = trim_spec(before_char(trim_spec(parts.last()), '.'));
        if m.len() == 0 {
            rest
        } else {
            rest.push(m)
        }
    }
}

/// The modules that a source line imports: `use crate::m::...` (Rust),
/// `from m...` and `import m, n` (Python), `require("m/...")` (JavaScript,
/// package imports only).
pub open spec fn import_tokens_spec(line: Seq<char>) -> Seq<Seq<char>> {
    let t = trim_spec(line);
    let use_first = before_seq(t.subrange(11, t.len() as int), "::"@);
    if seq_starts_with(t, "use crate::"@) && use_first.len() > 0 {
        seq![trim_spec(use_first)]
    } else if seq_starts_with(t, "from "@) {
        seq![trim_spec(before_char(t.subrange(5, t.len() as int), '.'))]
    } else if seq_starts_with(t, "import "@) {
        import_list(split_on(t.subrange(7, t.len() as int), ','))
    } else {
        match first_occurrence(t, "require("@, 0) {
            Some(k) => {
                let rhs = t.subrange(k + 8, t.len() as int);
                let clean = before_quote_or_paren(drop_leading(drop_leading(trim_spec(rhs), '"'), '\''));
                let first = before_char(clean, '/');
                if first.len() > 0 && first[0] != '.' {
                    seq![first]
                } else {
                    Seq::empty()
                }
            },
            None => Seq::empty(),
        }
    }
}

fn before_char_vec(s: &Vec<char>, c: char) -> (out: Vec<char>)
    ensures
        out@ == before_char(s@, c),
{
    let mut i: usize = 0;
    while i < s.len()
        invariant
            i <= s@.len(),
            first_index(s@, c, 0) == first_index(s@, c, i as int),
        decreases s@.len() - i,
    {
        if s[i] == c {
            return slice_vec(s.as_slice(), 0, i);
        }
        i = i + 1;
    }
    slice_vec(s.as_slice(), 0, s.len())
}

fn before_seq_vec(s: &Vec<char>, p: &str) -> (out: Vec<char>)
    ensures
        out@ == before_seq(s@, p@),
{
    let n = s.len();
    match crate::checks::find_seq(s, p) {
        Some(k) => {
            proof {
                crate::checks::lemma_first_occurrence(s@, p@, 0);
            }
            slice_vec(s.as_slice(), 0, k)
        },
        None => {
            proof {
                assert(s@.subrange(0, s@.len() as int) =~= s@);
            }
            slice_vec(s.as_slice(), 0, s.len())
        },
    }
}

fn drop_leading_vec(s: &Vec<char>, c: char) -> (out: Vec<char>)
    ensures
        out@ == drop_leading(s@, c),
{
    let mut i: usize = 0;
    proof {
        assert(s@.subrange(0, s@.len() as int) =~= s@);
    }
    while i < s.len() && s[i] == c
        invariant
            i <= s@.len(),
            drop_leading(s@, c) == drop_leading(s@.subrange(i as int, s@.len() as int), c),
        decreases s@.len() - i,
    {
        proof {
            let t = s@.subrange(i as int, s@.len() as int);
            assert(t.drop_first() =~= s@.subrange(i + 1, s@.len() as int));
        }
        i = i + 1;
    }
    proof {
        let t = s@.subrange(i as int, s@.len() as int);
        if t.len() > 0 {
            assert(t[0] == s@[i as int]);
        }
    }
    slice_vec(s.as_slice(), i, s.len())
}

fn before_quote_or_paren_vec(s: &Vec<char>) -> (out: Vec<char>)
    ensures
        out@ == before_quote_or_paren(s@),
{
    let mut i: usize = 0;
    proof {
        assert(s@.subrange(0, s@.len() as int) =~= s@);
        assert(s@.subrange(0, 0) =~= Seq::<char>::empty());
    }
    while i < s.len() && !(s[i] == '"' || s[i] == '\'' || s[i] == ')')
        invariant
            i <= s@.len(),
            before_quote_or_paren(s@) == s@.subrange(0, i as int) + before_quote_or_paren(s@.subrange(i as int, s@.len() as int)),
        decreases s@.len() - i,
    {
        proof {
            let t = s@.subrange(i as int, s@.len() as int);
            assert(t.drop_first() =~= s@.subrange(i + 1, s@.len() as int));
            assert(t[0] == s@[i as int]);
            assert(s@.subrange(0, i + 1) =~= s@.subrange(0, i as int) + seq![s@[i as int]]);
        }
        i = i + 1;
    }
    proof {
        let t = s@.subrange(i as int, s@.len() as int);
        if t.len() > 0 {
            assert(t[0] == s@[i as int]);
        }
        assert(s@.subrange(0, i as int) + Seq::<char>::empty() =~= s@.subrange(0, i as int));
    }
    slice_vec(s.as_slice(), 0, i)
}

fn import_list_of(rest: &str) -> (out: Vec<String>)
    ensures
        views(out@) == import_list(split_on(rest@, ',')),
{
    let ghost pieces = split_on(rest@, ',');
    let raw = split_pieces(rest);
    let mut out: Vec<String> = Vec::new();
    let mut i: usize = 0;
    proof {
        assert(pieces.take(0) =~= Seq::<Seq<char>>::empty());
        assert(views(out@) =~= Seq::<Seq<char>>::empty());
    }
    while i < raw.len()
        invariant
            pieces == split_on(rest@, ','),
            raw@.len() == pieces.len(),
            forall|k: int| 0 <= k < pieces.len() ==> (#[trigger] raw@[k])@ == pieces[k],
            i <= pieces.len(),
            views(out@) == import_list(pieces.take(i as int)),
        decreases pieces.len() - i,
    {
        proof {
            assert(pieces.take(i + 1).drop_last() =~= pieces.take(i as int));
            assert(pieces.take(i + 1).last() == pieces[i as int]);
        }
        let t = trim_chars(raw[i].as_slice());
        let b = before_char_vec(&t, '.');
        let m = trim_chars(b.as_slice());
        if m.len() > 0 {
            let ghost before = views(out@);
            out.push(string_of(m.as_slice()));
            proof {
                assert(views(out@) =~= before.push(m@));
            }
        }
        i = i + 1;
    }
    proof {
        assert(pieces.take(pieces.len() as int) =~= pieces);
    }
    out
}

fn split_pieces(s: &str) -> (out: Vec<Vec<char>>)
    ensures
        out@.len() == split_on(s@, ',').len(),
        forall|k: int| 0 <= k < out@.len() ==> (#[trigger] out@[k])@ == split_on(s@, ',')[k],
{
    let cs = chars_of(s);
    let mut out: Vec<Vec<char>> = Vec::new();
    let mut cur: Vec<char> = Vec::new();
    let mut i: usize = 0;
    proof {
        assert(cs@.take(0) =~= Seq::<char>::empty());
    }
    while i < cs.len()
        invariant
            cs@ == s@,
            i <= cs@.len(),
            out@.len() + 1 == split_on(cs@.take(i as int), ',').len(),
            forall|k: int| 0 <= k < out@.len() ==> (#[trigger] out@[k])@ == split_on(cs@.take(i as int), ',')[k],
            cur@ == split_on(cs@.take(i as int), ',').last(),
        decreases cs@.len() - i,
    {
        proof {
            assert(cs@.take(i + 1).drop_last() =~= cs@.take(i as int));
            assert(cs@.take(i + 1).last() == cs@[i as int]);
        }
        if cs[i] == ',' {
            let done = cur;
            out.push(done);
            cur = Vec::new();
            proof {
                assert(cur@ =~= Seq::<char>::empty());
            }
        } else {
            cur.push(cs[i]);
        }
        i = i + 1;
    }
    proof {
        assert(cs@.take(cs@.len() as int) =~= cs@);
    }
    out.push(cur);
    out
}

/// The modules that a source line imports (see `import_tokens_spec`).
pub fn import_tokens(line: &str) -> (out: Vec<String>)
    ensures
        views(out@) == import_tokens_spec(line@),
{
    let lc = chars_of(line);
    let t = trim_chars(lc.as_slice());
    let ts = string_of(t.as_slice());
    proof {
        reveal_strlit("use crate::");
        reveal_strlit("from ");
        reveal_strlit("import ");
        reveal_strlit("require(");
    }
    if crate::text::str_starts_with(ts.as_str(), "use crate::") {
        let rest = slice_vec(t.as_slice(), 11, t.len());
        let first = before_seq_vec(&rest, "::");
        if first.len() > 0 {
            let f = trim_chars(first.as_slice());
            let mut out: Vec<String> = Vec::new();
            out.push(string_of(f.as_slice()));
            proof {
                assert(views(out@) =~= seq![f@]);
            }
            return out;
        }
    }
    proof {
        if seq_starts_with(t@, "use crate::"@) {
            assert(t@.len() >= 11);
        }
    }
    if crate::text::str_starts_with(ts.as_str(), "from ") {
        let rest = slice_vec(t.as_slice(), 5, t.len());
        let b = before_char_vec(&rest, '.');
        let f = trim_chars(b.as_slice());
        let mut out: Vec<String> = Vec::new();
        out.push(string_of(f.as_slice()));
        proof {
            assert(views(out@) =~= seq![f@]);
        }
        return out;
    }
    if crate::text::str_starts_with(ts.as_str(), "import ") {
        let rest = slice_vec(t.as_slice(), 7, t.len());
        let rs = string_of(rest.as_slice());
        return import_list_of(rs.as_str());
    }
    let n = t.len();
    let k = match crate::checks::find_seq(&t, "require(") {
        Some(k) => k,
        None => return Vec::new(),
    };
    proof {
        crate::checks::lemma_first_occurrence(t@, "require("@, 0);
    }
    let rhs = slice_vec(t.as_slice(), k + 8, n);
    let r1 = trim_chars(rhs.as_slice());
    let r2 = drop_leading_vec(&r1, '"');
    let r3 = drop_leading_vec(&r2, '\'');
    let clean = before_quote_or_paren_vec(&r3);
    let first = before_char_vec(&clean, '/');
    let mut out: Vec<String> = Vec::new();
    if first.len() > 0 && first[0] != '.' {
        out.push(string_of(first.as_slice()));
        proof {
            assert(views(out@) =~= seq![first@]);
        }
    } else {
        proof {
            assert(views(out@) =~= Seq::<Seq<char>>::empty());
        }
    }
    out
}

/// The first layer, from `i` on, that lists `token` among its module
/// prefixes (ASCII case aside).
pub open spec fn layer_for_token_from(layers: Seq<ArchLayerConfigV2>, token: Seq<char>, i: int) -> Option<int>
    decreases layers.len() - i,
{
    if i < 0 || i >= layers.len() {
        None
    } else if exists|k: int|
        0 <= k < layers[i].module_prefixes@.len() && crate::text::eq_ignore_ascii_case_spec(
            #[trigger] layers[i].module_prefixes@[k]@,
            token,
        ) {
        Some(i)
    } else {
        layer_for_token_from(layers, token, i + 1)
    }
}

/// The id of the layer that a module name belongs to.
pub fn layer_for_token(layers: &Vec<ArchLayerConfigV2>, token: &str) -> (r: Option<String>)
    ensures
        match layer_for_token_from(layers@, token@, 0) {
            None => r is None,
            Some(i) => r is Some && r.unwrap()@ == layers@[i].id@,
        },
{
    let mut i: usize = 0;
    while i < layers.len()
        invariant
            i <= layers@.len(),
            layer_for_token_from(layers@, token@, 0) == layer_for_token_from(layers@, token@, i as int),
        decreases layers@.len() - i,
    {
        let layer = &layers[i];
        let mut k: usize = 0;
        while k < layer.module_prefixes.len()
            invariant
                i < layers@.len(),
                layer == &layers@[i as int],
                layer_for_token_from(layers@, token@, 0) == layer_for_token_from(layers@, token@, i as int),
                k <= layer.module_prefixes@.len(),
                forall|j: int|
                    0 <= j < k ==> !crate::text::eq_ignore_ascii_case_spec(
                        #[trigger] layer.module_prefixes@[j]@,
                        token@,
                    ),
            decreases layer.module_prefixes@.len() - k,
        {
            if crate::text::str_eq_ignore_ascii_case(layer.module_prefixes[k].as_str(), token) {
                proof {
                    assert(layers@[i as int] == *layer);
                }
                return Some(layer.id.clone());
            }
            k = k + 1;
        }
        proof {
            assert(layers@[i as int] == *layer);
        }
        i = i + 1;
    }
    None
}

/// The layer's globs build into a glob set.
pub open spec fn layer_globs_parse(layer: ArchLayerConfigV2) -> bool {
    crate::boundary::globset_error(crate::csv::views(layer.include_globs@)) is None
}

/// A glob of the layer matches the path.
pub open spec fn layer_globs_match(layer: ArchLayerConfigV2, path: Seq<char>) -> bool {
    crate::patterns::any_glob_matches(crate::csv::views(layer.include_globs@), path)
}

/// The first layer, from `i` on, whose globs build into a set that matches the path.
pub open spec fn layer_of_path_from(layers: Seq<ArchLayerConfigV2>, path: Seq<char>, i: int) -> Option<int>
    decreases layers.len() - i,
{
    if i < 0 || i >= layers.len() {
        None
    } else if layers[i].include_globs@.len() > 0 && layer_globs_parse(layers[i]) && layer_globs_match(layers[i], path) {
        Some(i)
    } else {
        layer_of_path_from(layers, path, i + 1)
    }
}

/// Whether the layer's globs build into a glob set that matches the path.
fn layer_matches(layer: &ArchLayerConfigV2, path: &str) -> (b: bool)
    ensures
        b == (layer_globs_parse(*layer) && layer_globs_match(*layer, path@)),
{
    match crate::boundary::build_globset(&layer.include_globs) {
        Ok(set) => crate::patterns::globset_matches(&set, path),
        Err(_) => false,
    }
}

/// The id of the first layer whose globs match the path; a layer whose globs
/// do not build into a set is passed over.
pub fn layer_of_path(layers: &Vec<ArchLayerConfigV2>, path: &str) -> (r: Option<String>)
    ensures
        match layer_of_path_from(layers@, path@, 0) {
            None => r is None,
            Some(i) => r is Some && r.unwrap()@ == layers@[i].id@,
        },
{
    let mut i: usize = 0;
    while i < layers.len()
        invariant
            i <= layers@.len(),
            layer_of_path_from(layers@, path@, 0) == layer_of_path_from(layers@, path@, i as int),
        decreases layers@.len() - i,
    {
        if layers[i].include_globs.len() > 0 && layer_matches(&layers[i], path) {
            return Some(layers[i].id.clone());
        }
        i = i + 1;
    }
    None
}

/// The layers that the lines of a file in layer `src` import from, in order,
/// one per import of another layer.
pub open spec fn text_edges(layers: Seq<ArchLayerConfigV2>, src: Seq<char>, lines: Seq<Seq<char>>) -> Seq<Seq<char>>
    decreases lines.len(),
{
    if lines.len() == 0 {
        Seq::empty()
    } else {
        text_edges(layers, src, lines.drop_last()) + token_edges(layers, src, import_tokens_spec(lines.last()))
    }
}

pub open spec fn token_edges(layers: Seq<ArchLayerConfigV2>, src: Seq<char>, tokens: Seq<Seq<char>>) -> Seq<Seq<char>>
    decreases tokens.len(),
{
    if tokens.len() == 0 {
        Seq::empty()
    } else {
        let rest = token_edges(layers, src, tokens.drop_last());
        match layer_for_token_from(layers, tokens.last(), 0) {
            Some(i) => if layers[i].id@ == src {
                rest
            } else {
                rest.push(layers[i].id@)
            },
            None => rest,
        }
    }
}

fn token_layers(layers: &Vec<ArchLayerConfigV2>, src: &str, tokens: &Vec<String>, out: &mut Vec<String>)
    ensures
        views(final(out)@) == views(old(out)@) + token_edges(layers@, src@, views(tokens@)),
{
    let ghost start = views(out@);
    let mut i: usize = 0;
    proof {
        assert(views(tokens@).take(0) =~= Seq::<Seq<char>>::empty());
        assert(start + token_edges(layers@, src@, views(tokens@).take(0)) =~= start);
    }
    while i < tokens.len()
        invariant
            i <= tokens@.len(),
            views(out@) == start + token_edges(layers@, src@, views(tokens@).take(i as int)),
        decreases tokens@.len() - i,
    {
        proof {
            assert(views(tokens@).take(i + 1).drop_last() =~= views(tokens@).take(i as int));
            assert(views(tokens@).take(i + 1).last() == tokens@[i as int]@);
        }
        match layer_for_token(layers, tokens[i].as_str()) {
            Some(dst) => {
                if !str_eq(dst.as_str(), src) {
                    let ghost before = views(out@);
                    out.push(dst);
                    proof {
                        assert(views(out@) =~= before.push(out@.last()@));
                    }
                }
            },
            None => {},
        }
        i = i + 1;
    }
    proof {
        assert(views(tokens@).take(tokens@.len() as int) =~= views(tokens@));
    }
}

/// The layer edges that a file's text adds (see `text_edges`), over the
/// text's lines as `str::lines` gives them.
pub fn file_layer_edges(layers: &Vec<ArchLayerConfigV2>, src: &str, text: &str) -> (out: Vec<String>)
    ensures
        views(out@) == text_edges(layers@, src@, crate::code_blocks::std_lines(text@)),
{
    let lines = crate::code_blocks::lines_of(text);
    let ghost ls = views(lines@);
    let mut out: Vec<String> = Vec::new();
    let mut i: usize = 0;
    proof {
        assert(ls.take(0) =~= Seq::<Seq<char>>::empty());
        assert(views(out@) =~= Seq::<Seq<char>>::empty());
    }
    while i < lines.len()
        invariant
            ls == views(lines@),
            ls == crate::code_blocks::std_lines(text@),
            i <= ls.len(),
            views(out@) == text_edges(layers@, src@, ls.take(i as int)),
        decreases ls.len() - i,
    {
        proof {
            assert(ls.take(i + 1).drop_last() =~= ls.take(i as int));
            assert(ls.take(i + 1).last() == lines@[i as int]@);
        }
        let tokens = import_tokens(lines[i].as_str());
        token_layers(layers, src, &tokens, &mut out);
        i = i + 1;
    }
    proof {
        assert(ls.take(ls.len() as int) =~= ls);
    }
    out
}

pub(crate) fn split_lines_of(cs: &Vec<char>) -> (out: Vec<Vec<char>>)
    ensures
        out@.len() == split_on(cs@, '\n').len(),
        forall|k: int| 0 <= k < out@.len() ==> (#[trigger] out@[k])@ == split_on(cs@, '\n')[k],
{
    let mut out: Vec<Vec<char>> = Vec::new();
    let mut cur: Vec<char> = Vec::new();
    let mut i: usize = 0;
    proof {
        assert(cs@.take(0) =~= Seq::<char>::empty());
    }
    while i < cs.len()
        invariant
            i <= cs@.len(),
            out@.len() + 1 == split_on(cs@.take(i as int), '\n').len(),
            forall|k: int| 0 <= k < out@.len() ==> (#[trigger] out@[k])@ == split_on(cs@.take(i as int), '\n')[k],
            cur@ == split_on(cs@.take(i as int), '\n').last(),
        decreases cs@.len() - i,
    {
        proof {
            assert(cs@.take(i + 1).drop_last() =~= cs@.take(i as int));
            assert(cs@.take(i + 1).last() == cs@[i as int]);
        }
        if cs[i] == '\n' {
            let done = cur;
            out.push(done);
            cur = Vec::new();
            proof {
                assert(cur@ =~= Seq::<char>::empty());
            }
        } else {
            cur.push(cs[i]);
        }
        i = i + 1;
    }
    proof {
        assert(cs@.take(cs@.len() as int) =~= cs@);
    }
    out.push(cur);
    out
}

/// The edge `(from, to)` was found.
pub open spec fn has_edge(edges: Seq<(String, String)>, from: Seq<char>, to: Seq<char>) -> bool {
    exists|k: int| 0 <= k < edges.len() && (#[trigger] edges[k]).0@ == from && edges[k].1@ == to
}

pub open spec fn rule_violation_view(check_id: Seq<char>, from: Seq<char>, to: Seq<char>) -> ViolationView {
    ViolationView {
        code: "arch_layers.rule_violation"@,
        message: "forbidden layer edge detected: "@ + from + " -> "@ + to,
        path: None,
        details: Some(
            seq![
                ("check_id"@, DetailValueView::Str(check_id)),
                ("from_layer"@, DetailValueView::Str(from)),
                ("to_layer"@, DetailValueView::Str(to)),
            ],
        ),
        tier: ViolationTier::Blocking,
    }
}

/// The forbidden layers that the rule's layer reaches, sorted, each once.
pub open spec fn forbidden_targets(edges: Seq<(String, String)>, rule: ArchLayerRuleConfigV2, to: Seq<char>) -> bool {
    has_edge(edges, rule.from_layer@, to) && views(rule.deny_to_layers@).contains(to)
}

/// `out` reports, in order, the strictly sorted `targets`: the forbidden
/// layers that the rule's layer reaches.
pub open spec fn targets_fit(
    targets: Seq<Seq<char>>,
    edges: Seq<(String, String)>,
    rule: ArchLayerRuleConfigV2,
    check_id: Seq<char>,
    out: Seq<Violation>,
) -> bool {
    &&& crate::order::strictly_sorted(targets)
    &&& forall|t: Seq<char>| #[trigger] targets.contains(t) <==> forbidden_targets(edges, rule, t)
    &&& out.len() == targets.len()
    &&& forall|j: int| 0 <= j < out.len() ==> violation_view(#[trigger] out[j]) == rule_violation_view(check_id, rule.from_layer@, targets[j])
}

/// The layers, in edge order, that the rule's layer reaches and the rule denies.
pub open spec fn rule_target_list(edges: Seq<(String, String)>, rule: ArchLayerRuleConfigV2) -> Seq<Seq<char>>
    decreases edges.len(),
{
    if edges.len() == 0 {
        Seq::empty()
    } else {
        rule_target_list(edges.drop_last(), rule) + if edges.last().0@ == rule.from_layer@ && views(
            rule.deny_to_layers@,
        ).contains(edges.last().1@) {
            seq![edges.last().1@]
        } else {
            Seq::empty()
        }
    }
}

proof fn lemma_rule_target_list(edges: Seq<(String, String)>, rule: ArchLayerRuleConfigV2, t: Seq<char>)
    ensures
        rule_target_list(edges, rule).contains(t) <==> exists|j: int|
            0 <= j < edges.len() && (#[trigger] edges[j]).0@ == rule.from_layer@ && edges[j].1@ == t && views(
                rule.deny_to_layers@,
            ).contains(t),
    decreases edges.len(),
{
    if edges.len() > 0 {
        let d = edges.drop_last();
        lemma_rule_target_list(d, rule, t);
        let prev = rule_target_list(d, rule);
        let last_hit = edges.last().0@ == rule.from_layer@ && views(rule.deny_to_layers@).contains(edges.last().1@);
        let tail = if last_hit { seq![edges.last().1@] } else { Seq::<Seq<char>>::empty() };
        assert(rule_target_list(edges, rule) == prev + tail);
        if rule_target_list(edges, rule).contains(t) {
            let i = choose|i: int| 0 <= i < (prev + tail).len() && (prev + tail)[i] == t;
            if i < prev.len() {
                assert(prev.contains(t)) by {
                    assert(prev[i] == t);
                }
                let j = choose|j: int|
                    0 <= j < d.len() && (#[trigger] d[j]).0@ == rule.from_layer@ && d[j].1@ == t && views(
                        rule.deny_to_layers@,
                    ).contains(t);
                assert(edges[j] == d[j]);
            } else {
                assert(edges[edges.len() - 1] == edges.last());
            }
        }
        if exists|j: int|
            0 <= j < edges.len() && (#[trigger] edges[j]).0@ == rule.from_layer@ && edges[j].1@ == t && views(
                rule.deny_to_layers@,
            ).contains(t) {
            let j = choose|j: int|
                0 <= j < edges.len() && (#[trigger] edges[j]).0@ == rule.from_layer@ && edges[j].1@ == t && views(
                    rule.deny_to_layers@,
                ).contains(t);
            if j < edges.len() - 1 {
                assert(d[j] == edges[j]);
                assert(prev.contains(t));
                let i = choose|i: int| 0 <= i < prev.len() && prev[i] == t;
                assert((prev + tail)[i] == t);
            } else {
                assert((prev + tail)[prev.len() as int] == t);
            }
        }
    }
}

/// The violations for the given target layers of a rule, in order.
pub open spec fn rule_violation_views(check_id: Seq<char>, from: Seq<char>, targets: Seq<Seq<char>>) -> Seq<ViolationView> {
    targets.map_values(|t: Seq<char>| rule_violation_view(check_id, from, t))
}

/// What one rule reports: each forbidden layer its layer reaches, in
/// ascending order, once.
pub open spec fn rule_report(check_id: Seq<char>, edges: Seq<(String, String)>, rule: ArchLayerRuleConfigV2) -> Seq<ViolationView> {
    rule_violation_views(check_id, rule.from_layer@, crate::order::sorted_distinct(rule_target_list(edges, rule)))
}

/// What the rules report, rule by rule.
pub open spec fn forbidden_report(check_id: Seq<char>, edges: Seq<(String, String)>, rules: Seq<ArchLayerRuleConfigV2>) -> Seq<
    ViolationView,
>
    decreases rules.len(),
{
    if rules.len() == 0 {
        Seq::empty()
    } else {
        forbidden_report(check_id, edges, rules.drop_last()) + rule_report(check_id, edges, rules.last())
    }
}

/// The violations of one rule: one per forbidden layer reached, in layer order.
fn rule_violations(check_id: &str, edges: &Vec<(String, String)>, rule: &ArchLayerRuleConfigV2) -> (out: Vec<Violation>)
    ensures
        exists|targets: Seq<Seq<char>>| #[trigger] targets_fit(targets, edges@, *rule, check_id@, out@),
        violation_views(out@) == rule_report(check_id@, edges@, *rule),
{
    let mut targets: Vec<String> = Vec::new();
    let mut k: usize = 0;
    while k < edges.len()
        invariant
            k <= edges@.len(),
            crate::order::strictly_sorted(views(targets@)),
            forall|t: Seq<char>|
                views(targets@).contains(t) <==> exists|j: int|
                    0 <= j < k && (#[trigger] edges@[j]).0@ == rule.from_layer@ && edges@[j].1@ == t && views(
                        rule.deny_to_layers@,
                    ).contains(t),
        decreases edges@.len() - k,
    {
        let ghost before = views(targets@);
        if str_eq(edges[k].0.as_str(), rule.from_layer.as_str()) && crate::plugins::contains_string(
            &rule.deny_to_layers,
            edges[k].1.as_str(),
        ) {
            crate::order::insert_sorted_unique(&mut targets, edges[k].1.clone());
        }
        proof {
            assert forall|t: Seq<char>|
                views(targets@).contains(t) <==> exists|j: int|
                    0 <= j < k + 1 && (#[trigger] edges@[j]).0@ == rule.from_layer@ && edges@[j].1@ == t && views(
                        rule.deny_to_layers@,
                    ).contains(t) by {
                assert(views(targets@).to_set().contains(t) == views(targets@).contains(t));
                assert(before.to_set().contains(t) == before.contains(t));
                if t == edges@[k as int].1@ && edges@[k as int].0@ == rule.from_layer@ && views(rule.deny_to_layers@).contains(t) {
                    assert(views(targets@).to_set().contains(t));
                }
            }
        }
        k = k + 1;
    }
    let mut out: Vec<Violation> = Vec::new();
    let mut i: usize = 0;
    while i < targets.len()
        invariant
            i <= targets@.len(),
            violation_views(out@) == rule_violation_views(check_id@, rule.from_layer@, views(targets@).take(i as int)),
        decreases targets@.len() - i,
    {
        let a = concat("forbidden layer edge detected: ", rule.from_layer.as_str());
        let b = concat(a.as_str(), " -> ");
        let m = concat(b.as_str(), targets[i].as_str());
        let mut fields: Vec<(String, DetailValue)> = Vec::new();
        fields.push((String::from_str("check_id"), DetailValue::Str(String::from_str(check_id))));
        fields.push((String::from_str("from_layer"), DetailValue::Str(rule.from_layer.clone())));
        fields.push((String::from_str("to_layer"), DetailValue::Str(targets[i].clone())));
        let v = Violation::blocking(String::from_str("arch_layers.rule_violation"), m, None, Some(Details { fields }));
        proof {
            assert(crate::api::details_view(v.details).unwrap() =~= seq![
                ("check_id"@, DetailValueView::Str(check_id@)),
                ("from_layer"@, DetailValueView::Str(rule.from_layer@)),
                ("to_layer"@, DetailValueView::Str(targets@[i as int]@)),
            ]);
        }
        let ghost before = violation_views(out@);
        out.push(v);
        proof {
            assert(violation_views(out@) =~= before.push(violation_view(v)));
            assert(views(targets@).take(i + 1) =~= views(targets@).take(i as int).push(targets@[i as int]@));
        }
        i = i + 1;
    }
    proof {
        assert(views(targets@).take(targets@.len() as int) =~= views(targets@));
        assert forall|t: Seq<char>| #[trigger] views(targets@).contains(t) <==> forbidden_targets(edges@, *rule, t) by {}
        assert(violation_views(out@).len() == out@.len());
        assert(out@.len() == views(targets@).len());
        assert forall|j: int| 0 <= j < out@.len() implies violation_view(#[trigger] out@[j]) == rule_violation_view(check_id@, rule.from_layer@, views(targets@)[j]) by {
            assert(violation_views(out@)[j] == violation_view(out@[j]));
        }
        assert(targets_fit(views(targets@), edges@, *rule, check_id@, out@));
        assert(views(targets@).to_set() =~= rule_target_list(edges@, *rule).to_set()) by {
            assert forall|t: Seq<char>| views(targets@).to_set().contains(t) == rule_target_list(edges@, *rule).to_set().contains(t) by {
                lemma_rule_target_list(edges@, *rule, t);
            }
        }
        crate::order::lemma_sorted_distinct(rule_target_list(edges@, *rule), views(targets@));
    }
    out
}

/// `v` reports an edge that rule `rules[r]` forbids.
pub open spec fn reports_forbidden_edge(
    v: ViolationView,
    edges: Seq<(String, String)>,
    rules: Seq<ArchLayerRuleConfigV2>,
    check_id: Seq<char>,
) -> bool {
    exists|r: int, t: Seq<char>|
        0 <= r < rules.len() && #[trigger] forbidden_targets(edges, rules[r], t) && v == rule_violation_view(
            check_id,
            rules[r].from_layer@,
            t,
        )
}

/// The forbidden-edge violations of the rules, rule by rule (see
/// `forbidden_report`): each reports an edge that a rule forbids, and each
/// forbidden edge is reported.
pub fn forbidden_edge_violations(check_id: &str, edges: &Vec<(String, String)>, rules: &Vec<ArchLayerRuleConfigV2>) -> (out: Vec<
    Violation,
>)
    ensures
        violation_views(out@) == forbidden_report(check_id@, edges@, rules@),
        forall|i: int|
            0 <= i < out@.len() ==> reports_forbidden_edge(violation_view(#[trigger] out@[i]), edges@, rules@, check_id@),
        forall|r: int, t: Seq<char>|
            0 <= r < rules@.len() && #[trigger] forbidden_targets(edges@, rules@[r], t) ==> violation_views(out@).contains(
                rule_violation_view(check_id@, rules@[r].from_layer@, t),
            ),
{
    let mut out: Vec<Violation> = Vec::new();
    let mut r: usize = 0;
    proof {
        assert(rules@.take(0) =~= Seq::<ArchLayerRuleConfigV2>::empty());
        assert(violation_views(out@) =~= Seq::<ViolationView>::empty());
    }
    while r < rules.len()
        invariant
            r <= rules@.len(),
            violation_views(out@) == forbidden_report(check_id@, edges@, rules@.take(r as int)),
            forall|i: int|
                0 <= i < out@.len() ==> reports_forbidden_edge(violation_view(#[trigger] out@[i]), edges@, rules@, check_id@),
            forall|rr: int, t: Seq<char>|
                0 <= rr < r && #[trigger] forbidden_targets(edges@, rules@[rr], t) ==> violation_views(out@).contains(
                    rule_violation_view(check_id@, rules@[rr].from_layer@, t),
                ),
        decreases rules@.len() - r,
    {
        let mut vs = rule_violations(check_id, edges, &rules[r]);
        let ghost before = out@;
        let ghost added = vs@;
        let ghost targets = choose|targets: Seq<Seq<char>>| #[trigger] targets_fit(targets, edges@, rules@[r as int], check_id@, added);
        out.append(&mut vs);
        proof {
            assert(out@ == before + added);
            assert(rules@.take(r + 1).drop_last() =~= rules@.take(r as int));
            assert(rules@.take(r + 1).last() == rules@[r as int]);
            assert(violation_views(out@) =~= violation_views(before) + violation_views(added));
            assert forall|i: int| 0 <= i < out@.len() implies reports_forbidden_edge(violation_view(#[trigger] out@[i]), edges@, rules@, check_id@) by {
                if i >= before.len() {
                    let j = i - before.len();
                    assert(out@[i] == added[j]);
                    assert(targets.contains(targets[j]));
                    assert(forbidden_targets(edges@, rules@[r as int], targets[j]));
                } else {
                    assert(out@[i] == before[i]);
                }
            }
            assert forall|rr: int, t: Seq<char>|
                0 <= rr < r + 1 && #[trigger] forbidden_targets(edges@, rules@[rr], t) implies violation_views(out@).contains(
                    rule_violation_view(check_id@, rules@[rr].from_layer@, t),
                ) by {
                if rr < r {
                    let k = choose|k: int| 0 <= k < violation_views(before).len() && violation_views(before)[k] == rule_violation_view(check_id@, rules@[rr].from_layer@, t);
                    assert(violation_views(out@)[k] == violation_view(out@[k]));
                    assert(out@[k] == before[k]);
                } else {
                    assert(targets.contains(t));
                    let j = choose|j: int| 0 <= j < targets.len() && targets[j] == t;
                    assert(out@[before.len() + j] == added[j]);
                    assert(violation_views(out@)[before.len() + j] == violation_view(out@[before.len() + j]));
                }
            }
        }
        r = r + 1;
    }
    proof {
        assert(rules@.take(rules@.len() as int) =~= rules@);
    }
    out
}

proof fn lemma_token_edges_other(layers: Seq<ArchLayerConfigV2>, src: Seq<char>, tokens: Seq<Seq<char>>)
    ensures
        forall|k: int| 0 <= k < token_edges(layers, src, tokens).len() ==> #[trigger] token_edges(layers, src, tokens)[k] != src,
    decreases tokens.len(),
{
    if tokens.len() > 0 {
        lemma_token_edges_other(layers, src, tokens.drop_last());
        let rest = token_edges(layers, src, tokens.drop_last());
        let all = token_edges(layers, src, tokens);
        assert forall|k: int| 0 <= k < all.len() implies #[trigger] all[k] != src by {
            if k < rest.len() {
                assert(all[k] == rest[k]);
            }
        }
    }
}

/// A file's edges never lead back to its own layer.
proof fn lemma_text_edges_other(layers: Seq<ArchLayerConfigV2>, src: Seq<char>, lines: Seq<Seq<char>>)
    ensures
        forall|k: int| 0 <= k < text_edges(layers, src, lines).len() ==> #[trigger] text_edges(layers, src, lines)[k] != src,
    decreases lines.len(),
{
    if lines.len() > 0 {
        lemma_text_edges_other(layers, src, lines.drop_last());
        lemma_token_edges_other(layers, src, import_tokens_spec(lines.last()));
        let a = text_edges(layers, src, lines.drop_last());
        let b = token_edges(layers, src, import_tokens_spec(lines.last()));
        assert forall|k: int| 0 <= k < (a + b).len() implies #[trigger] (a + b)[k] != src by {
            if k < a.len() {
                assert((a + b)[k] == a[k]);
            } else {
                assert((a + b)[k] == b[k - a.len()]);
            }
        }
    }
}

/// The outcome of the architecture-layer check.
pub struct ArchLayersCheckResult {
    pub edges_total: usize,
    pub violations: Vec<Violation>,
}

/// The layer of a file the check reads: a code file's first matching layer.
pub open spec fn file_layer(layers: Seq<ArchLayerConfigV2>, rel: Seq<char>) -> Option<Seq<char>> {
    if crate::complexity::scanned(rel) {
        match layer_of_path_from(layers, rel, 0) {
            Some(i) => Some(layers[i].id@),
            None => None,
        }
    } else {
        None
    }
}

/// Scanning the files in order: the read failures of the files with a layer,
/// and the layer edges (from, to) their imports add, in order.
pub open spec fn layer_scan(layers: Seq<ArchLayerConfigV2>, files: Seq<(String, Result<String, String>)>) -> (
    Seq<ViolationView>,
    Seq<(Seq<char>, Seq<char>)>,
)
    decreases files.len(),
{
    if files.len() == 0 {
        (Seq::empty(), Seq::empty())
    } else {
        let prev = layer_scan(layers, files.drop_last());
        let f = files.last();
        match file_layer(layers, f.0@) {
            None => prev,
            Some(src) => match f.1 {
                Err(e) => (
                    prev.0.push(
                        ViolationView {
                            code: "arch_layers.read_failed"@,
                            message: "failed to read "@ + f.0@ + ": "@ + e@,
                            path: Some(f.0@),
                            details: None,
                            tier: ViolationTier::Blocking,
                        },
                    ),
                    prev.1,
                ),
                Ok(raw) => (
                    prev.0,
                    prev.1 + src_pairs(src, text_edges(layers, src, crate::code_blocks::std_lines(raw@))),
                ),
            },
        }
    }
}

pub open spec fn pair_views(edges: Seq<(String, String)>) -> Seq<(Seq<char>, Seq<char>)> {
    edges.map_values(|e: (String, String)| (e.0@, e.1@))
}

/// The edges from `src` to each of `targets`, in order.
pub open spec fn src_pairs(src: Seq<char>, targets: Seq<Seq<char>>) -> Seq<(Seq<char>, Seq<char>)> {
    targets.map_values(|d: Seq<char>| (src, d))
}

/// What the architecture-layer check gives for the edges found: the read
/// failures, the forbidden edges rule by rule, and then a cycle report where
/// the edges have a cycle (of two or more layers; some such cycle).
pub open spec fn layer_violations_fit(
    out: Seq<ViolationView>,
    failures: Seq<ViolationView>,
    edges: Seq<(String, String)>,
    cfg: ArchLayersCheckConfigV2,
) -> bool {
    let head = failures + forbidden_report(cfg.id@, edges, cfg.rules@);
    ||| out == head && (forall|c: Seq<Seq<char>>| #[trigger] crate::layer_graph::edge_cycle(edges, c) ==> c.len() <= 1)
    ||| out.len() == head.len() + 1 && out.take(head.len() as int) == head && crate::layer_graph::cycle_report(
        out.last(),
        edges,
        cfg.id@,
    )
}

fn push_src_edges(src: &String, dsts: Vec<String>, edges: &mut Vec<(String, String)>)
    ensures
        pair_views(final(edges)@) == pair_views(old(edges)@) + src_pairs(src@, views(dsts@)),
        final(edges)@.len() == old(edges)@.len() + dsts@.len(),
        forall|k: int| 0 <= k < old(edges)@.len() ==> #[trigger] final(edges)@[k] == old(edges)@[k],
        forall|k: int| 0 <= k < dsts@.len() ==> (#[trigger] final(edges)@[old(edges)@.len() + k]).0@ == src@
            && final(edges)@[old(edges)@.len() + k].1@ == dsts@[k]@,
{
    let ghost e0 = edges@;
    let mut i: usize = 0;
    while i < dsts.len()
        invariant
            i <= dsts@.len(),
            edges@.len() == e0.len() + i,
            forall|k: int| 0 <= k < e0.len() ==> #[trigger] edges@[k] == e0[k],
            forall|k: int| 0 <= k < i ==> (#[trigger] edges@[e0.len() + k]).0@ == src@ && edges@[e0.len() + k].1@
                == dsts@[k]@,
        decreases dsts@.len() - i,
    {
        edges.push((src.clone(), dsts[i].clone()));
        i = i + 1;
    }
    proof {
        assert(pair_views(edges@) =~= pair_views(e0) + src_pairs(src@, views(dsts@))) by {
            assert forall|k: int| 0 <= k < edges@.len() implies pair_views(edges@)[k] == (pair_views(e0) + src_pairs(
                src@,
                views(dsts@),
            ))[k] by {
                if k >= e0.len() {
                    assert(edges@[e0.len() + (k - e0.len())] == edges@[k]);
                }
            }
        }
    }
}

/// The architecture-layer check over the files that were found (or the error
/// of finding them), each with its text or the error of reading it: a check
/// without layers is invalid; else every code file with a layer is read and
/// its imports of other layers become edges (`edges_total` counts them all),
/// and the edges are held to the rules and searched for a cycle (see
/// `layer_violations_fit`).
pub fn run_arch_layers_check(
    cfg: &ArchLayersCheckConfigV2,
    files: Result<Vec<(String, Result<String, String>)>, String>,
) -> (r: ArchLayersCheckResult)
    ensures
        cfg.layers@.len() == 0 ==> r.edges_total == 0 && violation_views(r.violations@) == seq![
            ViolationView {
                code: "arch_layers.invalid_config"@,
                message: "arch_layers check id="@ + cfg.id@ + " has no layers"@,
                path: None,
                details: None,
                tier: ViolationTier::Blocking,
            },
        ],
        cfg.layers@.len() > 0 ==> match files {
            Err(msg) => r.edges_total == 0 && violation_views(r.violations@) == seq![
                ViolationView {
                    code: "arch_layers.check_failed"@,
                    message: "arch_layers check failed (id="@ + cfg.id@ + "): "@ + msg@,
                    path: None,
                    details: None,
                    tier: ViolationTier::Blocking,
                },
            ],
            Ok(fs) => {
                let scan = layer_scan(cfg.layers@, fs@);
                &&& r.edges_total == scan.1.len()
                &&& exists|edges: Seq<(String, String)>|
                    pair_views(edges) == scan.1 && #[trigger] layer_violations_fit(
                        violation_views(r.violations@),
                        scan.0,
                        edges,
                        *cfg,
                    )
            },
        },
{
    if cfg.layers.len() == 0 {
        let a = concat("arch_layers check id=", cfg.id.as_str());
        let m = concat(a.as_str(), " has no layers");
        let mut violations: Vec<Violation> = Vec::new();
        violations.push(Violation::blocking(String::from_str("arch_layers.invalid_config"), m, None, None));
        proof {
            assert(violation_views(violations@) =~= seq![
                ViolationView {
                    code: "arch_layers.invalid_config"@,
                    message: "arch_layers check id="@ + cfg.id@ + " has no layers"@,
                    path: None,
                    details: None,
                    tier: ViolationTier::Blocking,
                },
            ]);
        }
        return ArchLayersCheckResult { edges_total: 0, violations };
    }
    let fs = match files {
        Err(msg) => {
            let a = concat("arch_layers check failed (id=", cfg.id.as_str());
            let b = concat(a.as_str(), "): ");
            let m = concat(b.as_str(), msg.as_str());
            let mut violations: Vec<Violation> = Vec::new();
            violations.push(Violation::blocking(String::from_str("arch_layers.check_failed"), m, None, None));
            proof {
                assert(violation_views(violations@) =~= seq![
                    ViolationView {
                        code: "arch_layers.check_failed"@,
                        message: "arch_layers check failed (id="@ + cfg.id@ + "): "@ + msg@,
                        path: None,
                        details: None,
                        tier: ViolationTier::Blocking,
                    },
                ]);
            }
            return ArchLayersCheckResult { edges_total: 0, violations };
        },
        Ok(fs) => fs,
    };
    let mut violations: Vec<Violation> = Vec::new();
    let mut edges: Vec<(String, String)> = Vec::new();
    let mut i: usize = 0;
    proof {
        assert(fs@.take(0) =~= Seq::<(String, Result<String, String>)>::empty());
        assert(violation_views(violations@) =~= Seq::<ViolationView>::empty());
        assert(pair_views(edges@) =~= Seq::<(Seq<char>, Seq<char>)>::empty());
    }
    while i < fs.len()
        invariant
            i <= fs@.len(),
            violation_views(violations@) == layer_scan(cfg.layers@, fs@.take(i as int)).0,
            pair_views(edges@) == layer_scan(cfg.layers@, fs@.take(i as int)).1,
            forall|k: int| 0 <= k < edges@.len() ==> (#[trigger] edges@[k]).0@ != edges@[k].1@,
        decreases fs@.len() - i,
    {
        proof {
            assert(fs@.take(i + 1).drop_last() =~= fs@.take(i as int));
            assert(fs@.take(i + 1).last() == fs@[i as int]);
        }
        let ghost prev = layer_scan(cfg.layers@, fs@.take(i as int));
        let rel = &fs[i].0;
        let src = if crate::checks::is_probably_code_file(rel.as_str()) {
            layer_of_path(&cfg.layers, rel.as_str())
        } else {
            None
        };
        proof {
            assert(crate::cli::opt_view(src) == file_layer(cfg.layers@, rel@));
        }
        match src {
            None => {},
            Some(src) => match &fs[i].1 {
                Err(e) => {
                    let a = concat("failed to read ", rel.as_str());
                    let b = concat(a.as_str(), ": ");
                    let m = concat(b.as_str(), e.as_str());
                    violations.push(Violation::blocking(String::from_str("arch_layers.read_failed"), m, Some(rel.clone()), None));
                    proof {
                        assert(violation_views(violations@) =~= prev.0.push(
                            ViolationView {
                                code: "arch_layers.read_failed"@,
                                message: "failed to read "@ + rel@ + ": "@ + e@,
                                path: Some(rel@),
                                details: None,
                                tier: ViolationTier::Blocking,
                            },
                        ));
                    }
                },
                Ok(raw) => {
                    proof {
                        assert(fs@[i as int].1 matches Ok(x) && x == *raw);
                    }
                    let dsts = file_layer_edges(&cfg.layers, src.as_str(), raw.as_str());
                    proof {
                        lemma_text_edges_other(cfg.layers@, src@, crate::code_blocks::std_lines(raw@));
                    }
                    let ghost e0 = edges@;
                    let ghost dv = views(dsts@);
                    push_src_edges(&src, dsts, &mut edges);
                    proof {
                        assert forall|k: int| 0 <= k < edges@.len() implies (#[trigger] edges@[k]).0@ != edges@[k].1@ by {
                            if k >= e0.len() {
                                let j = k - e0.len();
                                assert(edges@[e0.len() + j] == edges@[k]);
                                assert(dv[j] != src@);
                            } else {
                                assert(edges@[k] == e0[k]);
                            }
                        }
                    }
                },
            },
        }
        i = i + 1;
    }
    proof {
        assert(fs@.take(fs@.len() as int) =~= fs@);
    }
    let edges_total = edges.len();
    let ghost failures = violation_views(violations@);
    let mut forbidden = forbidden_edge_violations(cfg.id.as_str(), &edges, &cfg.rules);
    violations.append(&mut forbidden);
    let ghost head = violation_views(violations@);
    proof {
        assert(head =~= failures + forbidden_report(cfg.id@, edges@, cfg.rules@));
    }
    match crate::layer_graph::cycle_violation(cfg.id.as_str(), &edges) {
        Some(v) => {
            violations.push(v);
            proof {
                assert(violation_views(violations@) =~= head.push(violation_view(v)));
                assert(violation_views(violations@).take(head.len() as int) =~= head);
                assert(layer_violations_fit(violation_views(violations@), failures, edges@, *cfg));
            }
        },
        None => {
            proof {
                assert forall|c: Seq<Seq<char>>| #[trigger] crate::layer_graph::edge_cycle(edges@, c) implies c.len() <= 1 by {
                    if exists|d: Seq<Seq<char>>| #[trigger] crate::layer_graph::edge_cycle(edges@, d) && d.len() <= 1 {
                        let d = choose|d: Seq<Seq<char>>| #[trigger] crate::layer_graph::edge_cycle(edges@, d) && d.len() <= 1;
                        assert(has_edge(edges@, d.last(), d[0]));
                        assert(d.last() == d[0]);
                        let k = choose|k: int| 0 <= k < edges@.len() && (#[trigger] edges@[k]).0@ == d.last() && edges@[k].1@ == d[0];
                        assert(pair_views(edges@)[k] == (edges@[k].0@, edges@[k].1@));
                    }
                }
                assert(layer_violations_fit(violation_views(violations@), failures, edges@, *cfg));
            }
        },
    }
    let ghost ev = edges@;
    let r = ArchLayersCheckResult { edges_total, violations };
    proof {
        let scan = layer_scan(cfg.layers@, fs@);
        assert(pair_views(ev) == scan.1);
        assert(failures == scan.0);
        assert(layer_violations_fit(violation_views(r.violations@), scan.0, ev, *cfg));
        assert(r.edges_total == scan.1.len());
    }
    r
}

} // verus!
