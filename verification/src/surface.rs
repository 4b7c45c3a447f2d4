//! Surface: the public surface items that rules find in the selected files,
//! one item per match (`path::rule:value`), counted against a limit.

use crate::api::{Violation, ViolationTier, ViolationView, violation_views};
use crate::boundary::{boundary_selects, build_globset, globs_or, globset_error};
use crate::code_blocks::{lines_of, std_lines};
use crate::config::{SurfaceCheckConfigV2, SurfaceRuleConfigV2};
use crate::csv::views;
use crate::order::sorted_distinct;
use crate::patterns::{CompiledGlobSet, CompiledRegex, any_glob_matches, capture_group, regex_captures, regex_new_error};
use crate::text::{chars_of, concat, decimal_spec, string_of, trim_spec, trim_start_spec, u64_to_string};
use vstd::prelude::*;

verus! {

/// The outcome of the surface check.
#[derive(Debug)]
pub struct SurfaceCheckResult {
    pub violations: Vec<Violation>,
    pub files_scanned: usize,
    pub files_universe: usize,
    pub items_total: usize,
    pub max_items: usize,
    /// The items found, sorted, each once.
    pub current_items: Vec<String>,
}

/// A rule's name in the items: its description trimmed, or `ruleN` by its
/// place where it has none (or only white space).
pub open spec fn rule_desc(r: SurfaceRuleConfigV2, idx: nat) -> Seq<char> {
    match r.description {
        Some(d) => if trim_spec(d@).len() > 0 {
            trim_spec(d@)
        } else {
            "rule"@ + decimal_spec(idx)
        },
        None => "rule"@ + decimal_spec(idx),
    }
}

/// A compiled rule as contracts see it: pattern, name, and its file globs
/// where it has any.
pub type SurfaceRuleView = (Seq<char>, Seq<char>, Option<Seq<Seq<char>>>);

/// Compiling the rules from `i` on: each pattern must compile and each rule's
/// file globs, where it has any, must build.
pub open spec fn surface_rules_from(rules: Seq<SurfaceRuleConfigV2>, i: int) -> Result<Seq<SurfaceRuleView>, Seq<char>>
    decreases rules.len() - i,
{
    if 0 <= i < rules.len() {
        match regex_new_error(rules[i].regex@) {
            Some(e) => Err("bad surface rule regex: "@ + e),
            None => {
                let globs = views(rules[i].file_globs@);
                let here: Result<Option<Seq<Seq<char>>>, Seq<char>> = if globs.len() == 0 {
                    Ok(None)
                } else {
                    match globset_error(globs) {
                        Some(e) => Err(e),
                        None => Ok(Some(globs)),
                    }
                };
                match here {
                    Err(e) => Err(e),
                    Ok(g) => match surface_rules_from(rules, i + 1) {
                        Err(e) => Err(e),
                        Ok(rest) => Ok(seq![(rules[i].regex@, rule_desc(rules[i], i as nat), g)] + rest),
                    },
                }
            },
        }
    } else {
        Ok(Seq::empty())
    }
}

/// The check's rules compiled: none is an error.
pub open spec fn surface_rules(cfg: SurfaceCheckConfigV2) -> Result<Seq<SurfaceRuleView>, Seq<char>> {
    if cfg.rules@.len() == 0 {
        Err("surface rules are required (id="@ + cfg.id@ + "); add checks.surface.rules"@)
    } else {
        surface_rules_from(cfg.rules@, 0)
    }
}

/// `s` without the `;` at its end, however many.
pub open spec fn without_trailing_semis(s: Seq<char>) -> Seq<char>
    decreases s.len(),
{
    if s.len() > 0 && s.last() == ';' {
        without_trailing_semis(s.drop_last())
    } else {
        s
    }
}

/// The value a match gives: its first group (or the whole match), trimmed,
/// without trailing `;`, trimmed again.
pub open spec fn match_value(groups: Seq<Option<Seq<char>>>) -> Seq<char> {
    let raw = match capture_group(groups, 1) {
        Some(t) => t,
        None => match capture_group(groups, 0) {
            Some(t) => t,
            None => Seq::empty(),
        },
    };
    trim_spec(without_trailing_semis(trim_spec(raw)))
}

/// A rule applies to a file when it has no file globs or one of them matches.
pub open spec fn rule_applies(rule: SurfaceRuleView, rel: Seq<char>) -> bool {
    match rule.2 {
        None => true,
        Some(globs) => any_glob_matches(globs, rel),
    }
}

/// The item a rule finds on a line, where it applies, its pattern matches the
/// line without its indentation, and the value is not empty.
pub open spec fn rule_item(rule: SurfaceRuleView, rel: Seq<char>, line: Seq<char>) -> Option<Seq<char>> {
    if rule_applies(rule, rel) {
        match regex_captures(rule.0, trim_start_spec(line)) {
            None => None,
            Some(groups) => {
                let val = match_value(groups);
                if val.len() == 0 {
                    None
                } else {
                    Some(rel + "::"@ + rule.1 + ":"@ + val)
                }
            },
        }
    } else {
        None
    }
}

/// The items of one line, rule by rule.
pub open spec fn line_items(rules: Seq<SurfaceRuleView>, rel: Seq<char>, line: Seq<char>) -> Seq<Seq<char>>
    decreases rules.len(),
{
    if rules.len() == 0 {
        Seq::empty()
    } else {
        line_items(rules.drop_last(), rel, line) + match rule_item(rules.last(), rel, line) {
            Some(it) => seq![it],
            None => Seq::empty(),
        }
    }
}

/// The items of a file's lines, line by line.
pub open spec fn file_items(rules: Seq<SurfaceRuleView>, rel: Seq<char>, lines: Seq<Seq<char>>) -> Seq<Seq<char>>
    decreases lines.len(),
{
    if lines.len() == 0 {
        Seq::empty()
    } else {
        file_items(rules, rel, lines.drop_last()) + line_items(rules, rel, lines.last())
    }
}

/// Scanning the files in order: the selected ones are counted and read, and
/// the first read error ends the scan; else the files scanned, the files
/// selected and the items found.
pub open spec fn surface_scan(
    files: Seq<(String, Result<String, String>)>,
    includes: Seq<Seq<char>>,
    excludes: Seq<Seq<char>>,
    rules: Seq<SurfaceRuleView>,
) -> Result<(nat, nat, Seq<Seq<char>>), Seq<char>>
    decreases files.len(),
{
    if files.len() == 0 {
        Ok((0, 0, Seq::empty()))
    } else {
        match surface_scan(files.drop_last(), includes, excludes, rules) {
            Err(e) => Err(e),
            Ok(prev) => {
                let f = files.last();
                if boundary_selects(includes, excludes, f.0@) {
                    match f.1 {
                        Err(e) => Err("failed to read "@ + f.0@ + " for surface scan: "@ + e@),
                        Ok(source) => Ok(
                            (prev.0 + 1, prev.1 + 1, prev.2 + file_items(rules, f.0@, std_lines(source@))),
                        ),
                    }
                } else {
                    Ok(prev)
                }
            },
        }
    }
}

/// The surface check: the rules compiled, then the include and exclude globs
/// built (the check's own, or `crates/**/*.rs` and `**/target/**`, `.git/**`),
/// then the files scanned; the first error ends it. The items are counted
/// each once, and an observation is reported where they exceed the limit.
pub open spec fn surface_spec(cfg: SurfaceCheckConfigV2, files: Seq<(String, Result<String, String>)>) -> Result<
    (nat, nat, Seq<Seq<char>>, Seq<ViolationView>),
    Seq<char>,
> {
    let inc = globs_or(views(cfg.include_globs@), seq!["crates/**/*.rs"@]);
    let exc = globs_or(views(cfg.exclude_globs@), seq!["**/target/**"@, ".git/**"@]);
    match surface_rules(cfg) {
        Err(e) => Err(e),
        Ok(rules) => match globset_error(inc) {
            Some(e) => Err(e),
            None => match globset_error(exc) {
                Some(e) => Err(e),
                None => match surface_scan(files, inc, exc, rules) {
                    Err(e) => Err(e),
                    Ok(scan) => {
                        let items = sorted_distinct(scan.2);
                        Ok(
                            (
                                scan.0,
                                scan.1,
                                items,
                                if items.len() > cfg.max_items {
                                    seq![
                                        ViolationView {
                                            code: "public_surface.max_exceeded"@,
                                            message: "surface exceeds max_items="@ + decimal_spec(cfg.max_items as nat)
                                                + " (current="@ + decimal_spec(items.len()) + ")"@,
                                            path: Some(cfg.baseline_path@),
                                            details: None,
                                            tier: ViolationTier::Observation,
                                        },
                                    ]
                                } else {
                                    Seq::empty()
                                },
                            ),
                        )
                    },
                },
            },
        },
    }
}

/// A compiled surface rule.
pub struct SurfaceRule {
    pub regex: CompiledRegex,
    pub desc: String,
    pub file_globs: Option<CompiledGlobSet>,
}

pub open spec fn surface_rule_view(r: SurfaceRule) -> SurfaceRuleView {
    (
        r.regex.pattern_of(),
        r.desc@,
        match r.file_globs {
            Some(g) => Some(g.patterns_of()),
            None => None,
        },
    )
}

pub open spec fn surface_rule_views(rules: Seq<SurfaceRule>) -> Seq<SurfaceRuleView> {
    rules.map_values(|r: SurfaceRule| surface_rule_view(r))
}

fn rule_desc_exec(r: &SurfaceRuleConfigV2, idx: usize) -> (d: String)
    ensures
        d@ == rule_desc(*r, idx as nat),
{
    let fallback = concat("rule", u64_to_string(idx as u64).as_str());
    match &r.description {
        Some(d) => {
            let t = crate::text::trim_str(d.as_str());
            if chars_of(t.as_str()).len() > 0 {
                t
            } else {
                fallback
            }
        },
        None => fallback,
    }
}

/// The rules compiled (see `surface_rules`).
pub fn compile_surface_rules(cfg: &SurfaceCheckConfigV2) -> (r: Result<Vec<SurfaceRule>, String>)
    ensures
        match r {
            Ok(v) => surface_rules(*cfg) == Ok::<_, Seq<char>>(surface_rule_views(v@)),
            Err(e) => surface_rules(*cfg) == Err::<Seq<SurfaceRuleView>, _>(e@),
        },
{
    if cfg.rules.len() == 0 {
        let a = concat("surface rules are required (id=", cfg.id.as_str());
        return Err(concat(a.as_str(), "); add checks.surface.rules"));
    }
    let ghost rs = cfg.rules@;
    let mut out: Vec<SurfaceRule> = Vec::new();
    let mut i: usize = 0;
    proof {
        assert(surface_rule_views(out@) + Seq::<SurfaceRuleView>::empty() =~= Seq::<SurfaceRuleView>::empty());
    }
    while i < cfg.rules.len()
        invariant
            rs == cfg.rules@,
            i <= rs.len(),
            surface_rules_from(rs, 0) == (match surface_rules_from(rs, i as int) {
                Err(e) => Err(e),
                Ok(rest) => Ok::<Seq<SurfaceRuleView>, Seq<char>>(surface_rule_views(out@) + rest),
            }),
        decreases rs.len() - i,
    {
        let rule = &cfg.rules[i];
        let regex = match crate::patterns::regex_new(rule.regex.as_str()) {
            Ok(re) => re,
            Err(e) => {
                return Err(concat("bad surface rule regex: ", e.as_str()));
            },
        };
        let desc = rule_desc_exec(rule, i);
        let file_globs = if rule.file_globs.len() == 0 {
            None
        } else {
            match build_globset(&rule.file_globs) {
                Ok(g) => Some(g),
                Err(e) => {
                    return Err(e);
                },
            }
        };
        let ghost before = surface_rule_views(out@);
        out.push(SurfaceRule { regex, desc, file_globs });
        proof {
            let v = surface_rule_view(out@.last());
            assert(surface_rule_views(out@) =~= before.push(v));
            match surface_rules_from(rs, i + 1) {
                Err(e) => {},
                Ok(rest) => {
                    assert(before + (seq![v] + rest) =~= before.push(v) + rest);
                },
            }
        }
        i = i + 1;
    }
    proof {
        assert(surface_rule_views(out@) + Seq::<SurfaceRuleView>::empty() =~= surface_rule_views(out@));
    }
    Ok(out)
}

fn without_trailing_semis_exec(s: &Vec<char>) -> (out: Vec<char>)
    ensures
        out@ == without_trailing_semis(s@),
{
    let mut end: usize = s.len();
    proof {
        assert(s@.take(end as int) =~= s@);
    }
    while end > 0 && s[end - 1] == ';'
        invariant
            end <= s@.len(),
            without_trailing_semis(s@) == without_trailing_semis(s@.take(end as int)),
        decreases end,
    {
        proof {
            assert(s@.take(end as int).drop_last() =~= s@.take(end - 1));
        }
        end = end - 1;
    }
    let out = crate::text::slice_vec(s.as_slice(), 0, end);
    proof {
        assert(out@ =~= s@.take(end as int));
    }
    out
}

fn rule_item_exec(rule: &SurfaceRule, rel: &String, line: &str) -> (r: Option<String>)
    ensures
        crate::cli::opt_view(r) == rule_item(surface_rule_view(*rule), rel@, line@),
{
    let applies = match &rule.file_globs {
        None => true,
        Some(g) => crate::patterns::globset_matches(g, rel.as_str()),
    };
    if !applies {
        return None;
    }
    let trimmed = crate::text::trim_start_str(line);
    match crate::patterns::regex_captures_of(&rule.regex, trimmed.as_str()) {
        None => None,
        Some(groups) => {
            let ghost gv = crate::patterns::groups_view(groups@);
            let raw: Vec<char> = if 1 < groups.len() && groups[1].is_some() {
                match &groups[1] {
                    Some(t) => chars_of(t.as_str()),
                    None => Vec::new(),
                }
            } else if 0 < groups.len() && groups[0].is_some() {
                match &groups[0] {
                    Some(t) => chars_of(t.as_str()),
                    None => Vec::new(),
                }
            } else {
                Vec::new()
            };
            proof {
                assert(raw@ == match capture_group(gv, 1) {
                    Some(t) => t,
                    None => match capture_group(gv, 0) {
                        Some(t) => t,
                        None => Seq::<char>::empty(),
                    },
                });
            }
            let t1 = crate::text::trim_chars(raw.as_slice());
            let t2 = without_trailing_semis_exec(&t1);
            let val = crate::text::trim_chars(t2.as_slice());
            if val.len() == 0 {
                None
            } else {
                let a = concat(rel.as_str(), "::");
                let b = concat(a.as_str(), rule.desc.as_str());
                let c = concat(b.as_str(), ":");
                Some(concat(c.as_str(), string_of(val.as_slice()).as_str()))
            }
        },
    }
}

fn file_items_exec(rules: &Vec<SurfaceRule>, rel: &String, source: &str, items: &mut Vec<String>)
    ensures
        views(final(items)@) == views(old(items)@) + file_items(surface_rule_views(rules@), rel@, std_lines(source@)),
{
    let ghost rv = surface_rule_views(rules@);
    let ghost start = views(items@);
    let lines = lines_of(source);
    let ghost ls = views(lines@);
    let mut i: usize = 0;
    proof {
        assert(ls.take(0) =~= Seq::<Seq<char>>::empty());
        assert(views(items@) =~= start + file_items(rv, rel@, ls.take(0)));
    }
    while i < lines.len()
        invariant
            rv == surface_rule_views(rules@),
            ls == views(lines@),
            ls == std_lines(source@),
            i <= ls.len(),
            views(items@) == start + file_items(rv, rel@, ls.take(i as int)),
        decreases ls.len() - i,
    {
        proof {
            assert(ls.take(i + 1).drop_last() =~= ls.take(i as int));
            assert(ls.take(i + 1).last() == lines@[i as int]@);
        }
        let ghost mid = views(items@);
        let mut k: usize = 0;
        proof {
            assert(rv.take(0) =~= Seq::<SurfaceRuleView>::empty());
            assert(views(items@) =~= mid + line_items(rv.take(0), rel@, ls[i as int]));
        }
        while k < rules.len()
            invariant
                rv == surface_rule_views(rules@),
                ls == views(lines@),
                i < ls.len(),
                k <= rv.len(),
                views(items@) == mid + line_items(rv.take(k as int), rel@, ls[i as int]),
            decreases rv.len() - k,
        {
            proof {
                assert(rv.take(k + 1).drop_last() =~= rv.take(k as int));
                assert(rv.take(k + 1).last() == surface_rule_view(rules@[k as int]));
                assert(lines@[i as int]@ == ls[i as int]);
            }
            let ghost before = views(items@);
            match rule_item_exec(&rules[k], rel, lines[i].as_str()) {
                Some(it) => {
                    items.push(it);
                    proof {
                        assert(views(items@) =~= before + seq![items@.last()@]);
                    }
                },
                None => {
                    proof {
                        assert(views(items@) =~= before + Seq::<Seq<char>>::empty());
                    }
                },
            }
            k = k + 1;
        }
        proof {
            assert(rv.take(rv.len() as int) =~= rv);
        }
        i = i + 1;
    }
    proof {
        assert(ls.take(ls.len() as int) =~= ls);
    }
}

/// The surface check over the files of the repository walk, each with its
/// text or the error of reading it (see `surface_spec`).
/// The scan of the public-surface check, before the baseline is consulted.
pub fn scan_surface(cfg: &SurfaceCheckConfigV2, files: &Vec<(String, Result<String, String>)>) -> (r: Result<
    SurfaceCheckResult,
    String,
>)
    ensures
        match r {
            Ok(res) => surface_spec(*cfg, files@) == Ok::<_, Seq<char>>(
                (
                    res.files_scanned as nat,
                    res.files_universe as nat,
                    views(res.current_items@),
                    violation_views(res.violations@),
                ),
            ) && res.items_total == res.current_items@.len() && res.max_items == cfg.max_items,
            Err(e) => surface_spec(*cfg, files@) == Err::<(nat, nat, Seq<Seq<char>>, Seq<ViolationView>), _>(e@),
        },
{
    let rules = match compile_surface_rules(cfg) {
        Ok(v) => v,
        Err(e) => return Err(e),
    };
    let include_globs = if cfg.include_globs.len() == 0 {
        let mut v: Vec<String> = Vec::new();
        v.push(String::from_str("crates/**/*.rs"));
        proof {
            assert(views(v@) =~= seq!["crates/**/*.rs"@]);
        }
        v
    } else {
        crate::csv::copy_strings(cfg.include_globs.as_slice())
    };
    let exclude_globs = if cfg.exclude_globs.len() == 0 {
        let mut v: Vec<String> = Vec::new();
        v.push(String::from_str("**/target/**"));
        v.push(String::from_str(".git/**"));
        proof {
            assert(views(v@) =~= seq!["**/target/**"@, ".git/**"@]);
        }
        v
    } else {
        crate::csv::copy_strings(cfg.exclude_globs.as_slice())
    };
    let includes = match build_globset(&include_globs) {
        Ok(s) => s,
        Err(e) => return Err(e),
    };
    let excludes = match build_globset(&exclude_globs) {
        Ok(s) => s,
        Err(e) => return Err(e),
    };
    let ghost inc = views(include_globs@);
    let ghost exc = views(exclude_globs@);
    let ghost rv = surface_rule_views(rules@);
    let mut items: Vec<String> = Vec::new();
    let mut universe: usize = 0;
    let mut scanned: usize = 0;
    let mut i: usize = 0;
    proof {
        assert(files@.take(0) =~= Seq::<(String, Result<String, String>)>::empty());
        assert(views(items@) =~= Seq::<Seq<char>>::empty());
        assert(views(include_globs@) == globs_or(views(cfg.include_globs@), seq!["crates/**/*.rs"@]));
        assert(views(exclude_globs@) == globs_or(views(cfg.exclude_globs@), seq!["**/target/**"@, ".git/**"@]));
    }
    while i < files.len()
        invariant
            inc == globs_or(views(cfg.include_globs@), seq!["crates/**/*.rs"@]),
            exc == globs_or(views(cfg.exclude_globs@), seq!["**/target/**"@, ".git/**"@]),
            surface_rules(*cfg) == Ok::<_, Seq<char>>(rv),
            globset_error(inc) is None,
            globset_error(exc) is None,
            rv == surface_rule_views(rules@),
            includes.patterns_of() == inc,
            excludes.patterns_of() == exc,
            i <= files@.len(),
            scanned <= i,
            universe <= i,
            surface_scan(files@.take(i as int), inc, exc, rv) == Ok::<_, Seq<char>>(
                (scanned as nat, universe as nat, views(items@)),
            ),
        decreases files@.len() - i,
    {
        proof {
            assert(files@.take(i + 1).drop_last() =~= files@.take(i as int));
            assert(files@.take(i + 1).last() == files@[i as int]);
        }
        let rel = &files[i].0;
        if !crate::patterns::globset_matches(&excludes, rel.as_str()) && crate::patterns::globset_matches(
            &includes,
            rel.as_str(),
        ) {
            universe = universe + 1;
            match &files[i].1 {
                Err(e) => {
                    let a = concat("failed to read ", rel.as_str());
                    let b = concat(a.as_str(), " for surface scan: ");
                    let m = concat(b.as_str(), e.as_str());
                    proof {
                        assert(surface_scan(files@.take(i + 1), inc, exc, rv) == Err::<(nat, nat, Seq<Seq<char>>), _>(
                            m@,
                        ));
                        lemma_surface_scan_err(files@, inc, exc, rv, i + 1);
                        assert(files@.take(files@.len() as int) =~= files@);
                    }
                    return Err(m);
                },
                Ok(source) => {
                    proof {
                        assert(files@[i as int].1 matches Ok(x) && x == *source);
                    }
                    file_items_exec(&rules, rel, source.as_str(), &mut items);
                    scanned = scanned + 1;
                },
            }
        }
        i = i + 1;
    }
    proof {
        assert(files@.take(files@.len() as int) =~= files@);
    }
    let current = crate::order::sorted_unique(items);
    let mut violations: Vec<Violation> = Vec::new();
    if current.len() > cfg.max_items {
        let a = concat("surface exceeds max_items=", u64_to_string(cfg.max_items as u64).as_str());
        let b = concat(a.as_str(), " (current=");
        let c = concat(b.as_str(), u64_to_string(current.len() as u64).as_str());
        let m = concat(c.as_str(), ")");
        violations.push(Violation::observation(String::from_str("public_surface.max_exceeded"), m, Some(cfg.baseline_path.clone()), None));
    }
    proof {
        assert(views(include_globs@) == globs_or(views(cfg.include_globs@), seq!["crates/**/*.rs"@]));
        assert(views(exclude_globs@) == globs_or(views(cfg.exclude_globs@), seq!["**/target/**"@, ".git/**"@]));
        let items_v = views(current@);
        assert(violation_views(violations@) =~= if items_v.len() > cfg.max_items {
            seq![
                ViolationView {
                    code: "public_surface.max_exceeded"@,
                    message: "surface exceeds max_items="@ + decimal_spec(cfg.max_items as nat) + " (current="@
                        + decimal_spec(items_v.len()) + ")"@,
                    path: Some(cfg.baseline_path@),
                    details: None,
                    tier: ViolationTier::Observation,
                },
            ]
        } else {
            Seq::<ViolationView>::empty()
        });
    }
    let items_total = current.len();
    Ok(SurfaceCheckResult {
        violations,
        files_scanned: scanned,
        files_universe: universe,
        items_total,
        max_items: cfg.max_items,
        current_items: current,
    })
}

proof fn lemma_surface_scan_err(
    files: Seq<(String, Result<String, String>)>,
    inc: Seq<Seq<char>>,
    exc: Seq<Seq<char>>,
    rules: Seq<SurfaceRuleView>,
    k: int,
)
    requires
        0 <= k <= files.len(),
        surface_scan(files.take(k), inc, exc, rules) is Err,
    ensures
        surface_scan(files.take(files.len() as int), inc, exc, rules) == surface_scan(files.take(k), inc, exc, rules),
    decreases files.len() - k,
{
    if k < files.len() {
        assert(files.take(k + 1).drop_last() =~= files.take(k));
        lemma_surface_scan_err(files, inc, exc, rules, k + 1);
    }
}


/// One blocking violation per current item that the baseline lacks, in
/// item order.
pub open spec fn surface_ratchet_views(items: Seq<Seq<char>>, baseline: Seq<Seq<char>>, baseline_path: Seq<char>) -> Seq<
    ViolationView,
>
    decreases items.len(),
{
    if items.len() == 0 {
        Seq::empty()
    } else {
        let rest = surface_ratchet_views(items.drop_last(), baseline, baseline_path);
        if baseline.contains(items.last()) {
            rest
        } else {
            rest.push(
                ViolationView {
                    code: "public_surface.ratchet_regression"@,
                    message: "new public item vs baseline: "@ + items.last(),
                    path: Some(baseline_path),
                    details: None,
                    tier: ViolationTier::Blocking,
                },
            )
        }
    }
}

/// The ratchet of the public surface against the baseline's items.
pub fn surface_ratchet(items: &Vec<String>, baseline: &Vec<String>, baseline_path: &String) -> (out: Vec<Violation>)
    ensures
        violation_views(out@) == surface_ratchet_views(views(items@), views(baseline@), baseline_path@),
{
    let ghost iv = views(items@);
    let mut out: Vec<Violation> = Vec::new();
    let mut i: usize = 0;
    while i < items.len()
        invariant
            i <= items@.len(),
            iv == views(items@),
            violation_views(out@) == surface_ratchet_views(iv.take(i as int), views(baseline@), baseline_path@),
        decreases items@.len() - i,
    {
        proof {
            assert(iv.take(i + 1).drop_last() =~= iv.take(i as int));
        }
        if !crate::plugins::contains_string(baseline, items[i].as_str()) {
            let v = Violation::blocking(
                String::from_str("public_surface.ratchet_regression"),
                concat("new public item vs baseline: ", items[i].as_str()),
                Some(baseline_path.clone()),
                None,
            );
            let ghost before = out@;
            out.push(v);
            proof {
                assert(violation_views(out@) =~= violation_views(before).push(crate::api::violation_view(v)));
            }
        }
        i = i + 1;
    }
    proof {
        assert(iv.take(i as int) =~= iv);
    }
    out
}

/// The public-surface check: the scan, then, where a baseline's items are
/// given, the ratchet against them.
pub fn run_surface_check(
    cfg: &SurfaceCheckConfigV2,
    files: &Vec<(String, Result<String, String>)>,
    baseline: Option<&Vec<String>>,
) -> (r: Result<SurfaceCheckResult, String>)
    ensures
        match surface_spec(*cfg, files@) {
            Ok((scanned, universe, items, vs)) => r is Ok && ({
                let res = r->Ok_0;
                &&& res.files_scanned == scanned
                &&& res.files_universe == universe
                &&& views(res.current_items@) == items
                &&& res.items_total == items.len()
                &&& res.max_items == cfg.max_items
                &&& violation_views(res.violations@) == vs + match baseline {
                    Some(b) => surface_ratchet_views(items, views(b@), cfg.baseline_path@),
                    None => Seq::empty(),
                }
            }),
            Err(e) => r is Err && r->Err_0@ == e,
        },
{
    match scan_surface(cfg, files) {
        Err(e) => Err(e),
        Ok(mut res) => {
            let ghost before = violation_views(res.violations@);
            match baseline {
                Some(b) => {
                    let mut extra = surface_ratchet(&res.current_items, b, &cfg.baseline_path);
                    let ghost v0 = res.violations@;
                    let ghost e0 = extra@;
                    res.violations.append(&mut extra);
                    proof {
                        assert(res.violations@ == v0 + e0);
                        assert(violation_views(res.violations@) =~= violation_views(v0) + violation_views(e0));
                    }
                },
                None => {
                    proof {
                        assert(before + Seq::<ViolationView>::empty() =~= before);
                    }
                },
            }
            Ok(res)
        },
    }
}


proof fn lemma_surface_ratchet_within(items: Seq<Seq<char>>, baseline: Seq<Seq<char>>, p: Seq<char>)
    requires
        forall|i: int| 0 <= i < items.len() ==> baseline.contains(#[trigger] items[i]),
    ensures
        surface_ratchet_views(items, baseline, p) == Seq::<ViolationView>::empty(),
    decreases items.len(),
{
    if items.len() > 0 {
        assert forall|i: int| 0 <= i < items.drop_last().len() implies baseline.contains(#[trigger] items.drop_last()[i]) by {
            assert(items.drop_last()[i] == items[i]);
        }
        lemma_surface_ratchet_within(items.drop_last(), baseline, p);
        assert(baseline.contains(items[items.len() - 1]));
    }
}

/// Against a baseline that holds the current items, the ratchet reports nothing.
pub proof fn law_unchanged_surface_passes_ratchet(items: Seq<Seq<char>>, p: Seq<char>)
    ensures
        surface_ratchet_views(items, items, p) == Seq::<ViolationView>::empty(),
{
    assert forall|i: int| 0 <= i < items.len() implies items.contains(#[trigger] items[i]) by {}
    lemma_surface_ratchet_within(items, items, p);
}

} // verus!
