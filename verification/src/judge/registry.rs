//! The single registry that classifies violation codes.

use crate::api::{ErrorClass, ViolationTier};
use crate::text::{chars_of, chars_ends_with, chars_eq, chars_starts_with, seq_ends_with, seq_starts_with};
use vstd::prelude::*;

verus! {

#[derive(Debug, Clone, Copy, PartialEq, Eq)]
pub struct ViolationClassEntry {
    pub pattern: ViolationPattern,
    pub class: ErrorClass,
    pub tier: ViolationTier,
}

#[derive(Debug, Clone, Copy, PartialEq, Eq)]
pub enum ViolationPattern {
    Exact(&'static str),
    Prefix(&'static str),
    Suffix(&'static str),
}

/// The three pattern kinds, in the order in which `classify` consults them.
#[derive(Debug, Clone, Copy, PartialEq, Eq, Structural)]
pub enum PatternKind {
    Suffix,
    Exact,
    Prefix,
}

pub open spec fn spec_entry(pattern: ViolationPattern, class: ErrorClass, tier: ViolationTier) -> ViolationClassEntry {
    ViolationClassEntry { pattern, class, tier }
}

fn entry(pattern: ViolationPattern, class: ErrorClass, tier: ViolationTier) -> (e: ViolationClassEntry)
    ensures
        e == spec_entry(pattern, class, tier),
{
    ViolationClassEntry { pattern, class, tier }
}

/// The registry, in order. Order matters among entries of the same pattern kind.
pub open spec fn registry_spec() -> Seq<ViolationClassEntry> {
    seq![
        // Infrastructure failures (suffix priority)
        spec_entry(ViolationPattern::Suffix(".check_failed"), ErrorClass::RuntimeRisk, ViolationTier::Blocking),
        spec_entry(ViolationPattern::Suffix(".read_failed"), ErrorClass::RuntimeRisk, ViolationTier::Blocking),
        spec_entry(ViolationPattern::Suffix(".stat_failed"), ErrorClass::RuntimeRisk, ViolationTier::Blocking),
        spec_entry(ViolationPattern::Suffix(".manifest_parse_failed"), ErrorClass::RuntimeRisk, ViolationTier::Blocking),
        // Config / structural
        spec_entry(ViolationPattern::Prefix("config."), ErrorClass::SchemaConfig, ViolationTier::Blocking),
        spec_entry(ViolationPattern::Prefix("failure_modes."), ErrorClass::SchemaConfig, ViolationTier::Blocking),
        spec_entry(ViolationPattern::Prefix("pack."), ErrorClass::SchemaConfig, ViolationTier::Blocking),
        spec_entry(ViolationPattern::Exact("exception.allowlist_invalid"), ErrorClass::SchemaConfig, ViolationTier::Blocking),
        // Security
        spec_entry(ViolationPattern::Prefix("supply_chain."), ErrorClass::Security, ViolationTier::Blocking),
        spec_entry(ViolationPattern::Exact("security.allow_any_policy"), ErrorClass::Security, ViolationTier::Blocking),
        // Unified ratchet
        spec_entry(ViolationPattern::Prefix("quality_delta."), ErrorClass::QualityRegression, ViolationTier::Blocking),
        // Policy / contract
        spec_entry(ViolationPattern::Prefix("boundary."), ErrorClass::ContractBreak, ViolationTier::Blocking),
        spec_entry(ViolationPattern::Exact("exception.expired"), ErrorClass::ContractBreak, ViolationTier::Blocking),
        spec_entry(ViolationPattern::Exact("exception.window_exceeded"), ErrorClass::ContractBreak, ViolationTier::Blocking),
        spec_entry(ViolationPattern::Exact("exception.budget_exceeded"), ErrorClass::ContractBreak, ViolationTier::Blocking),
        spec_entry(ViolationPattern::Exact("duplicates.ratchet_regression"), ErrorClass::QualityRegression, ViolationTier::Blocking),
        spec_entry(ViolationPattern::Exact("public_surface.ratchet_regression"), ErrorClass::QualityRegression, ViolationTier::Blocking),
        spec_entry(ViolationPattern::Prefix("tools.duplicate_exact"), ErrorClass::ContractBreak, ViolationTier::Blocking),
        spec_entry(ViolationPattern::Prefix("tools.duplicate_semantic"), ErrorClass::ContractBreak, ViolationTier::Observation),
        // Observations
        spec_entry(ViolationPattern::Prefix("loc."), ErrorClass::ContractBreak, ViolationTier::Observation),
        spec_entry(ViolationPattern::Prefix("surface."), ErrorClass::ContractBreak, ViolationTier::Observation),
        spec_entry(ViolationPattern::Prefix("duplicates."), ErrorClass::ContractBreak, ViolationTier::Observation),
        spec_entry(ViolationPattern::Prefix("dead_code."), ErrorClass::ContractBreak, ViolationTier::Observation),
        spec_entry(ViolationPattern::Prefix("orphan_api."), ErrorClass::ContractBreak, ViolationTier::Observation),
        spec_entry(ViolationPattern::Prefix("env_registry."), ErrorClass::ContractBreak, ViolationTier::Observation),
        spec_entry(ViolationPattern::Prefix("env."), ErrorClass::ContractBreak, ViolationTier::Observation),
        spec_entry(ViolationPattern::Prefix("public_surface."), ErrorClass::ContractBreak, ViolationTier::Observation),
        spec_entry(ViolationPattern::Prefix("tool_budget."), ErrorClass::ContractBreak, ViolationTier::Blocking),
        // Architecture / reuse / complexity / contracts
        spec_entry(ViolationPattern::Prefix("reuse_first."), ErrorClass::ContractBreak, ViolationTier::Blocking),
        spec_entry(ViolationPattern::Prefix("arch_layers."), ErrorClass::ContractBreak, ViolationTier::Blocking),
        spec_entry(ViolationPattern::Prefix("complexity_budget."), ErrorClass::ContractBreak, ViolationTier::Blocking),
        spec_entry(ViolationPattern::Prefix("contract_break."), ErrorClass::ContractBreak, ViolationTier::Blocking),
        spec_entry(ViolationPattern::Prefix("change_impact."), ErrorClass::ContractBreak, ViolationTier::Blocking),
        // Gate execution
        spec_entry(ViolationPattern::Prefix("gate.receipt_contract"), ErrorClass::RuntimeRisk, ViolationTier::Blocking),
        spec_entry(ViolationPattern::Prefix("gate.tool_failed"), ErrorClass::ContractBreak, ViolationTier::Blocking),
        spec_entry(ViolationPattern::Exact("gate.run_failed_transient"), ErrorClass::TransientTool, ViolationTier::Blocking),
        spec_entry(ViolationPattern::Prefix("gate.run_failed"), ErrorClass::RuntimeRisk, ViolationTier::Blocking),
        spec_entry(ViolationPattern::Prefix("gate.observation."), ErrorClass::ContractBreak, ViolationTier::Observation),
        spec_entry(ViolationPattern::Prefix("gate."), ErrorClass::SchemaConfig, ViolationTier::Blocking),
        spec_entry(ViolationPattern::Prefix("witness."), ErrorClass::RuntimeRisk, ViolationTier::Blocking),
    ]
}

/// The registry of violation classes, in the order `registry_spec` gives.
pub fn violation_registry() -> (r: Vec<ViolationClassEntry>)
    ensures
        r@ == registry_spec(),
{
    let r: Vec<ViolationClassEntry> = vec![
        entry(ViolationPattern::Suffix(".check_failed"), ErrorClass::RuntimeRisk, ViolationTier::Blocking),
        entry(ViolationPattern::Suffix(".read_failed"), ErrorClass::RuntimeRisk, ViolationTier::Blocking),
        entry(ViolationPattern::Suffix(".stat_failed"), ErrorClass::RuntimeRisk, ViolationTier::Blocking),
        entry(ViolationPattern::Suffix(".manifest_parse_failed"), ErrorClass::RuntimeRisk, ViolationTier::Blocking),
        entry(ViolationPattern::Prefix("config."), ErrorClass::SchemaConfig, ViolationTier::Blocking),
        entry(ViolationPattern::Prefix("failure_modes."), ErrorClass::SchemaConfig, ViolationTier::Blocking),
        entry(ViolationPattern::Prefix("pack."), ErrorClass::SchemaConfig, ViolationTier::Blocking),
        entry(ViolationPattern::Exact("exception.allowlist_invalid"), ErrorClass::SchemaConfig, ViolationTier::Blocking),
        entry(ViolationPattern::Prefix("supply_chain."), ErrorClass::Security, ViolationTier::Blocking),
        entry(ViolationPattern::Exact("security.allow_any_policy"), ErrorClass::Security, ViolationTier::Blocking),
        entry(ViolationPattern::Prefix("quality_delta."), ErrorClass::QualityRegression, ViolationTier::Blocking),
        entry(ViolationPattern::Prefix("boundary."), ErrorClass::ContractBreak, ViolationTier::Blocking),
        entry(ViolationPattern::Exact("exception.expired"), ErrorClass::ContractBreak, ViolationTier::Blocking),
        entry(ViolationPattern::Exact("exception.window_exceeded"), ErrorClass::ContractBreak, ViolationTier::Blocking),
        entry(ViolationPattern::Exact("exception.budget_exceeded"), ErrorClass::ContractBreak, ViolationTier::Blocking),
        entry(ViolationPattern::Exact("duplicates.ratchet_regression"), ErrorClass::QualityRegression, ViolationTier::Blocking),
        entry(ViolationPattern::Exact("public_surface.ratchet_regression"), ErrorClass::QualityRegression, ViolationTier::Blocking),
        entry(ViolationPattern::Prefix("tools.duplicate_exact"), ErrorClass::ContractBreak, ViolationTier::Blocking),
        entry(ViolationPattern::Prefix("tools.duplicate_semantic"), ErrorClass::ContractBreak, ViolationTier::Observation),
        entry(ViolationPattern::Prefix("loc."), ErrorClass::ContractBreak, ViolationTier::Observation),
        entry(ViolationPattern::Prefix("surface."), ErrorClass::ContractBreak, ViolationTier::Observation),
        entry(ViolationPattern::Prefix("duplicates."), ErrorClass::ContractBreak, ViolationTier::Observation),
        entry(ViolationPattern::Prefix("dead_code."), ErrorClass::ContractBreak, ViolationTier::Observation),
        entry(ViolationPattern::Prefix("orphan_api."), ErrorClass::ContractBreak, ViolationTier::Observation),
        entry(ViolationPattern::Prefix("env_registry."), ErrorClass::ContractBreak, ViolationTier::Observation),
        entry(ViolationPattern::Prefix("env."), ErrorClass::ContractBreak, ViolationTier::Observation),
        entry(ViolationPattern::Prefix("public_surface."), ErrorClass::ContractBreak, ViolationTier::Observation),
        entry(ViolationPattern::Prefix("tool_budget."), ErrorClass::ContractBreak, ViolationTier::Blocking),
        entry(ViolationPattern::Prefix("reuse_first."), ErrorClass::ContractBreak, ViolationTier::Blocking),
        entry(ViolationPattern::Prefix("arch_layers."), ErrorClass::ContractBreak, ViolationTier::Blocking),
        entry(ViolationPattern::Prefix("complexity_budget."), ErrorClass::ContractBreak, ViolationTier::Blocking),
        entry(ViolationPattern::Prefix("contract_break."), ErrorClass::ContractBreak, ViolationTier::Blocking),
        entry(ViolationPattern::Prefix("change_impact."), ErrorClass::ContractBreak, ViolationTier::Blocking),
        entry(ViolationPattern::Prefix("gate.receipt_contract"), ErrorClass::RuntimeRisk, ViolationTier::Blocking),
        entry(ViolationPattern::Prefix("gate.tool_failed"), ErrorClass::ContractBreak, ViolationTier::Blocking),
        entry(ViolationPattern::Exact("gate.run_failed_transient"), ErrorClass::TransientTool, ViolationTier::Blocking),
        entry(ViolationPattern::Prefix("gate.run_failed"), ErrorClass::RuntimeRisk, ViolationTier::Blocking),
        entry(ViolationPattern::Prefix("gate.observation."), ErrorClass::ContractBreak, ViolationTier::Observation),
        entry(ViolationPattern::Prefix("gate."), ErrorClass::SchemaConfig, ViolationTier::Blocking),
        entry(ViolationPattern::Prefix("witness."), ErrorClass::RuntimeRisk, ViolationTier::Blocking),
    ];
    assert(r@ =~= registry_spec());
    r
}

/// Entry `e` is of kind `kind` and its pattern matches `code`.
pub open spec fn entry_hits(e: ViolationClassEntry, kind: PatternKind, code: Seq<char>) -> bool {
    match e.pattern {
        ViolationPattern::Suffix(s) => kind == PatternKind::Suffix && seq_ends_with(code, s@),
        ViolationPattern::Exact(s) => kind == PatternKind::Exact && code == s@,
        ViolationPattern::Prefix(s) => kind == PatternKind::Prefix && seq_starts_with(code, s@),
    }
}

/// The first entry of `reg` of kind `kind` that matches `code`.
pub open spec fn first_hit(reg: Seq<ViolationClassEntry>, kind: PatternKind, code: Seq<char>) -> Option<ViolationClassEntry>
    decreases reg.len(),
{
    if reg.len() == 0 {
        None
    } else if entry_hits(reg[0], kind, code) {
        Some(reg[0])
    } else {
        first_hit(reg.drop_first(), kind, code)
    }
}

/// Classification of `code`: the first matching suffix entry, else the first
/// matching exact entry, else the first matching prefix entry, else unknown and blocking.
pub open spec fn classify_spec(code: Seq<char>) -> (ErrorClass, ViolationTier) {
    let reg = registry_spec();
    match first_hit(reg, PatternKind::Suffix, code) {
        Some(e) => (e.class, e.tier),
        None => match first_hit(reg, PatternKind::Exact, code) {
            Some(e) => (e.class, e.tier),
            None => match first_hit(reg, PatternKind::Prefix, code) {
                Some(e) => (e.class, e.tier),
                None => (ErrorClass::Unknown, ViolationTier::Blocking),
            },
        },
    }
}

fn pattern_hits(p: ViolationPattern, kind: PatternKind, code: &[char]) -> (b: bool)
    ensures
        b == entry_hits(spec_entry(p, ErrorClass::Unknown, ViolationTier::Blocking), kind, code@),
{
    match p {
        ViolationPattern::Suffix(s) => {
            if kind != PatternKind::Suffix {
                return false;
            }
            let cs = chars_of(s);
            chars_ends_with(code, cs.as_slice())
        },
        ViolationPattern::Exact(s) => {
            if kind != PatternKind::Exact {
                return false;
            }
            let cs = chars_of(s);
            chars_eq(code, cs.as_slice())
        },
        ViolationPattern::Prefix(s) => {
            if kind != PatternKind::Prefix {
                return false;
            }
            let cs = chars_of(s);
            chars_starts_with(code, cs.as_slice())
        },
    }
}

fn find_hit(reg: &Vec<ViolationClassEntry>, kind: PatternKind, code: &[char]) -> (r: Option<ViolationClassEntry>)
    ensures
        r == first_hit(reg@, kind, code@),
{
    let mut i: usize = 0;
    assert(reg@.skip(0) =~= reg@);
    while i < reg.len()
        invariant
            i <= reg@.len(),
            first_hit(reg@, kind, code@) == first_hit(reg@.skip(i as int), kind, code@),
        decreases reg@.len() - i,
    {
        let e = reg[i];
        assert(reg@.skip(i as int)[0] == e);
        assert(reg@.skip(i as int).drop_first() =~= reg@.skip(i + 1));
        if pattern_hits(e.pattern, kind, code) {
            return Some(e);
        }
        i += 1;
    }
    None
}

/// The class and default tier of violation code `code`.
pub fn classify(code: &str) -> (r: (ErrorClass, ViolationTier))
    ensures
        r == classify_spec(code@),
{
    let reg = violation_registry();
    let cs = chars_of(code);
    if let Some(e) = find_hit(&reg, PatternKind::Suffix, cs.as_slice()) {
        return (e.class, e.tier);
    }
    if let Some(e) = find_hit(&reg, PatternKind::Exact, cs.as_slice()) {
        return (e.class, e.tier);
    }
    if let Some(e) = find_hit(&reg, PatternKind::Prefix, cs.as_slice()) {
        return (e.class, e.tier);
    }
    (ErrorClass::Unknown, ViolationTier::Blocking)
}


/// `reg.skip(i)` is searched by looking at `reg[i]` first.
proof fn lemma_hit_step(reg: Seq<ViolationClassEntry>, kind: PatternKind, code: Seq<char>, i: int)
    requires
        0 <= i < reg.len(),
    ensures
        first_hit(reg.skip(i), kind, code) == if entry_hits(reg[i], kind, code) {
            Some(reg[i])
        } else {
            first_hit(reg.skip(i + 1), kind, code)
        },
{
    assert(reg.skip(i)[0] == reg[i]);
    assert(reg.skip(i).drop_first() =~= reg.skip(i + 1));
}

/// Two prefixes that differ at `d` cannot both begin `code`.
proof fn lemma_prefix_clash(code: Seq<char>, p: Seq<char>, q: Seq<char>, d: int)
    requires
        seq_starts_with(code, p),
        0 <= d < p.len(),
        d < q.len(),
        p[d] != q[d],
    ensures
        !seq_starts_with(code, q),
{
    if seq_starts_with(code, q) {
        assert(code.subrange(0, p.len() as int)[d] == code[d]);
        assert(code.subrange(0, q.len() as int)[d] == code[d]);
    }
}

/// A code that begins with `p` is not a shorter text, nor one that differs from `p` at `d`.
proof fn lemma_exact_clash(code: Seq<char>, p: Seq<char>, e: Seq<char>, d: int)
    requires
        seq_starts_with(code, p),
        (0 <= d < p.len() && d < e.len() && p[d] != e[d]) || e.len() < p.len(),
    ensures
        code != e,
{
    if code == e && 0 <= d < p.len() && d < e.len() && p[d] != e[d] {
        assert(code.subrange(0, p.len() as int)[d] == code[d]);
    }
}

/// A text that differs from `s` at the aligned position `d` (or is shorter) does not end with `s`.
proof fn lemma_suffix_clash(e: Seq<char>, s: Seq<char>, d: int)
    requires
        e.len() < s.len() || (0 <= d < s.len() && e[e.len() - s.len() + d] != s[d]),
    ensures
        !seq_ends_with(e, s),
{
    if seq_ends_with(e, s) && e.len() >= s.len() {
        assert(e.subrange(e.len() - s.len(), e.len() as int)[d] == e[e.len() - s.len() + d]);
    }
}

/// Texts of different lengths, or that differ at `d`, are different.
proof fn lemma_text_differs(a: Seq<char>, b: Seq<char>, d: int)
    requires
        a.len() != b.len() || (0 <= d < a.len() && d < b.len() && a[d] != b[d]),
    ensures
        a != b,
{
}

/// A code ends in one of the infrastructure-failure suffixes.
pub open spec fn infra_failure(code: Seq<char>) -> bool {
    seq_ends_with(code, ".check_failed"@) || seq_ends_with(code, ".read_failed"@) || seq_ends_with(code, ".stat_failed"@)
        || seq_ends_with(code, ".manifest_parse_failed"@)
}

/// A code that the registry names exactly.
pub open spec fn exact_code(code: Seq<char>) -> bool {
code == "exception.allowlist_invalid"@
        || code == "security.allow_any_policy"@
        || code == "exception.expired"@
        || code == "exception.window_exceeded"@
        || code == "exception.budget_exceeded"@
        || code == "duplicates.ratchet_regression"@
        || code == "public_surface.ratchet_regression"@
        || code == "gate.run_failed_transient"@
}


proof fn lemma_no_suffix_hit(code: Seq<char>)
    requires
        !infra_failure(code),
    ensures
        first_hit(registry_spec(), PatternKind::Suffix, code) is None,
{
    let reg = registry_spec();
    assert(reg.skip(0) =~= reg);
    lemma_hit_step(reg, PatternKind::Suffix, code, 0);
    lemma_hit_step(reg, PatternKind::Suffix, code, 1);
    lemma_hit_step(reg, PatternKind::Suffix, code, 2);
    lemma_hit_step(reg, PatternKind::Suffix, code, 3);
    lemma_hit_step(reg, PatternKind::Suffix, code, 4);
    lemma_hit_step(reg, PatternKind::Suffix, code, 5);
    lemma_hit_step(reg, PatternKind::Suffix, code, 6);
    lemma_hit_step(reg, PatternKind::Suffix, code, 7);
    lemma_hit_step(reg, PatternKind::Suffix, code, 8);
    lemma_hit_step(reg, PatternKind::Suffix, code, 9);
    lemma_hit_step(reg, PatternKind::Suffix, code, 10);
    lemma_hit_step(reg, PatternKind::Suffix, code, 11);
    lemma_hit_step(reg, PatternKind::Suffix, code, 12);
    lemma_hit_step(reg, PatternKind::Suffix, code, 13);
    lemma_hit_step(reg, PatternKind::Suffix, code, 14);
    lemma_hit_step(reg, PatternKind::Suffix, code, 15);
    lemma_hit_step(reg, PatternKind::Suffix, code, 16);
    lemma_hit_step(reg, PatternKind::Suffix, code, 17);
    lemma_hit_step(reg, PatternKind::Suffix, code, 18);
    lemma_hit_step(reg, PatternKind::Suffix, code, 19);
    lemma_hit_step(reg, PatternKind::Suffix, code, 20);
    lemma_hit_step(reg, PatternKind::Suffix, code, 21);
    lemma_hit_step(reg, PatternKind::Suffix, code, 22);
    lemma_hit_step(reg, PatternKind::Suffix, code, 23);
    lemma_hit_step(reg, PatternKind::Suffix, code, 24);
    lemma_hit_step(reg, PatternKind::Suffix, code, 25);
    lemma_hit_step(reg, PatternKind::Suffix, code, 26);
    lemma_hit_step(reg, PatternKind::Suffix, code, 27);
    lemma_hit_step(reg, PatternKind::Suffix, code, 28);
    lemma_hit_step(reg, PatternKind::Suffix, code, 29);
    lemma_hit_step(reg, PatternKind::Suffix, code, 30);
    lemma_hit_step(reg, PatternKind::Suffix, code, 31);
    lemma_hit_step(reg, PatternKind::Suffix, code, 32);
    lemma_hit_step(reg, PatternKind::Suffix, code, 33);
    lemma_hit_step(reg, PatternKind::Suffix, code, 34);
    lemma_hit_step(reg, PatternKind::Suffix, code, 35);
    lemma_hit_step(reg, PatternKind::Suffix, code, 36);
    lemma_hit_step(reg, PatternKind::Suffix, code, 37);
    lemma_hit_step(reg, PatternKind::Suffix, code, 38);
    lemma_hit_step(reg, PatternKind::Suffix, code, 39);
    assert(reg.skip(40).len() == 0);
}

proof fn lemma_no_exact_hit(code: Seq<char>)
    requires
        !exact_code(code),
    ensures
        first_hit(registry_spec(), PatternKind::Exact, code) is None,
{
    let reg = registry_spec();
    assert(reg.skip(0) =~= reg);
    lemma_hit_step(reg, PatternKind::Exact, code, 0);
    lemma_hit_step(reg, PatternKind::Exact, code, 1);
    lemma_hit_step(reg, PatternKind::Exact, code, 2);
    lemma_hit_step(reg, PatternKind::Exact, code, 3);
    lemma_hit_step(reg, PatternKind::Exact, code, 4);
    lemma_hit_step(reg, PatternKind::Exact, code, 5);
    lemma_hit_step(reg, PatternKind::Exact, code, 6);
    lemma_hit_step(reg, PatternKind::Exact, code, 7);
    lemma_hit_step(reg, PatternKind::Exact, code, 8);
    lemma_hit_step(reg, PatternKind::Exact, code, 9);
    lemma_hit_step(reg, PatternKind::Exact, code, 10);
    lemma_hit_step(reg, PatternKind::Exact, code, 11);
    lemma_hit_step(reg, PatternKind::Exact, code, 12);
    lemma_hit_step(reg, PatternKind::Exact, code, 13);
    lemma_hit_step(reg, PatternKind::Exact, code, 14);
    lemma_hit_step(reg, PatternKind::Exact, code, 15);
    lemma_hit_step(reg, PatternKind::Exact, code, 16);
    lemma_hit_step(reg, PatternKind::Exact, code, 17);
    lemma_hit_step(reg, PatternKind::Exact, code, 18);
    lemma_hit_step(reg, PatternKind::Exact, code, 19);
    lemma_hit_step(reg, PatternKind::Exact, code, 20);
    lemma_hit_step(reg, PatternKind::Exact, code, 21);
    lemma_hit_step(reg, PatternKind::Exact, code, 22);
    lemma_hit_step(reg, PatternKind::Exact, code, 23);
    lemma_hit_step(reg, PatternKind::Exact, code, 24);
    lemma_hit_step(reg, PatternKind::Exact, code, 25);
    lemma_hit_step(reg, PatternKind::Exact, code, 26);
    lemma_hit_step(reg, PatternKind::Exact, code, 27);
    lemma_hit_step(reg, PatternKind::Exact, code, 28);
    lemma_hit_step(reg, PatternKind::Exact, code, 29);
    lemma_hit_step(reg, PatternKind::Exact, code, 30);
    lemma_hit_step(reg, PatternKind::Exact, code, 31);
    lemma_hit_step(reg, PatternKind::Exact, code, 32);
    lemma_hit_step(reg, PatternKind::Exact, code, 33);
    lemma_hit_step(reg, PatternKind::Exact, code, 34);
    lemma_hit_step(reg, PatternKind::Exact, code, 35);
    lemma_hit_step(reg, PatternKind::Exact, code, 36);
    lemma_hit_step(reg, PatternKind::Exact, code, 37);
    lemma_hit_step(reg, PatternKind::Exact, code, 38);
    lemma_hit_step(reg, PatternKind::Exact, code, 39);
    assert(reg.skip(40).len() == 0);
}

/// Every code in the `config.` family (and not an infrastructure failure or a
/// more specific entry) is classed SchemaConfig with tier Blocking.
pub proof fn law_config_classifies_as_schemaconfig_blocking(code: Seq<char>)
    requires
        seq_starts_with(code, "config."@),
        !infra_failure(code),
    ensures
        classify_spec(code) == (ErrorClass::SchemaConfig, ViolationTier::Blocking),
{
    let reg = registry_spec();
    reveal_strlit("config.");
    reveal_strlit("duplicates.ratchet_regression");
    reveal_strlit("exception.allowlist_invalid");
    reveal_strlit("exception.budget_exceeded");
    reveal_strlit("exception.expired");
    reveal_strlit("exception.window_exceeded");
    reveal_strlit("gate.run_failed_transient");
    reveal_strlit("public_surface.ratchet_regression");
    reveal_strlit("security.allow_any_policy");
    lemma_exact_clash(code, "config."@, "exception.allowlist_invalid"@, 0);
    lemma_exact_clash(code, "config."@, "security.allow_any_policy"@, 0);
    lemma_exact_clash(code, "config."@, "exception.expired"@, 0);
    lemma_exact_clash(code, "config."@, "exception.window_exceeded"@, 0);
    lemma_exact_clash(code, "config."@, "exception.budget_exceeded"@, 0);
    lemma_exact_clash(code, "config."@, "duplicates.ratchet_regression"@, 0);
    lemma_exact_clash(code, "config."@, "public_surface.ratchet_regression"@, 0);
    lemma_exact_clash(code, "config."@, "gate.run_failed_transient"@, 0);
    lemma_no_suffix_hit(code);
    lemma_no_exact_hit(code);
    assert(reg.skip(0) =~= reg);
    lemma_hit_step(reg, PatternKind::Prefix, code, 0);
    lemma_hit_step(reg, PatternKind::Prefix, code, 1);
    lemma_hit_step(reg, PatternKind::Prefix, code, 2);
    lemma_hit_step(reg, PatternKind::Prefix, code, 3);
    lemma_hit_step(reg, PatternKind::Prefix, code, 4);
}

/// Every code in the `failure_modes.` family (and not an infrastructure failure or a
/// more specific entry) is classed SchemaConfig with tier Blocking.
pub proof fn law_failure_modes_classifies_as_schemaconfig_blocking(code: Seq<char>)
    requires
        seq_starts_with(code, "failure_modes."@),
        !infra_failure(code),
    ensures
        classify_spec(code) == (ErrorClass::SchemaConfig, ViolationTier::Blocking),
{
    let reg = registry_spec();
    reveal_strlit("config.");
    reveal_strlit("duplicates.ratchet_regression");
    reveal_strlit("exception.allowlist_invalid");
    reveal_strlit("exception.budget_exceeded");
    reveal_strlit("exception.expired");
    reveal_strlit("exception.window_exceeded");
    reveal_strlit("failure_modes.");
    reveal_strlit("gate.run_failed_transient");
    reveal_strlit("public_surface.ratchet_regression");
    reveal_strlit("security.allow_any_policy");
    lemma_exact_clash(code, "failure_modes."@, "exception.allowlist_invalid"@, 0);
    lemma_exact_clash(code, "failure_modes."@, "security.allow_any_policy"@, 0);
    lemma_exact_clash(code, "failure_modes."@, "exception.expired"@, 0);
    lemma_exact_clash(code, "failure_modes."@, "exception.window_exceeded"@, 0);
    lemma_exact_clash(code, "failure_modes."@, "exception.budget_exceeded"@, 0);
    lemma_exact_clash(code, "failure_modes."@, "duplicates.ratchet_regression"@, 0);
    lemma_exact_clash(code, "failure_modes."@, "public_surface.ratchet_regression"@, 0);
    lemma_exact_clash(code, "failure_modes."@, "gate.run_failed_transient"@, 0);
    lemma_no_suffix_hit(code);
    lemma_no_exact_hit(code);
    lemma_prefix_clash(code, "failure_modes."@, "config."@, 0);
    assert(reg.skip(0) =~= reg);
    lemma_hit_step(reg, PatternKind::Prefix, code, 0);
    lemma_hit_step(reg, PatternKind::Prefix, code, 1);
    lemma_hit_step(reg, PatternKind::Prefix, code, 2);
    lemma_hit_step(reg, PatternKind::Prefix, code, 3);
    lemma_hit_step(reg, PatternKind::Prefix, code, 4);
    lemma_hit_step(reg, PatternKind::Prefix, code, 5);
}

/// Every code in the `pack.` family (and not an infrastructure failure or a
/// more specific entry) is classed SchemaConfig with tier Blocking.
pub proof fn law_pack_classifies_as_schemaconfig_blocking(code: Seq<char>)
    requires
        seq_starts_with(code, "pack."@),
        !infra_failure(code),
    ensures
        classify_spec(code) == (ErrorClass::SchemaConfig, ViolationTier::Blocking),
{
    let reg = registry_spec();
    reveal_strlit("config.");
    reveal_strlit("duplicates.ratchet_regression");
    reveal_strlit("exception.allowlist_invalid");
    reveal_strlit("exception.budget_exceeded");
    reveal_strlit("exception.expired");
    reveal_strlit("exception.window_exceeded");
    reveal_strlit("failure_modes.");
    reveal_strlit("gate.run_failed_transient");
    reveal_strlit("pack.");
    reveal_strlit("public_surface.ratchet_regression");
    reveal_strlit("security.allow_any_policy");
    lemma_exact_clash(code, "pack."@, "exception.allowlist_invalid"@, 0);
    lemma_exact_clash(code, "pack."@, "security.allow_any_policy"@, 0);
    lemma_exact_clash(code, "pack."@, "exception.expired"@, 0);
    lemma_exact_clash(code, "pack."@, "exception.window_exceeded"@, 0);
    lemma_exact_clash(code, "pack."@, "exception.budget_exceeded"@, 0);
    lemma_exact_clash(code, "pack."@, "duplicates.ratchet_regression"@, 0);
    lemma_exact_clash(code, "pack."@, "public_surface.ratchet_regression"@, 1);
    lemma_exact_clash(code, "pack."@, "gate.run_failed_transient"@, 0);
    lemma_no_suffix_hit(code);
    lemma_no_exact_hit(code);
    lemma_prefix_clash(code, "pack."@, "config."@, 0);
    lemma_prefix_clash(code, "pack."@, "failure_modes."@, 0);
    assert(reg.skip(0) =~= reg);
    lemma_hit_step(reg, PatternKind::Prefix, code, 0);
    lemma_hit_step(reg, PatternKind::Prefix, code, 1);
    lemma_hit_step(reg, PatternKind::Prefix, code, 2);
    lemma_hit_step(reg, PatternKind::Prefix, code, 3);
    lemma_hit_step(reg, PatternKind::Prefix, code, 4);
    lemma_hit_step(reg, PatternKind::Prefix, code, 5);
    lemma_hit_step(reg, PatternKind::Prefix, code, 6);
}

/// Every code in the `supply_chain.` family (and not an infrastructure failure or a
/// more specific entry) is classed Security with tier Blocking.
pub proof fn law_supply_chain_classifies_as_security_blocking(code: Seq<char>)
    requires
        seq_starts_with(code, "supply_chain."@),
        !infra_failure(code),
    ensures
        classify_spec(code) == (ErrorClass::Security, ViolationTier::Blocking),
{
    let reg = registry_spec();
    reveal_strlit("config.");
    reveal_strlit("duplicates.ratchet_regression");
    reveal_strlit("exception.allowlist_invalid");
    reveal_strlit("exception.budget_exceeded");
    reveal_strlit("exception.expired");
    reveal_strlit("exception.window_exceeded");
    reveal_strlit("failure_modes.");
    reveal_strlit("gate.run_failed_transient");
    reveal_strlit("pack.");
    reveal_strlit("public_surface.ratchet_regression");
    reveal_strlit("security.allow_any_policy");
    reveal_strlit("supply_chain.");
    lemma_exact_clash(code, "supply_chain."@, "exception.allowlist_invalid"@, 0);
    lemma_exact_clash(code, "supply_chain."@, "security.allow_any_policy"@, 1);
    lemma_exact_clash(code, "supply_chain."@, "exception.expired"@, 0);
    lemma_exact_clash(code, "supply_chain."@, "exception.window_exceeded"@, 0);
    lemma_exact_clash(code, "supply_chain."@, "exception.budget_exceeded"@, 0);
    lemma_exact_clash(code, "supply_chain."@, "duplicates.ratchet_regression"@, 0);
    lemma_exact_clash(code, "supply_chain."@, "public_surface.ratchet_regression"@, 0);
    lemma_exact_clash(code, "supply_chain."@, "gate.run_failed_transient"@, 0);
    lemma_no_suffix_hit(code);
    lemma_no_exact_hit(code);
    lemma_prefix_clash(code, "supply_chain."@, "config."@, 0);
    lemma_prefix_clash(code, "supply_chain."@, "failure_modes."@, 0);
    lemma_prefix_clash(code, "supply_chain."@, "pack."@, 0);
    assert(reg.skip(0) =~= reg);
    lemma_hit_step(reg, PatternKind::Prefix, code, 0);
    lemma_hit_step(reg, PatternKind::Prefix, code, 1);
    lemma_hit_step(reg, PatternKind::Prefix, code, 2);
    lemma_hit_step(reg, PatternKind::Prefix, code, 3);
    lemma_hit_step(reg, PatternKind::Prefix, code, 4);
    lemma_hit_step(reg, PatternKind::Prefix, code, 5);
    lemma_hit_step(reg, PatternKind::Prefix, code, 6);
    lemma_hit_step(reg, PatternKind::Prefix, code, 7);
    lemma_hit_step(reg, PatternKind::Prefix, code, 8);
}

/// Every code in the `quality_delta.` family (and not an infrastructure failure or a
/// more specific entry) is classed QualityRegression with tier Blocking.
pub proof fn law_quality_delta_classifies_as_qualityregression_blocking(code: Seq<char>)
    requires
        seq_starts_with(code, "quality_delta."@),
        !infra_failure(code),
    ensures
        classify_spec(code) == (ErrorClass::QualityRegression, ViolationTier::Blocking),
{
    let reg = registry_spec();
    reveal_strlit("config.");
    reveal_strlit("duplicates.ratchet_regression");
    reveal_strlit("exception.allowlist_invalid");
    reveal_strlit("exception.budget_exceeded");
    reveal_strlit("exception.expired");
    reveal_strlit("exception.window_exceeded");
    reveal_strlit("failure_modes.");
    reveal_strlit("gate.run_failed_transient");
    reveal_strlit("pack.");
    reveal_strlit("public_surface.ratchet_regression");
    reveal_strlit("quality_delta.");
    reveal_strlit("security.allow_any_policy");
    reveal_strlit("supply_chain.");
    lemma_exact_clash(code, "quality_delta."@, "exception.allowlist_invalid"@, 0);
    lemma_exact_clash(code, "quality_delta."@, "security.allow_any_policy"@, 0);
    lemma_exact_clash(code, "quality_delta."@, "exception.expired"@, 0);
    lemma_exact_clash(code, "quality_delta."@, "exception.window_exceeded"@, 0);
    lemma_exact_clash(code, "quality_delta."@, "exception.budget_exceeded"@, 0);
    lemma_exact_clash(code, "quality_delta."@, "duplicates.ratchet_regression"@, 0);
    lemma_exact_clash(code, "quality_delta."@, "public_surface.ratchet_regression"@, 0);
    lemma_exact_clash(code, "quality_delta."@, "gate.run_failed_transient"@, 0);
    lemma_no_suffix_hit(code);
    lemma_no_exact_hit(code);
    lemma_prefix_clash(code, "quality_delta."@, "config."@, 0);
    lemma_prefix_clash(code, "quality_delta."@, "failure_modes."@, 0);
    lemma_prefix_clash(code, "quality_delta."@, "pack."@, 0);
    lemma_prefix_clash(code, "quality_delta."@, "supply_chain."@, 0);
    assert(reg.skip(0) =~= reg);
    lemma_hit_step(reg, PatternKind::Prefix, code, 0);
    lemma_hit_step(reg, PatternKind::Prefix, code, 1);
    lemma_hit_step(reg, PatternKind::Prefix, code, 2);
    lemma_hit_step(reg, PatternKind::Prefix, code, 3);
    lemma_hit_step(reg, PatternKind::Prefix, code, 4);
    lemma_hit_step(reg, PatternKind::Prefix, code, 5);
    lemma_hit_step(reg, PatternKind::Prefix, code, 6);
    lemma_hit_step(reg, PatternKind::Prefix, code, 7);
    lemma_hit_step(reg, PatternKind::Prefix, code, 8);
    lemma_hit_step(reg, PatternKind::Prefix, code, 9);
    lemma_hit_step(reg, PatternKind::Prefix, code, 10);
}

/// Every code in the `boundary.` family (and not an infrastructure failure or a
/// more specific entry) is classed ContractBreak with tier Blocking.
pub proof fn law_boundary_classifies_as_contractbreak_blocking(code: Seq<char>)
    requires
        seq_starts_with(code, "boundary."@),
        !infra_failure(code),
    ensures
        classify_spec(code) == (ErrorClass::ContractBreak, ViolationTier::Blocking),
{
    let reg = registry_spec();
    reveal_strlit("boundary.");
    reveal_strlit("config.");
    reveal_strlit("duplicates.ratchet_regression");
    reveal_strlit("exception.allowlist_invalid");
    reveal_strlit("exception.budget_exceeded");
    reveal_strlit("exception.expired");
    reveal_strlit("exception.window_exceeded");
    reveal_strlit("failure_modes.");
    reveal_strlit("gate.run_failed_transient");
    reveal_strlit("pack.");
    reveal_strlit("public_surface.ratchet_regression");
    reveal_strlit("quality_delta.");
    reveal_strlit("security.allow_any_policy");
    reveal_strlit("supply_chain.");
    lemma_exact_clash(code, "boundary."@, "exception.allowlist_invalid"@, 0);
    lemma_exact_clash(code, "boundary."@, "security.allow_any_policy"@, 0);
    lemma_exact_clash(code, "boundary."@, "exception.expired"@, 0);
    lemma_exact_clash(code, "boundary."@, "exception.window_exceeded"@, 0);
    lemma_exact_clash(code, "boundary."@, "exception.budget_exceeded"@, 0);
    lemma_exact_clash(code, "boundary."@, "duplicates.ratchet_regression"@, 0);
    lemma_exact_clash(code, "boundary."@, "public_surface.ratchet_regression"@, 0);
    lemma_exact_clash(code, "boundary."@, "gate.run_failed_transient"@, 0);
    lemma_no_suffix_hit(code);
    lemma_no_exact_hit(code);
    lemma_prefix_clash(code, "boundary."@, "config."@, 0);
    lemma_prefix_clash(code, "boundary."@, "failure_modes."@, 0);
    lemma_prefix_clash(code, "boundary."@, "pack."@, 0);
    lemma_prefix_clash(code, "boundary."@, "supply_chain."@, 0);
    lemma_prefix_clash(code, "boundary."@, "quality_delta."@, 0);
    assert(reg.skip(0) =~= reg);
    lemma_hit_step(reg, PatternKind::Prefix, code, 0);
    lemma_hit_step(reg, PatternKind::Prefix, code, 1);
    lemma_hit_step(reg, PatternKind::Prefix, code, 2);
    lemma_hit_step(reg, PatternKind::Prefix, code, 3);
    lemma_hit_step(reg, PatternKind::Prefix, code, 4);
    lemma_hit_step(reg, PatternKind::Prefix, code, 5);
    lemma_hit_step(reg, PatternKind::Prefix, code, 6);
    lemma_hit_step(reg, PatternKind::Prefix, code, 7);
    lemma_hit_step(reg, PatternKind::Prefix, code, 8);
    lemma_hit_step(reg, PatternKind::Prefix, code, 9);
    lemma_hit_step(reg, PatternKind::Prefix, code, 10);
    lemma_hit_step(reg, PatternKind::Prefix, code, 11);
}

/// Every code in the `tools.duplicate_exact` family (and not an infrastructure failure or a
/// more specific entry) is classed ContractBreak with tier Blocking.
pub proof fn law_tools_duplicate_exact_classifies_as_contractbreak_blocking(code: Seq<char>)
    requires
        seq_starts_with(code, "tools.duplicate_exact"@),
        !infra_failure(code),
    ensures
        classify_spec(code) == (ErrorClass::ContractBreak, ViolationTier::Blocking),
{
    let reg = registry_spec();
    reveal_strlit("boundary.");
    reveal_strlit("config.");
    reveal_strlit("duplicates.ratchet_regression");
    reveal_strlit("exception.allowlist_invalid");
    reveal_strlit("exception.budget_exceeded");
    reveal_strlit("exception.expired");
    reveal_strlit("exception.window_exceeded");
    reveal_strlit("failure_modes.");
    reveal_strlit("gate.run_failed_transient");
    reveal_strlit("pack.");
    reveal_strlit("public_surface.ratchet_regression");
    reveal_strlit("quality_delta.");
    reveal_strlit("security.allow_any_policy");
    reveal_strlit("supply_chain.");
    reveal_strlit("tools.duplicate_exact");
    lemma_exact_clash(code, "tools.duplicate_exact"@, "exception.allowlist_invalid"@, 0);
    lemma_exact_clash(code, "tools.duplicate_exact"@, "security.allow_any_policy"@, 0);
    lemma_exact_clash(code, "tools.duplicate_exact"@, "exception.expired"@, 0);
    lemma_exact_clash(code, "tools.duplicate_exact"@, "exception.window_exceeded"@, 0);
    lemma_exact_clash(code, "tools.duplicate_exact"@, "exception.budget_exceeded"@, 0);
    lemma_exact_clash(code, "tools.duplicate_exact"@, "duplicates.ratchet_regression"@, 0);
    lemma_exact_clash(code, "tools.duplicate_exact"@, "public_surface.ratchet_regression"@, 0);
    lemma_exact_clash(code, "tools.duplicate_exact"@, "gate.run_failed_transient"@, 0);
    lemma_no_suffix_hit(code);
    lemma_no_exact_hit(code);
    lemma_prefix_clash(code, "tools.duplicate_exact"@, "config."@, 0);
    lemma_prefix_clash(code, "tools.duplicate_exact"@, "failure_modes."@, 0);
    lemma_prefix_clash(code, "tools.duplicate_exact"@, "pack."@, 0);
    lemma_prefix_clash(code, "tools.duplicate_exact"@, "supply_chain."@, 0);
    lemma_prefix_clash(code, "tools.duplicate_exact"@, "quality_delta."@, 0);
    lemma_prefix_clash(code, "tools.duplicate_exact"@, "boundary."@, 0);
    assert(reg.skip(0) =~= reg);
    lemma_hit_step(reg, PatternKind::Prefix, code, 0);
    lemma_hit_step(reg, PatternKind::Prefix, code, 1);
    lemma_hit_step(reg, PatternKind::Prefix, code, 2);
    lemma_hit_step(reg, PatternKind::Prefix, code, 3);
    lemma_hit_step(reg, PatternKind::Prefix, code, 4);
    lemma_hit_step(reg, PatternKind::Prefix, code, 5);
    lemma_hit_step(reg, PatternKind::Prefix, code, 6);
    lemma_hit_step(reg, PatternKind::Prefix, code, 7);
    lemma_hit_step(reg, PatternKind::Prefix, code, 8);
    lemma_hit_step(reg, PatternKind::Prefix, code, 9);
    lemma_hit_step(reg, PatternKind::Prefix, code, 10);
    lemma_hit_step(reg, PatternKind::Prefix, code, 11);
    lemma_hit_step(reg, PatternKind::Prefix, code, 12);
    lemma_hit_step(reg, PatternKind::Prefix, code, 13);
    lemma_hit_step(reg, PatternKind::Prefix, code, 14);
    lemma_hit_step(reg, PatternKind::Prefix, code, 15);
    lemma_hit_step(reg, PatternKind::Prefix, code, 16);
    lemma_hit_step(reg, PatternKind::Prefix, code, 17);
}

/// Every code in the `tools.duplicate_semantic` family (and not an infrastructure failure or a
/// more specific entry) is classed ContractBreak with tier Observation.
pub proof fn law_tools_duplicate_semantic_classifies_as_contractbreak_observation(code: Seq<char>)
    requires
        seq_starts_with(code, "tools.duplicate_semantic"@),
        !infra_failure(code),
    ensures
        classify_spec(code) == (ErrorClass::ContractBreak, ViolationTier::Observation),
{
    let reg = registry_spec();
    reveal_strlit("boundary.");
    reveal_strlit("config.");
    reveal_strlit("duplicates.ratchet_regression");
    reveal_strlit("exception.allowlist_invalid");
    reveal_strlit("exception.budget_exceeded");
    reveal_strlit("exception.expired");
    reveal_strlit("exception.window_exceeded");
    reveal_strlit("failure_modes.");
    reveal_strlit("gate.run_failed_transient");
    reveal_strlit("pack.");
    reveal_strlit("public_surface.ratchet_regression");
    reveal_strlit("quality_delta.");
    reveal_strlit("security.allow_any_policy");
    reveal_strlit("supply_chain.");
    reveal_strlit("tools.duplicate_exact");
    reveal_strlit("tools.duplicate_semantic");
    lemma_exact_clash(code, "tools.duplicate_semantic"@, "exception.allowlist_invalid"@, 0);
    lemma_exact_clash(code, "tools.duplicate_semantic"@, "security.allow_any_policy"@, 0);
    lemma_exact_clash(code, "tools.duplicate_semantic"@, "exception.expired"@, 0);
    lemma_exact_clash(code, "tools.duplicate_semantic"@, "exception.window_exceeded"@, 0);
    lemma_exact_clash(code, "tools.duplicate_semantic"@, "exception.budget_exceeded"@, 0);
    lemma_exact_clash(code, "tools.duplicate_semantic"@, "duplicates.ratchet_regression"@, 0);
    lemma_exact_clash(code, "tools.duplicate_semantic"@, "public_surface.ratchet_regression"@, 0);
    lemma_exact_clash(code, "tools.duplicate_semantic"@, "gate.run_failed_transient"@, 0);
    lemma_no_suffix_hit(code);
    lemma_no_exact_hit(code);
    lemma_prefix_clash(code, "tools.duplicate_semantic"@, "config."@, 0);
    lemma_prefix_clash(code, "tools.duplicate_semantic"@, "failure_modes."@, 0);
    lemma_prefix_clash(code, "tools.duplicate_semantic"@, "pack."@, 0);
    lemma_prefix_clash(code, "tools.duplicate_semantic"@, "supply_chain."@, 0);
    lemma_prefix_clash(code, "tools.duplicate_semantic"@, "quality_delta."@, 0);
    lemma_prefix_clash(code, "tools.duplicate_semantic"@, "boundary."@, 0);
    lemma_prefix_clash(code, "tools.duplicate_semantic"@, "tools.duplicate_exact"@, 16);
    assert(reg.skip(0) =~= reg);
    lemma_hit_step(reg, PatternKind::Prefix, code, 0);
    lemma_hit_step(reg, PatternKind::Prefix, code, 1);
    lemma_hit_step(reg, PatternKind::Prefix, code, 2);
    lemma_hit_step(reg, PatternKind::Prefix, code, 3);
    lemma_hit_step(reg, PatternKind::Prefix, code, 4);
    lemma_hit_step(reg, PatternKind::Prefix, code, 5);
    lemma_hit_step(reg, PatternKind::Prefix, code, 6);
    lemma_hit_step(reg, PatternKind::Prefix, code, 7);
    lemma_hit_step(reg, PatternKind::Prefix, code, 8);
    lemma_hit_step(reg, PatternKind::Prefix, code, 9);
    lemma_hit_step(reg, PatternKind::Prefix, code, 10);
    lemma_hit_step(reg, PatternKind::Prefix, code, 11);
    lemma_hit_step(reg, PatternKind::Prefix, code, 12);
    lemma_hit_step(reg, PatternKind::Prefix, code, 13);
    lemma_hit_step(reg, PatternKind::Prefix, code, 14);
    lemma_hit_step(reg, PatternKind::Prefix, code, 15);
    lemma_hit_step(reg, PatternKind::Prefix, code, 16);
    lemma_hit_step(reg, PatternKind::Prefix, code, 17);
    lemma_hit_step(reg, PatternKind::Prefix, code, 18);
}

/// Every code in the `loc.` family (and not an infrastructure failure or a
/// more specific entry) is classed ContractBreak with tier Observation.
pub proof fn law_loc_classifies_as_contractbreak_observation(code: Seq<char>)
    requires
        seq_starts_with(code, "loc."@),
        !infra_failure(code),
    ensures
        classify_spec(code) == (ErrorClass::ContractBreak, ViolationTier::Observation),
{
    let reg = registry_spec();
    reveal_strlit("boundary.");
    reveal_strlit("config.");
    reveal_strlit("duplicates.ratchet_regression");
    reveal_strlit("exception.allowlist_invalid");
    reveal_strlit("exception.budget_exceeded");
    reveal_strlit("exception.expired");
    reveal_strlit("exception.window_exceeded");
    reveal_strlit("failure_modes.");
    reveal_strlit("gate.run_failed_transient");
    reveal_strlit("loc.");
    reveal_strlit("pack.");
    reveal_strlit("public_surface.ratchet_regression");
    reveal_strlit("quality_delta.");
    reveal_strlit("security.allow_any_policy");
    reveal_strlit("supply_chain.");
    reveal_strlit("tools.duplicate_exact");
    reveal_strlit("tools.duplicate_semantic");
    lemma_exact_clash(code, "loc."@, "exception.allowlist_invalid"@, 0);
    lemma_exact_clash(code, "loc."@, "security.allow_any_policy"@, 0);
    lemma_exact_clash(code, "loc."@, "exception.expired"@, 0);
    lemma_exact_clash(code, "loc."@, "exception.window_exceeded"@, 0);
    lemma_exact_clash(code, "loc."@, "exception.budget_exceeded"@, 0);
    lemma_exact_clash(code, "loc."@, "duplicates.ratchet_regression"@, 0);
    lemma_exact_clash(code, "loc."@, "public_surface.ratchet_regression"@, 0);
    lemma_exact_clash(code, "loc."@, "gate.run_failed_transient"@, 0);
    lemma_no_suffix_hit(code);
    lemma_no_exact_hit(code);
    lemma_prefix_clash(code, "loc."@, "config."@, 0);
    lemma_prefix_clash(code, "loc."@, "failure_modes."@, 0);
    lemma_prefix_clash(code, "loc."@, "pack."@, 0);
    lemma_prefix_clash(code, "loc."@, "supply_chain."@, 0);
    lemma_prefix_clash(code, "loc."@, "quality_delta."@, 0);
    lemma_prefix_clash(code, "loc."@, "boundary."@, 0);
    lemma_prefix_clash(code, "loc."@, "tools.duplicate_exact"@, 0);
    lemma_prefix_clash(code, "loc."@, "tools.duplicate_semantic"@, 0);
    assert(reg.skip(0) =~= reg);
    lemma_hit_step(reg, PatternKind::Prefix, code, 0);
    lemma_hit_step(reg, PatternKind::Prefix, code, 1);
    lemma_hit_step(reg, PatternKind::Prefix, code, 2);
    lemma_hit_step(reg, PatternKind::Prefix, code, 3);
    lemma_hit_step(reg, PatternKind::Prefix, code, 4);
    lemma_hit_step(reg, PatternKind::Prefix, code, 5);
    lemma_hit_step(reg, PatternKind::Prefix, code, 6);
    lemma_hit_step(reg, PatternKind::Prefix, code, 7);
    lemma_hit_step(reg, PatternKind::Prefix, code, 8);
    lemma_hit_step(reg, PatternKind::Prefix, code, 9);
    lemma_hit_step(reg, PatternKind::Prefix, code, 10);
    lemma_hit_step(reg, PatternKind::Prefix, code, 11);
    lemma_hit_step(reg, PatternKind::Prefix, code, 12);
    lemma_hit_step(reg, PatternKind::Prefix, code, 13);
    lemma_hit_step(reg, PatternKind::Prefix, code, 14);
    lemma_hit_step(reg, PatternKind::Prefix, code, 15);
    lemma_hit_step(reg, PatternKind::Prefix, code, 16);
    lemma_hit_step(reg, PatternKind::Prefix, code, 17);
    lemma_hit_step(reg, PatternKind::Prefix, code, 18);
    lemma_hit_step(reg, PatternKind::Prefix, code, 19);
}

/// Every code in the `surface.` family (and not an infrastructure failure or a
/// more specific entry) is classed ContractBreak with tier Observation.
pub proof fn law_surface_classifies_as_contractbreak_observation(code: Seq<char>)
    requires
        seq_starts_with(code, "surface."@),
        !infra_failure(code),
    ensures
        classify_spec(code) == (ErrorClass::ContractBreak, ViolationTier::Observation),
{
    let reg = registry_spec();
    reveal_strlit("boundary.");
    reveal_strlit("config.");
    reveal_strlit("duplicates.ratchet_regression");
    reveal_strlit("exception.allowlist_invalid");
    reveal_strlit("exception.budget_exceeded");
    reveal_strlit("exception.expired");
    reveal_strlit("exception.window_exceeded");
    reveal_strlit("failure_modes.");
    reveal_strlit("gate.run_failed_transient");
    reveal_strlit("loc.");
    reveal_strlit("pack.");
    reveal_strlit("public_surface.ratchet_regression");
    reveal_strlit("quality_delta.");
    reveal_strlit("security.allow_any_policy");
    reveal_strlit("supply_chain.");
    reveal_strlit("surface.");
    reveal_strlit("tools.duplicate_exact");
    reveal_strlit("tools.duplicate_semantic");
    lemma_exact_clash(code, "surface."@, "exception.allowlist_invalid"@, 0);
    lemma_exact_clash(code, "surface."@, "security.allow_any_policy"@, 1);
    lemma_exact_clash(code, "surface."@, "exception.expired"@, 0);
    lemma_exact_clash(code, "surface."@, "exception.window_exceeded"@, 0);
    lemma_exact_clash(code, "surface."@, "exception.budget_exceeded"@, 0);
    lemma_exact_clash(code, "surface."@, "duplicates.ratchet_regression"@, 0);
    lemma_exact_clash(code, "surface."@, "public_surface.ratchet_regression"@, 0);
    lemma_exact_clash(code, "surface."@, "gate.run_failed_transient"@, 0);
    lemma_no_suffix_hit(code);
    lemma_no_exact_hit(code);
    lemma_prefix_clash(code, "surface."@, "config."@, 0);
    lemma_prefix_clash(code, "surface."@, "failure_modes."@, 0);
    lemma_prefix_clash(code, "surface."@, "pack."@, 0);
    lemma_prefix_clash(code, "surface."@, "supply_chain."@, 2);
    lemma_prefix_clash(code, "surface."@, "quality_delta."@, 0);
    lemma_prefix_clash(code, "surface."@, "boundary."@, 0);
    lemma_prefix_clash(code, "surface."@, "tools.duplicate_exact"@, 0);
    lemma_prefix_clash(code, "surface."@, "tools.duplicate_semantic"@, 0);
    lemma_prefix_clash(code, "surface."@, "loc."@, 0);
    assert(reg.skip(0) =~= reg);
    lemma_hit_step(reg, PatternKind::Prefix, code, 0);
    lemma_hit_step(reg, PatternKind::Prefix, code, 1);
    lemma_hit_step(reg, PatternKind::Prefix, code, 2);
    lemma_hit_step(reg, PatternKind::Prefix, code, 3);
    lemma_hit_step(reg, PatternKind::Prefix, code, 4);
    lemma_hit_step(reg, PatternKind::Prefix, code, 5);
    lemma_hit_step(reg, PatternKind::Prefix, code, 6);
    lemma_hit_step(reg, PatternKind::Prefix, code, 7);
    lemma_hit_step(reg, PatternKind::Prefix, code, 8);
    lemma_hit_step(reg, PatternKind::Prefix, code, 9);
    lemma_hit_step(reg, PatternKind::Prefix, code, 10);
    lemma_hit_step(reg, PatternKind::Prefix, code, 11);
    lemma_hit_step(reg, PatternKind::Prefix, code, 12);
    lemma_hit_step(reg, PatternKind::Prefix, code, 13);
    lemma_hit_step(reg, PatternKind::Prefix, code, 14);
    lemma_hit_step(reg, PatternKind::Prefix, code, 15);
    lemma_hit_step(reg, PatternKind::Prefix, code, 16);
    lemma_hit_step(reg, PatternKind::Prefix, code, 17);
    lemma_hit_step(reg, PatternKind::Prefix, code, 18);
    lemma_hit_step(reg, PatternKind::Prefix, code, 19);
    lemma_hit_step(reg, PatternKind::Prefix, code, 20);
}

/// Every code in the `duplicates.` family (and not an infrastructure failure or a
/// more specific entry) is classed ContractBreak with tier Observation.
pub proof fn law_duplicates_classifies_as_contractbreak_observation(code: Seq<char>)
    requires
        seq_starts_with(code, "duplicates."@),
        !infra_failure(code),
        code != "duplicates.ratchet_regression"@,
    ensures
        classify_spec(code) == (ErrorClass::ContractBreak, ViolationTier::Observation),
{
    let reg = registry_spec();
    reveal_strlit("boundary.");
    reveal_strlit("config.");
    reveal_strlit("duplicates.");
    reveal_strlit("duplicates.ratchet_regression");
    reveal_strlit("exception.allowlist_invalid");
    reveal_strlit("exception.budget_exceeded");
    reveal_strlit("exception.expired");
    reveal_strlit("exception.window_exceeded");
    reveal_strlit("failure_modes.");
    reveal_strlit("gate.run_failed_transient");
    reveal_strlit("loc.");
    reveal_strlit("pack.");
    reveal_strlit("public_surface.ratchet_regression");
    reveal_strlit("quality_delta.");
    reveal_strlit("security.allow_any_policy");
    reveal_strlit("supply_chain.");
    reveal_strlit("surface.");
    reveal_strlit("tools.duplicate_exact");
    reveal_strlit("tools.duplicate_semantic");
    lemma_exact_clash(code, "duplicates."@, "exception.allowlist_invalid"@, 0);
    lemma_exact_clash(code, "duplicates."@, "security.allow_any_policy"@, 0);
    lemma_exact_clash(code, "duplicates."@, "exception.expired"@, 0);
    lemma_exact_clash(code, "duplicates."@, "exception.window_exceeded"@, 0);
    lemma_exact_clash(code, "duplicates."@, "exception.budget_exceeded"@, 0);
    lemma_exact_clash(code, "duplicates."@, "public_surface.ratchet_regression"@, 0);
    lemma_exact_clash(code, "duplicates."@, "gate.run_failed_transient"@, 0);
    lemma_no_suffix_hit(code);
    lemma_no_exact_hit(code);
    lemma_prefix_clash(code, "duplicates."@, "config."@, 0);
    lemma_prefix_clash(code, "duplicates."@, "failure_modes."@, 0);
    lemma_prefix_clash(code, "duplicates."@, "pack."@, 0);
    lemma_prefix_clash(code, "duplicates."@, "supply_chain."@, 0);
    lemma_prefix_clash(code, "duplicates."@, "quality_delta."@, 0);
    lemma_prefix_clash(code, "duplicates."@, "boundary."@, 0);
    lemma_prefix_clash(code, "duplicates."@, "tools.duplicate_exact"@, 0);
    lemma_prefix_clash(code, "duplicates."@, "tools.duplicate_semantic"@, 0);
    lemma_prefix_clash(code, "duplicates."@, "loc."@, 0);
    lemma_prefix_clash(code, "duplicates."@, "surface."@, 0);
    assert(reg.skip(0) =~= reg);
    lemma_hit_step(reg, PatternKind::Prefix, code, 0);
    lemma_hit_step(reg, PatternKind::Prefix, code, 1);
    lemma_hit_step(reg, PatternKind::Prefix, code, 2);
    lemma_hit_step(reg, PatternKind::Prefix, code, 3);
    lemma_hit_step(reg, PatternKind::Prefix, code, 4);
    lemma_hit_step(reg, PatternKind::Prefix, code, 5);
    lemma_hit_step(reg, PatternKind::Prefix, code, 6);
    lemma_hit_step(reg, PatternKind::Prefix, code, 7);
    lemma_hit_step(reg, PatternKind::Prefix, code, 8);
    lemma_hit_step(reg, PatternKind::Prefix, code, 9);
    lemma_hit_step(reg, PatternKind::Prefix, code, 10);
    lemma_hit_step(reg, PatternKind::Prefix, code, 11);
    lemma_hit_step(reg, PatternKind::Prefix, code, 12);
    lemma_hit_step(reg, PatternKind::Prefix, code, 13);
    lemma_hit_step(reg, PatternKind::Prefix, code, 14);
    lemma_hit_step(reg, PatternKind::Prefix, code, 15);
    lemma_hit_step(reg, PatternKind::Prefix, code, 16);
    lemma_hit_step(reg, PatternKind::Prefix, code, 17);
    lemma_hit_step(reg, PatternKind::Prefix, code, 18);
    lemma_hit_step(reg, PatternKind::Prefix, code, 19);
    lemma_hit_step(reg, PatternKind::Prefix, code, 20);
    lemma_hit_step(reg, PatternKind::Prefix, code, 21);
}

/// Every code in the `dead_code.` family (and not an infrastructure failure or a
/// more specific entry) is classed ContractBreak with tier Observation.
pub proof fn law_dead_code_classifies_as_contractbreak_observation(code: Seq<char>)
    requires
        seq_starts_with(code, "dead_code."@),
        !infra_failure(code),
    ensures
        classify_spec(code) == (ErrorClass::ContractBreak, ViolationTier::Observation),
{
    let reg = registry_spec();
    reveal_strlit("boundary.");
    reveal_strlit("config.");
    reveal_strlit("dead_code.");
    reveal_strlit("duplicates.");
    reveal_strlit("duplicates.ratchet_regression");
    reveal_strlit("exception.allowlist_invalid");
    reveal_strlit("exception.budget_exceeded");
    reveal_strlit("exception.expired");
    reveal_strlit("exception.window_exceeded");
    reveal_strlit("failure_modes.");
    reveal_strlit("gate.run_failed_transient");
    reveal_strlit("loc.");
    reveal_strlit("pack.");
    reveal_strlit("public_surface.ratchet_regression");
    reveal_strlit("quality_delta.");
    reveal_strlit("security.allow_any_policy");
    reveal_strlit("supply_chain.");
    reveal_strlit("surface.");
    reveal_strlit("tools.duplicate_exact");
    reveal_strlit("tools.duplicate_semantic");
    lemma_exact_clash(code, "dead_code."@, "exception.allowlist_invalid"@, 0);
    lemma_exact_clash(code, "dead_code."@, "security.allow_any_policy"@, 0);
    lemma_exact_clash(code, "dead_code."@, "exception.expired"@, 0);
    lemma_exact_clash(code, "dead_code."@, "exception.window_exceeded"@, 0);
    lemma_exact_clash(code, "dead_code."@, "exception.budget_exceeded"@, 0);
    lemma_exact_clash(code, "dead_code."@, "duplicates.ratchet_regression"@, 1);
    lemma_exact_clash(code, "dead_code."@, "public_surface.ratchet_regression"@, 0);
    lemma_exact_clash(code, "dead_code."@, "gate.run_failed_transient"@, 0);
    lemma_no_suffix_hit(code);
    lemma_no_exact_hit(code);
    lemma_prefix_clash(code, "dead_code."@, "config."@, 0);
    lemma_prefix_clash(code, "dead_code."@, "failure_modes."@, 0);
    lemma_prefix_clash(code, "dead_code."@, "pack."@, 0);
    lemma_prefix_clash(code, "dead_code."@, "supply_chain."@, 0);
    lemma_prefix_clash(code, "dead_code."@, "quality_delta."@, 0);
    lemma_prefix_clash(code, "dead_code."@, "boundary."@, 0);
    lemma_prefix_clash(code, "dead_code."@, "tools.duplicate_exact"@, 0);
    lemma_prefix_clash(code, "dead_code."@, "tools.duplicate_semantic"@, 0);
    lemma_prefix_clash(code, "dead_code."@, "loc."@, 0);
    lemma_prefix_clash(code, "dead_code."@, "surface."@, 0);
    lemma_prefix_clash(code, "dead_code."@, "duplicates."@, 1);
    assert(reg.skip(0) =~= reg);
    lemma_hit_step(reg, PatternKind::Prefix, code, 0);
    lemma_hit_step(reg, PatternKind::Prefix, code, 1);
    lemma_hit_step(reg, PatternKind::Prefix, code, 2);
    lemma_hit_step(reg, PatternKind::Prefix, code, 3);
    lemma_hit_step(reg, PatternKind::Prefix, code, 4);
    lemma_hit_step(reg, PatternKind::Prefix, code, 5);
    lemma_hit_step(reg, PatternKind::Prefix, code, 6);
    lemma_hit_step(reg, PatternKind::Prefix, code, 7);
    lemma_hit_step(reg, PatternKind::Prefix, code, 8);
    lemma_hit_step(reg, PatternKind::Prefix, code, 9);
    lemma_hit_step(reg, PatternKind::Prefix, code, 10);
    lemma_hit_step(reg, PatternKind::Prefix, code, 11);
    lemma_hit_step(reg, PatternKind::Prefix, code, 12);
    lemma_hit_step(reg, PatternKind::Prefix, code, 13);
    lemma_hit_step(reg, PatternKind::Prefix, code, 14);
    lemma_hit_step(reg, PatternKind::Prefix, code, 15);
    lemma_hit_step(reg, PatternKind::Prefix, code, 16);
    lemma_hit_step(reg, PatternKind::Prefix, code, 17);
    lemma_hit_step(reg, PatternKind::Prefix, code, 18);
    lemma_hit_step(reg, PatternKind::Prefix, code, 19);
    lemma_hit_step(reg, PatternKind::Prefix, code, 20);
    lemma_hit_step(reg, PatternKind::Prefix, code, 21);
    lemma_hit_step(reg, PatternKind::Prefix, code, 22);
}

/// Every code in the `orphan_api.` family (and not an infrastructure failure or a
/// more specific entry) is classed ContractBreak with tier Observation.
pub proof fn law_orphan_api_classifies_as_contractbreak_observation(code: Seq<char>)
    requires
        seq_starts_with(code, "orphan_api."@),
        !infra_failure(code),
    ensures
        classify_spec(code) == (ErrorClass::ContractBreak, ViolationTier::Observation),
{
    let reg = registry_spec();
    reveal_strlit("boundary.");
    reveal_strlit("config.");
    reveal_strlit("dead_code.");
    reveal_strlit("duplicates.");
    reveal_strlit("duplicates.ratchet_regression");
    reveal_strlit("exception.allowlist_invalid");
    reveal_strlit("exception.budget_exceeded");
    reveal_strlit("exception.expired");
    reveal_strlit("exception.window_exceeded");
    reveal_strlit("failure_modes.");
    reveal_strlit("gate.run_failed_transient");
    reveal_strlit("loc.");
    reveal_strlit("orphan_api.");
    reveal_strlit("pack.");
    reveal_strlit("public_surface.ratchet_regression");
    reveal_strlit("quality_delta.");
    reveal_strlit("security.allow_any_policy");
    reveal_strlit("supply_chain.");
    reveal_strlit("surface.");
    reveal_strlit("tools.duplicate_exact");
    reveal_strlit("tools.duplicate_semantic");
    lemma_exact_clash(code, "orphan_api."@, "exception.allowlist_invalid"@, 0);
    lemma_exact_clash(code, "orphan_api."@, "security.allow_any_policy"@, 0);
    lemma_exact_clash(code, "orphan_api."@, "exception.expired"@, 0);
    lemma_exact_clash(code, "orphan_api."@, "exception.window_exceeded"@, 0);
    lemma_exact_clash(code, "orphan_api."@, "exception.budget_exceeded"@, 0);
    lemma_exact_clash(code, "orphan_api."@, "duplicates.ratchet_regression"@, 0);
    lemma_exact_clash(code, "orphan_api."@, "public_surface.ratchet_regression"@, 0);
    lemma_exact_clash(code, "orphan_api."@, "gate.run_failed_transient"@, 0);
    lemma_no_suffix_hit(code);
    lemma_no_exact_hit(code);
    lemma_prefix_clash(code, "orphan_api."@, "config."@, 0);
    lemma_prefix_clash(code, "orphan_api."@, "failure_modes."@, 0);
    lemma_prefix_clash(code, "orphan_api."@, "pack."@, 0);
    lemma_prefix_clash(code, "orphan_api."@, "supply_chain."@, 0);
    lemma_prefix_clash(code, "orphan_api."@, "quality_delta."@, 0);
    lemma_prefix_clash(code, "orphan_api."@, "boundary."@, 0);
    lemma_prefix_clash(code, "orphan_api."@, "tools.duplicate_exact"@, 0);
    lemma_prefix_clash(code, "orphan_api."@, "tools.duplicate_semantic"@, 0);
    lemma_prefix_clash(code, "orphan_api."@, "loc."@, 0);
    lemma_prefix_clash(code, "orphan_api."@, "surface."@, 0);
    lemma_prefix_clash(code, "orphan_api."@, "duplicates."@, 0);
    lemma_prefix_clash(code, "orphan_api."@, "dead_code."@, 0);
    assert(reg.skip(0) =~= reg);
    lemma_hit_step(reg, PatternKind::Prefix, code, 0);
    lemma_hit_step(reg, PatternKind::Prefix, code, 1);
    lemma_hit_step(reg, PatternKind::Prefix, code, 2);
    lemma_hit_step(reg, PatternKind::Prefix, code, 3);
    lemma_hit_step(reg, PatternKind::Prefix, code, 4);
    lemma_hit_step(reg, PatternKind::Prefix, code, 5);
    lemma_hit_step(reg, PatternKind::Prefix, code, 6);
    lemma_hit_step(reg, PatternKind::Prefix, code, 7);
    lemma_hit_step(reg, PatternKind::Prefix, code, 8);
    lemma_hit_step(reg, PatternKind::Prefix, code, 9);
    lemma_hit_step(reg, PatternKind::Prefix, code, 10);
    lemma_hit_step(reg, PatternKind::Prefix, code, 11);
    lemma_hit_step(reg, PatternKind::Prefix, code, 12);
    lemma_hit_step(reg, PatternKind::Prefix, code, 13);
    lemma_hit_step(reg, PatternKind::Prefix, code, 14);
    lemma_hit_step(reg, PatternKind::Prefix, code, 15);
    lemma_hit_step(reg, PatternKind::Prefix, code, 16);
    lemma_hit_step(reg, PatternKind::Prefix, code, 17);
    lemma_hit_step(reg, PatternKind::Prefix, code, 18);
    lemma_hit_step(reg, PatternKind::Prefix, code, 19);
    lemma_hit_step(reg, PatternKind::Prefix, code, 20);
    lemma_hit_step(reg, PatternKind::Prefix, code, 21);
    lemma_hit_step(reg, PatternKind::Prefix, code, 22);
    lemma_hit_step(reg, PatternKind::Prefix, code, 23);
}

/// Every code in the `env_registry.` family (and not an infrastructure failure or a
/// more specific entry) is classed ContractBreak with tier Observation.
pub proof fn law_env_registry_classifies_as_contractbreak_observation(code: Seq<char>)
    requires
        seq_starts_with(code, "env_registry."@),
        !infra_failure(code),
    ensures
        classify_spec(code) == (ErrorClass::ContractBreak, ViolationTier::Observation),
{
    let reg = registry_spec();
    reveal_strlit("boundary.");
    reveal_strlit("config.");
    reveal_strlit("dead_code.");
    reveal_strlit("duplicates.");
    reveal_strlit("duplicates.ratchet_regression");
    reveal_strlit("env_registry.");
    reveal_strlit("exception.allowlist_invalid");
    reveal_strlit("exception.budget_exceeded");
    reveal_strlit("exception.expired");
    reveal_strlit("exception.window_exceeded");
    reveal_strlit("failure_modes.");
    reveal_strlit("gate.run_failed_transient");
    reveal_strlit("loc.");
    reveal_strlit("orphan_api.");
    reveal_strlit("pack.");
    reveal_strlit("public_surface.ratchet_regression");
    reveal_strlit("quality_delta.");
    reveal_strlit("security.allow_any_policy");
    reveal_strlit("supply_chain.");
    reveal_strlit("surface.");
    reveal_strlit("tools.duplicate_exact");
    reveal_strlit("tools.duplicate_semantic");
    lemma_exact_clash(code, "env_registry."@, "exception.allowlist_invalid"@, 1);
    lemma_exact_clash(code, "env_registry."@, "security.allow_any_policy"@, 0);
    lemma_exact_clash(code, "env_registry."@, "exception.expired"@, 1);
    lemma_exact_clash(code, "env_registry."@, "exception.window_exceeded"@, 1);
    lemma_exact_clash(code, "env_registry."@, "exception.budget_exceeded"@, 1);
    lemma_exact_clash(code, "env_registry."@, "duplicates.ratchet_regression"@, 0);
    lemma_exact_clash(code, "env_registry."@, "public_surface.ratchet_regression"@, 0);
    lemma_exact_clash(code, "env_registry."@, "gate.run_failed_transient"@, 0);
    lemma_no_suffix_hit(code);
    lemma_no_exact_hit(code);
    lemma_prefix_clash(code, "env_registry."@, "config."@, 0);
    lemma_prefix_clash(code, "env_registry."@, "failure_modes."@, 0);
    lemma_prefix_clash(code, "env_registry."@, "pack."@, 0);
    lemma_prefix_clash(code, "env_registry."@, "supply_chain."@, 0);
    lemma_prefix_clash(code, "env_registry."@, "quality_delta."@, 0);
    lemma_prefix_clash(code, "env_registry."@, "boundary."@, 0);
    lemma_prefix_clash(code, "env_registry."@, "tools.duplicate_exact"@, 0);
    lemma_prefix_clash(code, "env_registry."@, "tools.duplicate_semantic"@, 0);
    lemma_prefix_clash(code, "env_registry."@, "loc."@, 0);
    lemma_prefix_clash(code, "env_registry."@, "surface."@, 0);
    lemma_prefix_clash(code, "env_registry."@, "duplicates."@, 0);
    lemma_prefix_clash(code, "env_registry."@, "dead_code."@, 0);
    lemma_prefix_clash(code, "env_registry."@, "orphan_api."@, 0);
    assert(reg.skip(0) =~= reg);
    lemma_hit_step(reg, PatternKind::Prefix, code, 0);
    lemma_hit_step(reg, PatternKind::Prefix, code, 1);
    lemma_hit_step(reg, PatternKind::Prefix, code, 2);
    lemma_hit_step(reg, PatternKind::Prefix, code, 3);
    lemma_hit_step(reg, PatternKind::Prefix, code, 4);
    lemma_hit_step(reg, PatternKind::Prefix, code, 5);
    lemma_hit_step(reg, PatternKind::Prefix, code, 6);
    lemma_hit_step(reg, PatternKind::Prefix, code, 7);
    lemma_hit_step(reg, PatternKind::Prefix, code, 8);
    lemma_hit_step(reg, PatternKind::Prefix, code, 9);
    lemma_hit_step(reg, PatternKind::Prefix, code, 10);
    lemma_hit_step(reg, PatternKind::Prefix, code, 11);
    lemma_hit_step(reg, PatternKind::Prefix, code, 12);
    lemma_hit_step(reg, PatternKind::Prefix, code, 13);
    lemma_hit_step(reg, PatternKind::Prefix, code, 14);
    lemma_hit_step(reg, PatternKind::Prefix, code, 15);
    lemma_hit_step(reg, PatternKind::Prefix, code, 16);
    lemma_hit_step(reg, PatternKind::Prefix, code, 17);
    lemma_hit_step(reg, PatternKind::Prefix, code, 18);
    lemma_hit_step(reg, PatternKind::Prefix, code, 19);
    lemma_hit_step(reg, PatternKind::Prefix, code, 20);
    lemma_hit_step(reg, PatternKind::Prefix, code, 21);
    lemma_hit_step(reg, PatternKind::Prefix, code, 22);
    lemma_hit_step(reg, PatternKind::Prefix, code, 23);
    lemma_hit_step(reg, PatternKind::Prefix, code, 24);
}

/// Every code in the `env.` family (and not an infrastructure failure or a
/// more specific entry) is classed ContractBreak with tier Observation.
pub proof fn law_env_classifies_as_contractbreak_observation(code: Seq<char>)
    requires
        seq_starts_with(code, "env."@),
        !infra_failure(code),
    ensures
        classify_spec(code) == (ErrorClass::ContractBreak, ViolationTier::Observation),
{
    let reg = registry_spec();
    reveal_strlit("boundary.");
    reveal_strlit("config.");
    reveal_strlit("dead_code.");
    reveal_strlit("duplicates.");
    reveal_strlit("duplicates.ratchet_regression");
    reveal_strlit("env.");
    reveal_strlit("env_registry.");
    reveal_strlit("exception.allowlist_invalid");
    reveal_strlit("exception.budget_exceeded");
    reveal_strlit("exception.expired");
    reveal_strlit("exception.window_exceeded");
    reveal_strlit("failure_modes.");
    reveal_strlit("gate.run_failed_transient");
    reveal_strlit("loc.");
    reveal_strlit("orphan_api.");
    reveal_strlit("pack.");
    reveal_strlit("public_surface.ratchet_regression");
    reveal_strlit("quality_delta.");
    reveal_strlit("security.allow_any_policy");
    reveal_strlit("supply_chain.");
    reveal_strlit("surface.");
    reveal_strlit("tools.duplicate_exact");
    reveal_strlit("tools.duplicate_semantic");
    lemma_exact_clash(code, "env."@, "exception.allowlist_invalid"@, 1);
    lemma_exact_clash(code, "env."@, "security.allow_any_policy"@, 0);
    lemma_exact_clash(code, "env."@, "exception.expired"@, 1);
    lemma_exact_clash(code, "env."@, "exception.window_exceeded"@, 1);
    lemma_exact_clash(code, "env."@, "exception.budget_exceeded"@, 1);
    lemma_exact_clash(code, "env."@, "duplicates.ratchet_regression"@, 0);
    lemma_exact_clash(code, "env."@, "public_surface.ratchet_regression"@, 0);
    lemma_exact_clash(code, "env."@, "gate.run_failed_transient"@, 0);
    lemma_no_suffix_hit(code);
    lemma_no_exact_hit(code);
    lemma_prefix_clash(code, "env."@, "config."@, 0);
    lemma_prefix_clash(code, "env."@, "failure_modes."@, 0);
    lemma_prefix_clash(code, "env."@, "pack."@, 0);
    lemma_prefix_clash(code, "env."@, "supply_chain."@, 0);
    lemma_prefix_clash(code, "env."@, "quality_delta."@, 0);
    lemma_prefix_clash(code, "env."@, "boundary."@, 0);
    lemma_prefix_clash(code, "env."@, "tools.duplicate_exact"@, 0);
    lemma_prefix_clash(code, "env."@, "tools.duplicate_semantic"@, 0);
    lemma_prefix_clash(code, "env."@, "loc."@, 0);
    lemma_prefix_clash(code, "env."@, "surface."@, 0);
    lemma_prefix_clash(code, "env."@, "duplicates."@, 0);
    lemma_prefix_clash(code, "env."@, "dead_code."@, 0);
    lemma_prefix_clash(code, "env."@, "orphan_api."@, 0);
    lemma_prefix_clash(code, "env."@, "env_registry."@, 3);
    assert(reg.skip(0) =~= reg);
    lemma_hit_step(reg, PatternKind::Prefix, code, 0);
    lemma_hit_step(reg, PatternKind::Prefix, code, 1);
    lemma_hit_step(reg, PatternKind::Prefix, code, 2);
    lemma_hit_step(reg, PatternKind::Prefix, code, 3);
    lemma_hit_step(reg, PatternKind::Prefix, code, 4);
    lemma_hit_step(reg, PatternKind::Prefix, code, 5);
    lemma_hit_step(reg, PatternKind::Prefix, code, 6);
    lemma_hit_step(reg, PatternKind::Prefix, code, 7);
    lemma_hit_step(reg, PatternKind::Prefix, code, 8);
    lemma_hit_step(reg, PatternKind::Prefix, code, 9);
    lemma_hit_step(reg, PatternKind::Prefix, code, 10);
    lemma_hit_step(reg, PatternKind::Prefix, code, 11);
    lemma_hit_step(reg, PatternKind::Prefix, code, 12);
    lemma_hit_step(reg, PatternKind::Prefix, code, 13);
    lemma_hit_step(reg, PatternKind::Prefix, code, 14);
    lemma_hit_step(reg, PatternKind::Prefix, code, 15);
    lemma_hit_step(reg, PatternKind::Prefix, code, 16);
    lemma_hit_step(reg, PatternKind::Prefix, code, 17);
    lemma_hit_step(reg, PatternKind::Prefix, code, 18);
    lemma_hit_step(reg, PatternKind::Prefix, code, 19);
    lemma_hit_step(reg, PatternKind::Prefix, code, 20);
    lemma_hit_step(reg, PatternKind::Prefix, code, 21);
    lemma_hit_step(reg, PatternKind::Prefix, code, 22);
    lemma_hit_step(reg, PatternKind::Prefix, code, 23);
    lemma_hit_step(reg, PatternKind::Prefix, code, 24);
    lemma_hit_step(reg, PatternKind::Prefix, code, 25);
}

/// Every code in the `public_surface.` family (and not an infrastructure failure or a
/// more specific entry) is classed ContractBreak with tier Observation.
pub proof fn law_public_surface_classifies_as_contractbreak_observation(code: Seq<char>)
    requires
        seq_starts_with(code, "public_surface."@),
        !infra_failure(code),
        code != "public_surface.ratchet_regression"@,
    ensures
        classify_spec(code) == (ErrorClass::ContractBreak, ViolationTier::Observation),
{
    let reg = registry_spec();
    reveal_strlit("boundary.");
    reveal_strlit("config.");
    reveal_strlit("dead_code.");
    reveal_strlit("duplicates.");
    reveal_strlit("duplicates.ratchet_regression");
    reveal_strlit("env.");
    reveal_strlit("env_registry.");
    reveal_strlit("exception.allowlist_invalid");
    reveal_strlit("exception.budget_exceeded");
    reveal_strlit("exception.expired");
    reveal_strlit("exception.window_exceeded");
    reveal_strlit("failure_modes.");
    reveal_strlit("gate.run_failed_transient");
    reveal_strlit("loc.");
    reveal_strlit("orphan_api.");
    reveal_strlit("pack.");
    reveal_strlit("public_surface.");
    reveal_strlit("public_surface.ratchet_regression");
    reveal_strlit("quality_delta.");
    reveal_strlit("security.allow_any_policy");
    reveal_strlit("supply_chain.");
    reveal_strlit("surface.");
    reveal_strlit("tools.duplicate_exact");
    reveal_strlit("tools.duplicate_semantic");
    lemma_exact_clash(code, "public_surface."@, "exception.allowlist_invalid"@, 0);
    lemma_exact_clash(code, "public_surface."@, "security.allow_any_policy"@, 0);
    lemma_exact_clash(code, "public_surface."@, "exception.expired"@, 0);
    lemma_exact_clash(code, "public_surface."@, "exception.window_exceeded"@, 0);
    lemma_exact_clash(code, "public_surface."@, "exception.budget_exceeded"@, 0);
    lemma_exact_clash(code, "public_surface."@, "duplicates.ratchet_regression"@, 0);
    lemma_exact_clash(code, "public_surface."@, "gate.run_failed_transient"@, 0);
    lemma_no_suffix_hit(code);
    lemma_no_exact_hit(code);
    lemma_prefix_clash(code, "public_surface."@, "config."@, 0);
    lemma_prefix_clash(code, "public_surface."@, "failure_modes."@, 0);
    lemma_prefix_clash(code, "public_surface."@, "pack."@, 1);
    lemma_prefix_clash(code, "public_surface."@, "supply_chain."@, 0);
    lemma_prefix_clash(code, "public_surface."@, "quality_delta."@, 0);
    lemma_prefix_clash(code, "public_surface."@, "boundary."@, 0);
    lemma_prefix_clash(code, "public_surface."@, "tools.duplicate_exact"@, 0);
    lemma_prefix_clash(code, "public_surface."@, "tools.duplicate_semantic"@, 0);
    lemma_prefix_clash(code, "public_surface."@, "loc."@, 0);
    lemma_prefix_clash(code, "public_surface."@, "surface."@, 0);
    lemma_prefix_clash(code, "public_surface."@, "duplicates."@, 0);
    lemma_prefix_clash(code, "public_surface."@, "dead_code."@, 0);
    lemma_prefix_clash(code, "public_surface."@, "orphan_api."@, 0);
    lemma_prefix_clash(code, "public_surface."@, "env_registry."@, 0);
    lemma_prefix_clash(code, "public_surface."@, "env."@, 0);
    assert(reg.skip(0) =~= reg);
    lemma_hit_step(reg, PatternKind::Prefix, code, 0);
    lemma_hit_step(reg, PatternKind::Prefix, code, 1);
    lemma_hit_step(reg, PatternKind::Prefix, code, 2);
    lemma_hit_step(reg, PatternKind::Prefix, code, 3);
    lemma_hit_step(reg, PatternKind::Prefix, code, 4);
    lemma_hit_step(reg, PatternKind::Prefix, code, 5);
    lemma_hit_step(reg, PatternKind::Prefix, code, 6);
    lemma_hit_step(reg, PatternKind::Prefix, code, 7);
    lemma_hit_step(reg, PatternKind::Prefix, code, 8);
    lemma_hit_step(reg, PatternKind::Prefix, code, 9);
    lemma_hit_step(reg, PatternKind::Prefix, code, 10);
    lemma_hit_step(reg, PatternKind::Prefix, code, 11);
    lemma_hit_step(reg, PatternKind::Prefix, code, 12);
    lemma_hit_step(reg, PatternKind::Prefix, code, 13);
    lemma_hit_step(reg, PatternKind::Prefix, code, 14);
    lemma_hit_step(reg, PatternKind::Prefix, code, 15);
    lemma_hit_step(reg, PatternKind::Prefix, code, 16);
    lemma_hit_step(reg, PatternKind::Prefix, code, 17);
    lemma_hit_step(reg, PatternKind::Prefix, code, 18);
    lemma_hit_step(reg, PatternKind::Prefix, code, 19);
    lemma_hit_step(reg, PatternKind::Prefix, code, 20);
    lemma_hit_step(reg, PatternKind::Prefix, code, 21);
    lemma_hit_step(reg, PatternKind::Prefix, code, 22);
    lemma_hit_step(reg, PatternKind::Prefix, code, 23);
    lemma_hit_step(reg, PatternKind::Prefix, code, 24);
    lemma_hit_step(reg, PatternKind::Prefix, code, 25);
    lemma_hit_step(reg, PatternKind::Prefix, code, 26);
}

/// Every code in the `tool_budget.` family (and not an infrastructure failure or a
/// more specific entry) is classed ContractBreak with tier Blocking.
pub proof fn law_tool_budget_classifies_as_contractbreak_blocking(code: Seq<char>)
    requires
        seq_starts_with(code, "tool_budget."@),
        !infra_failure(code),
    ensures
        classify_spec(code) == (ErrorClass::ContractBreak, ViolationTier::Blocking),
{
    let reg = registry_spec();
    reveal_strlit("boundary.");
    reveal_strlit("config.");
    reveal_strlit("dead_code.");
    reveal_strlit("duplicates.");
    reveal_strlit("duplicates.ratchet_regression");
    reveal_strlit("env.");
    reveal_strlit("env_registry.");
    reveal_strlit("exception.allowlist_invalid");
    reveal_strlit("exception.budget_exceeded");
    reveal_strlit("exception.expired");
    reveal_strlit("exception.window_exceeded");
    reveal_strlit("failure_modes.");
    reveal_strlit("gate.run_failed_transient");
    reveal_strlit("loc.");
    reveal_strlit("orphan_api.");
    reveal_strlit("pack.");
    reveal_strlit("public_surface.");
    reveal_strlit("public_surface.ratchet_regression");
    reveal_strlit("quality_delta.");
    reveal_strlit("security.allow_any_policy");
    reveal_strlit("supply_chain.");
    reveal_strlit("surface.");
    reveal_strlit("tool_budget.");
    reveal_strlit("tools.duplicate_exact");
    reveal_strlit("tools.duplicate_semantic");
    lemma_exact_clash(code, "tool_budget."@, "exception.allowlist_invalid"@, 0);
    lemma_exact_clash(code, "tool_budget."@, "security.allow_any_policy"@, 0);
    lemma_exact_clash(code, "tool_budget."@, "exception.expired"@, 0);
    lemma_exact_clash(code, "tool_budget."@, "exception.window_exceeded"@, 0);
    lemma_exact_clash(code, "tool_budget."@, "exception.budget_exceeded"@, 0);
    lemma_exact_clash(code, "tool_budget."@, "duplicates.ratchet_regression"@, 0);
    lemma_exact_clash(code, "tool_budget."@, "public_surface.ratchet_regression"@, 0);
    lemma_exact_clash(code, "tool_budget."@, "gate.run_failed_transient"@, 0);
    lemma_no_suffix_hit(code);
    lemma_no_exact_hit(code);
    lemma_prefix_clash(code, "tool_budget."@, "config."@, 0);
    lemma_prefix_clash(code, "tool_budget."@, "failure_modes."@, 0);
    lemma_prefix_clash(code, "tool_budget."@, "pack."@, 0);
    lemma_prefix_clash(code, "tool_budget."@, "supply_chain."@, 0);
    lemma_prefix_clash(code, "tool_budget."@, "quality_delta."@, 0);
    lemma_prefix_clash(code, "tool_budget."@, "boundary."@, 0);
    lemma_prefix_clash(code, "tool_budget."@, "tools.duplicate_exact"@, 4);
    lemma_prefix_clash(code, "tool_budget."@, "tools.duplicate_semantic"@, 4);
    lemma_prefix_clash(code, "tool_budget."@, "loc."@, 0);
    lemma_prefix_clash(code, "tool_budget."@, "surface."@, 0);
    lemma_prefix_clash(code, "tool_budget."@, "duplicates."@, 0);
    lemma_prefix_clash(code, "tool_budget."@, "dead_code."@, 0);
    lemma_prefix_clash(code, "tool_budget."@, "orphan_api."@, 0);
    lemma_prefix_clash(code, "tool_budget."@, "env_registry."@, 0);
    lemma_prefix_clash(code, "tool_budget."@, "env."@, 0);
    lemma_prefix_clash(code, "tool_budget."@, "public_surface."@, 0);
    assert(reg.skip(0) =~= reg);
    lemma_hit_step(reg, PatternKind::Prefix, code, 0);
    lemma_hit_step(reg, PatternKind::Prefix, code, 1);
    lemma_hit_step(reg, PatternKind::Prefix, code, 2);
    lemma_hit_step(reg, PatternKind::Prefix, code, 3);
    lemma_hit_step(reg, PatternKind::Prefix, code, 4);
    lemma_hit_step(reg, PatternKind::Prefix, code, 5);
    lemma_hit_step(reg, PatternKind::Prefix, code, 6);
    lemma_hit_step(reg, PatternKind::Prefix, code, 7);
    lemma_hit_step(reg, PatternKind::Prefix, code, 8);
    lemma_hit_step(reg, PatternKind::Prefix, code, 9);
    lemma_hit_step(reg, PatternKind::Prefix, code, 10);
    lemma_hit_step(reg, PatternKind::Prefix, code, 11);
    lemma_hit_step(reg, PatternKind::Prefix, code, 12);
    lemma_hit_step(reg, PatternKind::Prefix, code, 13);
    lemma_hit_step(reg, PatternKind::Prefix, code, 14);
    lemma_hit_step(reg, PatternKind::Prefix, code, 15);
    lemma_hit_step(reg, PatternKind::Prefix, code, 16);
    lemma_hit_step(reg, PatternKind::Prefix, code, 17);
    lemma_hit_step(reg, PatternKind::Prefix, code, 18);
    lemma_hit_step(reg, PatternKind::Prefix, code, 19);
    lemma_hit_step(reg, PatternKind::Prefix, code, 20);
    lemma_hit_step(reg, PatternKind::Prefix, code, 21);
    lemma_hit_step(reg, PatternKind::Prefix, code, 22);
    lemma_hit_step(reg, PatternKind::Prefix, code, 23);
    lemma_hit_step(reg, PatternKind::Prefix, code, 24);
    lemma_hit_step(reg, PatternKind::Prefix, code, 25);
    lemma_hit_step(reg, PatternKind::Prefix, code, 26);
    lemma_hit_step(reg, PatternKind::Prefix, code, 27);
}

/// Every code in the `reuse_first.` family (and not an infrastructure failure or a
/// more specific entry) is classed ContractBreak with tier Blocking.
pub proof fn law_reuse_first_classifies_as_contractbreak_blocking(code: Seq<char>)
    requires
        seq_starts_with(code, "reuse_first."@),
        !infra_failure(code),
    ensures
        classify_spec(code) == (ErrorClass::ContractBreak, ViolationTier::Blocking),
{
    let reg = registry_spec();
    reveal_strlit("boundary.");
    reveal_strlit("config.");
    reveal_strlit("dead_code.");
    reveal_strlit("duplicates.");
    reveal_strlit("duplicates.ratchet_regression");
    reveal_strlit("env.");
    reveal_strlit("env_registry.");
    reveal_strlit("exception.allowlist_invalid");
    reveal_strlit("exception.budget_exceeded");
    reveal_strlit("exception.expired");
    reveal_strlit("exception.window_exceeded");
    reveal_strlit("failure_modes.");
    reveal_strlit("gate.run_failed_transient");
    reveal_strlit("loc.");
    reveal_strlit("orphan_api.");
    reveal_strlit("pack.");
    reveal_strlit("public_surface.");
    reveal_strlit("public_surface.ratchet_regression");
    reveal_strlit("quality_delta.");
    reveal_strlit("reuse_first.");
    reveal_strlit("security.allow_any_policy");
    reveal_strlit("supply_chain.");
    reveal_strlit("surface.");
    reveal_strlit("tool_budget.");
    reveal_strlit("tools.duplicate_exact");
    reveal_strlit("tools.duplicate_semantic");
    lemma_exact_clash(code, "reuse_first."@, "exception.allowlist_invalid"@, 0);
    lemma_exact_clash(code, "reuse_first."@, "security.allow_any_policy"@, 0);
    lemma_exact_clash(code, "reuse_first."@, "exception.expired"@, 0);
    lemma_exact_clash(code, "reuse_first."@, "exception.window_exceeded"@, 0);
    lemma_exact_clash(code, "reuse_first."@, "exception.budget_exceeded"@, 0);
    lemma_exact_clash(code, "reuse_first."@, "duplicates.ratchet_regression"@, 0);
    lemma_exact_clash(code, "reuse_first."@, "public_surface.ratchet_regression"@, 0);
    lemma_exact_clash(code, "reuse_first."@, "gate.run_failed_transient"@, 0);
    lemma_no_suffix_hit(code);
    lemma_no_exact_hit(code);
    lemma_prefix_clash(code, "reuse_first."@, "config."@, 0);
    lemma_prefix_clash(code, "reuse_first."@, "failure_modes."@, 0);
    lemma_prefix_clash(code, "reuse_first."@, "pack."@, 0);
    lemma_prefix_clash(code, "reuse_first."@, "supply_chain."@, 0);
    lemma_prefix_clash(code, "reuse_first."@, "quality_delta."@, 0);
    lemma_prefix_clash(code, "reuse_first."@, "boundary."@, 0);
    lemma_prefix_clash(code, "reuse_first."@, "tools.duplicate_exact"@, 0);
    lemma_prefix_clash(code, "reuse_first."@, "tools.duplicate_semantic"@, 0);
    lemma_prefix_clash(code, "reuse_first."@, "loc."@, 0);
    lemma_prefix_clash(code, "reuse_first."@, "surface."@, 0);
    lemma_prefix_clash(code, "reuse_first."@, "duplicates."@, 0);
    lemma_prefix_clash(code, "reuse_first."@, "dead_code."@, 0);
    lemma_prefix_clash(code, "reuse_first."@, "orphan_api."@, 0);
    lemma_prefix_clash(code, "reuse_first."@, "env_registry."@, 0);
    lemma_prefix_clash(code, "reuse_first."@, "env."@, 0);
    lemma_prefix_clash(code, "reuse_first."@, "public_surface."@, 0);
    lemma_prefix_clash(code, "reuse_first."@, "tool_budget."@, 0);
    assert(reg.skip(0) =~= reg);
    lemma_hit_step(reg, PatternKind::Prefix, code, 0);
    lemma_hit_step(reg, PatternKind::Prefix, code, 1);
    lemma_hit_step(reg, PatternKind::Prefix, code, 2);
    lemma_hit_step(reg, PatternKind::Prefix, code, 3);
    lemma_hit_step(reg, PatternKind::Prefix, code, 4);
    lemma_hit_step(reg, PatternKind::Prefix, code, 5);
    lemma_hit_step(reg, PatternKind::Prefix, code, 6);
    lemma_hit_step(reg, PatternKind::Prefix, code, 7);
    lemma_hit_step(reg, PatternKind::Prefix, code, 8);
    lemma_hit_step(reg, PatternKind::Prefix, code, 9);
    lemma_hit_step(reg, PatternKind::Prefix, code, 10);
    lemma_hit_step(reg, PatternKind::Prefix, code, 11);
    lemma_hit_step(reg, PatternKind::Prefix, code, 12);
    lemma_hit_step(reg, PatternKind::Prefix, code, 13);
    lemma_hit_step(reg, PatternKind::Prefix, code, 14);
    lemma_hit_step(reg, PatternKind::Prefix, code, 15);
    lemma_hit_step(reg, PatternKind::Prefix, code, 16);
    lemma_hit_step(reg, PatternKind::Prefix, code, 17);
    lemma_hit_step(reg, PatternKind::Prefix, code, 18);
    lemma_hit_step(reg, PatternKind::Prefix, code, 19);
    lemma_hit_step(reg, PatternKind::Prefix, code, 20);
    lemma_hit_step(reg, PatternKind::Prefix, code, 21);
    lemma_hit_step(reg, PatternKind::Prefix, code, 22);
    lemma_hit_step(reg, PatternKind::Prefix, code, 23);
    lemma_hit_step(reg, PatternKind::Prefix, code, 24);
    lemma_hit_step(reg, PatternKind::Prefix, code, 25);
    lemma_hit_step(reg, PatternKind::Prefix, code, 26);
    lemma_hit_step(reg, PatternKind::Prefix, code, 27);
    lemma_hit_step(reg, PatternKind::Prefix, code, 28);
}

/// Every code in the `arch_layers.` family (and not an infrastructure failure or a
/// more specific entry) is classed ContractBreak with tier Blocking.
pub proof fn law_arch_layers_classifies_as_contractbreak_blocking(code: Seq<char>)
    requires
        seq_starts_with(code, "arch_layers."@),
        !infra_failure(code),
    ensures
        classify_spec(code) == (ErrorClass::ContractBreak, ViolationTier::Blocking),
{
    let reg = registry_spec();
    reveal_strlit("arch_layers.");
    reveal_strlit("boundary.");
    reveal_strlit("config.");
    reveal_strlit("dead_code.");
    reveal_strlit("duplicates.");
    reveal_strlit("duplicates.ratchet_regression");
    reveal_strlit("env.");
    reveal_strlit("env_registry.");
    reveal_strlit("exception.allowlist_invalid");
    reveal_strlit("exception.budget_exceeded");
    reveal_strlit("exception.expired");
    reveal_strlit("exception.window_exceeded");
    reveal_strlit("failure_modes.");
    reveal_strlit("gate.run_failed_transient");
    reveal_strlit("loc.");
    reveal_strlit("orphan_api.");
    reveal_strlit("pack.");
    reveal_strlit("public_surface.");
    reveal_strlit("public_surface.ratchet_regression");
    reveal_strlit("quality_delta.");
    reveal_strlit("reuse_first.");
    reveal_strlit("security.allow_any_policy");
    reveal_strlit("supply_chain.");
    reveal_strlit("surface.");
    reveal_strlit("tool_budget.");
    reveal_strlit("tools.duplicate_exact");
    reveal_strlit("tools.duplicate_semantic");
    lemma_exact_clash(code, "arch_layers."@, "exception.allowlist_invalid"@, 0);
    lemma_exact_clash(code, "arch_layers."@, "security.allow_any_policy"@, 0);
    lemma_exact_clash(code, "arch_layers."@, "exception.expired"@, 0);
    lemma_exact_clash(code, "arch_layers."@, "exception.window_exceeded"@, 0);
    lemma_exact_clash(code, "arch_layers."@, "exception.budget_exceeded"@, 0);
    lemma_exact_clash(code, "arch_layers."@, "duplicates.ratchet_regression"@, 0);
    lemma_exact_clash(code, "arch_layers."@, "public_surface.ratchet_regression"@, 0);
    lemma_exact_clash(code, "arch_layers."@, "gate.run_failed_transient"@, 0);
    lemma_no_suffix_hit(code);
    lemma_no_exact_hit(code);
    lemma_prefix_clash(code, "arch_layers."@, "config."@, 0);
    lemma_prefix_clash(code, "arch_layers."@, "failure_modes."@, 0);
    lemma_prefix_clash(code, "arch_layers."@, "pack."@, 0);
    lemma_prefix_clash(code, "arch_layers."@, "supply_chain."@, 0);
    lemma_prefix_clash(code, "arch_layers."@, "quality_delta."@, 0);
    lemma_prefix_clash(code, "arch_layers."@, "boundary."@, 0);
    lemma_prefix_clash(code, "arch_layers."@, "tools.duplicate_exact"@, 0);
    lemma_prefix_clash(code, "arch_layers."@, "tools.duplicate_semantic"@, 0);
    lemma_prefix_clash(code, "arch_layers."@, "loc."@, 0);
    lemma_prefix_clash(code, "arch_layers."@, "surface."@, 0);
    lemma_prefix_clash(code, "arch_layers."@, "duplicates."@, 0);
    lemma_prefix_clash(code, "arch_layers."@, "dead_code."@, 0);
    lemma_prefix_clash(code, "arch_layers."@, "orphan_api."@, 0);
    lemma_prefix_clash(code, "arch_layers."@, "env_registry."@, 0);
    lemma_prefix_clash(code, "arch_layers."@, "env."@, 0);
    lemma_prefix_clash(code, "arch_layers."@, "public_surface."@, 0);
    lemma_prefix_clash(code, "arch_layers."@, "tool_budget."@, 0);
    lemma_prefix_clash(code, "arch_layers."@, "reuse_first."@, 0);
    assert(reg.skip(0) =~= reg);
    lemma_hit_step(reg, PatternKind::Prefix, code, 0);
    lemma_hit_step(reg, PatternKind::Prefix, code, 1);
    lemma_hit_step(reg, PatternKind::Prefix, code, 2);
    lemma_hit_step(reg, PatternKind::Prefix, code, 3);
    lemma_hit_step(reg, PatternKind::Prefix, code, 4);
    lemma_hit_step(reg, PatternKind::Prefix, code, 5);
    lemma_hit_step(reg, PatternKind::Prefix, code, 6);
    lemma_hit_step(reg, PatternKind::Prefix, code, 7);
    lemma_hit_step(reg, PatternKind::Prefix, code, 8);
    lemma_hit_step(reg, PatternKind::Prefix, code, 9);
    lemma_hit_step(reg, PatternKind::Prefix, code, 10);
    lemma_hit_step(reg, PatternKind::Prefix, code, 11);
    lemma_hit_step(reg, PatternKind::Prefix, code, 12);
    lemma_hit_step(reg, PatternKind::Prefix, code, 13);
    lemma_hit_step(reg, PatternKind::Prefix, code, 14);
    lemma_hit_step(reg, PatternKind::Prefix, code, 15);
    lemma_hit_step(reg, PatternKind::Prefix, code, 16);
    lemma_hit_step(reg, PatternKind::Prefix, code, 17);
    lemma_hit_step(reg, PatternKind::Prefix, code, 18);
    lemma_hit_step(reg, PatternKind::Prefix, code, 19);
    lemma_hit_step(reg, PatternKind::Prefix, code, 20);
    lemma_hit_step(reg, PatternKind::Prefix, code, 21);
    lemma_hit_step(reg, PatternKind::Prefix, code, 22);
    lemma_hit_step(reg, PatternKind::Prefix, code, 23);
    lemma_hit_step(reg, PatternKind::Prefix, code, 24);
    lemma_hit_step(reg, PatternKind::Prefix, code, 25);
    lemma_hit_step(reg, PatternKind::Prefix, code, 26);
    lemma_hit_step(reg, PatternKind::Prefix, code, 27);
    lemma_hit_step(reg, PatternKind::Prefix, code, 28);
    lemma_hit_step(reg, PatternKind::Prefix, code, 29);
}

/// Every code in the `complexity_budget.` family (and not an infrastructure failure or a
/// more specific entry) is classed ContractBreak with tier Blocking.
pub proof fn law_complexity_budget_classifies_as_contractbreak_blocking(code: Seq<char>)
    requires
        seq_starts_with(code, "complexity_budget."@),
        !infra_failure(code),
    ensures
        classify_spec(code) == (ErrorClass::ContractBreak, ViolationTier::Blocking),
{
    let reg = registry_spec();
    reveal_strlit("arch_layers.");
    reveal_strlit("boundary.");
    reveal_strlit("complexity_budget.");
    reveal_strlit("config.");
    reveal_strlit("dead_code.");
    reveal_strlit("duplicates.");
    reveal_strlit("duplicates.ratchet_regression");
    reveal_strlit("env.");
    reveal_strlit("env_registry.");
    reveal_strlit("exception.allowlist_invalid");
    reveal_strlit("exception.budget_exceeded");
    reveal_strlit("exception.expired");
    reveal_strlit("exception.window_exceeded");
    reveal_strlit("failure_modes.");
    reveal_strlit("gate.run_failed_transient");
    reveal_strlit("loc.");
    reveal_strlit("orphan_api.");
    reveal_strlit("pack.");
    reveal_strlit("public_surface.");
    reveal_strlit("public_surface.ratchet_regression");
    reveal_strlit("quality_delta.");
    reveal_strlit("reuse_first.");
    reveal_strlit("security.allow_any_policy");
    reveal_strlit("supply_chain.");
    reveal_strlit("surface.");
    reveal_strlit("tool_budget.");
    reveal_strlit("tools.duplicate_exact");
    reveal_strlit("tools.duplicate_semantic");
    lemma_exact_clash(code, "complexity_budget."@, "exception.allowlist_invalid"@, 0);
    lemma_exact_clash(code, "complexity_budget."@, "security.allow_any_policy"@, 0);
    lemma_exact_clash(code, "complexity_budget."@, "exception.expired"@, 0);
    lemma_exact_clash(code, "complexity_budget."@, "exception.window_exceeded"@, 0);
    lemma_exact_clash(code, "complexity_budget."@, "exception.budget_exceeded"@, 0);
    lemma_exact_clash(code, "complexity_budget."@, "duplicates.ratchet_regression"@, 0);
    lemma_exact_clash(code, "complexity_budget."@, "public_surface.ratchet_regression"@, 0);
    lemma_exact_clash(code, "complexity_budget."@, "gate.run_failed_transient"@, 0);
    lemma_no_suffix_hit(code);
    lemma_no_exact_hit(code);
    lemma_prefix_clash(code, "complexity_budget."@, "config."@, 2);
    lemma_prefix_clash(code, "complexity_budget."@, "failure_modes."@, 0);
    lemma_prefix_clash(code, "complexity_budget."@, "pack."@, 0);
    lemma_prefix_clash(code, "complexity_budget."@, "supply_chain."@, 0);
    lemma_prefix_clash(code, "complexity_budget."@, "quality_delta."@, 0);
    lemma_prefix_clash(code, "complexity_budget."@, "boundary."@, 0);
    lemma_prefix_clash(code, "complexity_budget."@, "tools.duplicate_exact"@, 0);
    lemma_prefix_clash(code, "complexity_budget."@, "tools.duplicate_semantic"@, 0);
    lemma_prefix_clash(code, "complexity_budget."@, "loc."@, 0);
    lemma_prefix_clash(code, "complexity_budget."@, "surface."@, 0);
    lemma_prefix_clash(code, "complexity_budget."@, "duplicates."@, 0);
    lemma_prefix_clash(code, "complexity_budget."@, "dead_code."@, 0);
    lemma_prefix_clash(code, "complexity_budget."@, "orphan_api."@, 0);
    lemma_prefix_clash(code, "complexity_budget."@, "env_registry."@, 0);
    lemma_prefix_clash(code, "complexity_budget."@, "env."@, 0);
    lemma_prefix_clash(code, "complexity_budget."@, "public_surface."@, 0);
    lemma_prefix_clash(code, "complexity_budget."@, "tool_budget."@, 0);
    lemma_prefix_clash(code, "complexity_budget."@, "reuse_first."@, 0);
    lemma_prefix_clash(code, "complexity_budget."@, "arch_layers."@, 0);
    assert(reg.skip(0) =~= reg);
    lemma_hit_step(reg, PatternKind::Prefix, code, 0);
    lemma_hit_step(reg, PatternKind::Prefix, code, 1);
    lemma_hit_step(reg, PatternKind::Prefix, code, 2);
    lemma_hit_step(reg, PatternKind::Prefix, code, 3);
    lemma_hit_step(reg, PatternKind::Prefix, code, 4);
    lemma_hit_step(reg, PatternKind::Prefix, code, 5);
    lemma_hit_step(reg, PatternKind::Prefix, code, 6);
    lemma_hit_step(reg, PatternKind::Prefix, code, 7);
    lemma_hit_step(reg, PatternKind::Prefix, code, 8);
    lemma_hit_step(reg, PatternKind::Prefix, code, 9);
    lemma_hit_step(reg, PatternKind::Prefix, code, 10);
    lemma_hit_step(reg, PatternKind::Prefix, code, 11);
    lemma_hit_step(reg, PatternKind::Prefix, code, 12);
    lemma_hit_step(reg, PatternKind::Prefix, code, 13);
    lemma_hit_step(reg, PatternKind::Prefix, code, 14);
    lemma_hit_step(reg, PatternKind::Prefix, code, 15);
    lemma_hit_step(reg, PatternKind::Prefix, code, 16);
    lemma_hit_step(reg, PatternKind::Prefix, code, 17);
    lemma_hit_step(reg, PatternKind::Prefix, code, 18);
    lemma_hit_step(reg, PatternKind::Prefix, code, 19);
    lemma_hit_step(reg, PatternKind::Prefix, code, 20);
    lemma_hit_step(reg, PatternKind::Prefix, code, 21);
    lemma_hit_step(reg, PatternKind::Prefix, code, 22);
    lemma_hit_step(reg, PatternKind::Prefix, code, 23);
    lemma_hit_step(reg, PatternKind::Prefix, code, 24);
    lemma_hit_step(reg, PatternKind::Prefix, code, 25);
    lemma_hit_step(reg, PatternKind::Prefix, code, 26);
    lemma_hit_step(reg, PatternKind::Prefix, code, 27);
    lemma_hit_step(reg, PatternKind::Prefix, code, 28);
    lemma_hit_step(reg, PatternKind::Prefix, code, 29);
    lemma_hit_step(reg, PatternKind::Prefix, code, 30);
}

/// Every code in the `contract_break.` family (and not an infrastructure failure or a
/// more specific entry) is classed ContractBreak with tier Blocking.
pub proof fn law_contract_break_classifies_as_contractbreak_blocking(code: Seq<char>)
    requires
        seq_starts_with(code, "contract_break."@),
        !infra_failure(code),
    ensures
        classify_spec(code) == (ErrorClass::ContractBreak, ViolationTier::Blocking),
{
    let reg = registry_spec();
    reveal_strlit("arch_layers.");
    reveal_strlit("boundary.");
    reveal_strlit("complexity_budget.");
    reveal_strlit("config.");
    reveal_strlit("contract_break.");
    reveal_strlit("dead_code.");
    reveal_strlit("duplicates.");
    reveal_strlit("duplicates.ratchet_regression");
    reveal_strlit("env.");
    reveal_strlit("env_registry.");
    reveal_strlit("exception.allowlist_invalid");
    reveal_strlit("exception.budget_exceeded");
    reveal_strlit("exception.expired");
    reveal_strlit("exception.window_exceeded");
    reveal_strlit("failure_modes.");
    reveal_strlit("gate.run_failed_transient");
    reveal_strlit("loc.");
    reveal_strlit("orphan_api.");
    reveal_strlit("pack.");
    reveal_strlit("public_surface.");
    reveal_strlit("public_surface.ratchet_regression");
    reveal_strlit("quality_delta.");
    reveal_strlit("reuse_first.");
    reveal_strlit("security.allow_any_policy");
    reveal_strlit("supply_chain.");
    reveal_strlit("surface.");
    reveal_strlit("tool_budget.");
    reveal_strlit("tools.duplicate_exact");
    reveal_strlit("tools.duplicate_semantic");
    lemma_exact_clash(code, "contract_break."@, "exception.allowlist_invalid"@, 0);
    lemma_exact_clash(code, "contract_break."@, "security.allow_any_policy"@, 0);
    lemma_exact_clash(code, "contract_break."@, "exception.expired"@, 0);
    lemma_exact_clash(code, "contract_break."@, "exception.window_exceeded"@, 0);
    lemma_exact_clash(code, "contract_break."@, "exception.budget_exceeded"@, 0);
    lemma_exact_clash(code, "contract_break."@, "duplicates.ratchet_regression"@, 0);
    lemma_exact_clash(code, "contract_break."@, "public_surface.ratchet_regression"@, 0);
    lemma_exact_clash(code, "contract_break."@, "gate.run_failed_transient"@, 0);
    lemma_no_suffix_hit(code);
    lemma_no_exact_hit(code);
    lemma_prefix_clash(code, "contract_break."@, "config."@, 3);
    lemma_prefix_clash(code, "contract_break."@, "failure_modes."@, 0);
    lemma_prefix_clash(code, "contract_break."@, "pack."@, 0);
    lemma_prefix_clash(code, "contract_break."@, "supply_chain."@, 0);
    lemma_prefix_clash(code, "contract_break."@, "quality_delta."@, 0);
    lemma_prefix_clash(code, "contract_break."@, "boundary."@, 0);
    lemma_prefix_clash(code, "contract_break."@, "tools.duplicate_exact"@, 0);
    lemma_prefix_clash(code, "contract_break."@, "tools.duplicate_semantic"@, 0);
    lemma_prefix_clash(code, "contract_break."@, "loc."@, 0);
    lemma_prefix_clash(code, "contract_break."@, "surface."@, 0);
    lemma_prefix_clash(code, "contract_break."@, "duplicates."@, 0);
    lemma_prefix_clash(code, "contract_break."@, "dead_code."@, 0);
    lemma_prefix_clash(code, "contract_break."@, "orphan_api."@, 0);
    lemma_prefix_clash(code, "contract_break."@, "env_registry."@, 0);
    lemma_prefix_clash(code, "contract_break."@, "env."@, 0);
    lemma_prefix_clash(code, "contract_break."@, "public_surface."@, 0);
    lemma_prefix_clash(code, "contract_break."@, "tool_budget."@, 0);
    lemma_prefix_clash(code, "contract_break."@, "reuse_first."@, 0);
    lemma_prefix_clash(code, "contract_break."@, "arch_layers."@, 0);
    lemma_prefix_clash(code, "contract_break."@, "complexity_budget."@, 2);
    assert(reg.skip(0) =~= reg);
    lemma_hit_step(reg, PatternKind::Prefix, code, 0);
    lemma_hit_step(reg, PatternKind::Prefix, code, 1);
    lemma_hit_step(reg, PatternKind::Prefix, code, 2);
    lemma_hit_step(reg, PatternKind::Prefix, code, 3);
    lemma_hit_step(reg, PatternKind::Prefix, code, 4);
    lemma_hit_step(reg, PatternKind::Prefix, code, 5);
    lemma_hit_step(reg, PatternKind::Prefix, code, 6);
    lemma_hit_step(reg, PatternKind::Prefix, code, 7);
    lemma_hit_step(reg, PatternKind::Prefix, code, 8);
    lemma_hit_step(reg, PatternKind::Prefix, code, 9);
    lemma_hit_step(reg, PatternKind::Prefix, code, 10);
    lemma_hit_step(reg, PatternKind::Prefix, code, 11);
    lemma_hit_step(reg, PatternKind::Prefix, code, 12);
    lemma_hit_step(reg, PatternKind::Prefix, code, 13);
    lemma_hit_step(reg, PatternKind::Prefix, code, 14);
    lemma_hit_step(reg, PatternKind::Prefix, code, 15);
    lemma_hit_step(reg, PatternKind::Prefix, code, 16);
    lemma_hit_step(reg, PatternKind::Prefix, code, 17);
    lemma_hit_step(reg, PatternKind::Prefix, code, 18);
    lemma_hit_step(reg, PatternKind::Prefix, code, 19);
    lemma_hit_step(reg, PatternKind::Prefix, code, 20);
    lemma_hit_step(reg, PatternKind::Prefix, code, 21);
    lemma_hit_step(reg, PatternKind::Prefix, code, 22);
    lemma_hit_step(reg, PatternKind::Prefix, code, 23);
    lemma_hit_step(reg, PatternKind::Prefix, code, 24);
    lemma_hit_step(reg, PatternKind::Prefix, code, 25);
    lemma_hit_step(reg, PatternKind::Prefix, code, 26);
    lemma_hit_step(reg, PatternKind::Prefix, code, 27);
    lemma_hit_step(reg, PatternKind::Prefix, code, 28);
    lemma_hit_step(reg, PatternKind::Prefix, code, 29);
    lemma_hit_step(reg, PatternKind::Prefix, code, 30);
    lemma_hit_step(reg, PatternKind::Prefix, code, 31);
}

/// Every code in the `change_impact.` family (and not an infrastructure failure or a
/// more specific entry) is classed ContractBreak with tier Blocking.
pub proof fn law_change_impact_classifies_as_contractbreak_blocking(code: Seq<char>)
    requires
        seq_starts_with(code, "change_impact."@),
        !infra_failure(code),
    ensures
        classify_spec(code) == (ErrorClass::ContractBreak, ViolationTier::Blocking),
{
    let reg = registry_spec();
    reveal_strlit("arch_layers.");
    reveal_strlit("boundary.");
    reveal_strlit("change_impact.");
    reveal_strlit("complexity_budget.");
    reveal_strlit("config.");
    reveal_strlit("contract_break.");
    reveal_strlit("dead_code.");
    reveal_strlit("duplicates.");
    reveal_strlit("duplicates.ratchet_regression");
    reveal_strlit("env.");
    reveal_strlit("env_registry.");
    reveal_strlit("exception.allowlist_invalid");
    reveal_strlit("exception.budget_exceeded");
    reveal_strlit("exception.expired");
    reveal_strlit("exception.window_exceeded");
    reveal_strlit("failure_modes.");
    reveal_strlit("gate.run_failed_transient");
    reveal_strlit("loc.");
    reveal_strlit("orphan_api.");
    reveal_strlit("pack.");
    reveal_strlit("public_surface.");
    reveal_strlit("public_surface.ratchet_regression");
    reveal_strlit("quality_delta.");
    reveal_strlit("reuse_first.");
    reveal_strlit("security.allow_any_policy");
    reveal_strlit("supply_chain.");
    reveal_strlit("surface.");
    reveal_strlit("tool_budget.");
    reveal_strlit("tools.duplicate_exact");
    reveal_strlit("tools.duplicate_semantic");
    lemma_exact_clash(code, "change_impact."@, "exception.allowlist_invalid"@, 0);
    lemma_exact_clash(code, "change_impact."@, "security.allow_any_policy"@, 0);
    lemma_exact_clash(code, "change_impact."@, "exception.expired"@, 0);
    lemma_exact_clash(code, "change_impact."@, "exception.window_exceeded"@, 0);
    lemma_exact_clash(code, "change_impact."@, "exception.budget_exceeded"@, 0);
    lemma_exact_clash(code, "change_impact."@, "duplicates.ratchet_regression"@, 0);
    lemma_exact_clash(code, "change_impact."@, "public_surface.ratchet_regression"@, 0);
    lemma_exact_clash(code, "change_impact."@, "gate.run_failed_transient"@, 0);
    lemma_no_suffix_hit(code);
    lemma_no_exact_hit(code);
    lemma_prefix_clash(code, "change_impact."@, "config."@, 1);
    lemma_prefix_clash(code, "change_impact."@, "failure_modes."@, 0);
    lemma_prefix_clash(code, "change_impact."@, "pack."@, 0);
    lemma_prefix_clash(code, "change_impact."@, "supply_chain."@, 0);
    lemma_prefix_clash(code, "change_impact."@, "quality_delta."@, 0);
    lemma_prefix_clash(code, "change_impact."@, "boundary."@, 0);
    lemma_prefix_clash(code, "change_impact."@, "tools.duplicate_exact"@, 0);
    lemma_prefix_clash(code, "change_impact."@, "tools.duplicate_semantic"@, 0);
    lemma_prefix_clash(code, "change_impact."@, "loc."@, 0);
    lemma_prefix_clash(code, "change_impact."@, "surface."@, 0);
    lemma_prefix_clash(code, "change_impact."@, "duplicates."@, 0);
    lemma_prefix_clash(code, "change_impact."@, "dead_code."@, 0);
    lemma_prefix_clash(code, "change_impact."@, "orphan_api."@, 0);
    lemma_prefix_clash(code, "change_impact."@, "env_registry."@, 0);
    lemma_prefix_clash(code, "change_impact."@, "env."@, 0);
    lemma_prefix_clash(code, "change_impact."@, "public_surface."@, 0);
    lemma_prefix_clash(code, "change_impact."@, "tool_budget."@, 0);
    lemma_prefix_clash(code, "change_impact."@, "reuse_first."@, 0);
    lemma_prefix_clash(code, "change_impact."@, "arch_layers."@, 0);
    lemma_prefix_clash(code, "change_impact."@, "complexity_budget."@, 1);
    lemma_prefix_clash(code, "change_impact."@, "contract_break."@, 1);
    assert(reg.skip(0) =~= reg);
    lemma_hit_step(reg, PatternKind::Prefix, code, 0);
    lemma_hit_step(reg, PatternKind::Prefix, code, 1);
    lemma_hit_step(reg, PatternKind::Prefix, code, 2);
    lemma_hit_step(reg, PatternKind::Prefix, code, 3);
    lemma_hit_step(reg, PatternKind::Prefix, code, 4);
    lemma_hit_step(reg, PatternKind::Prefix, code, 5);
    lemma_hit_step(reg, PatternKind::Prefix, code, 6);
    lemma_hit_step(reg, PatternKind::Prefix, code, 7);
    lemma_hit_step(reg, PatternKind::Prefix, code, 8);
    lemma_hit_step(reg, PatternKind::Prefix, code, 9);
    lemma_hit_step(reg, PatternKind::Prefix, code, 10);
    lemma_hit_step(reg, PatternKind::Prefix, code, 11);
    lemma_hit_step(reg, PatternKind::Prefix, code, 12);
    lemma_hit_step(reg, PatternKind::Prefix, code, 13);
    lemma_hit_step(reg, PatternKind::Prefix, code, 14);
    lemma_hit_step(reg, PatternKind::Prefix, code, 15);
    lemma_hit_step(reg, PatternKind::Prefix, code, 16);
    lemma_hit_step(reg, PatternKind::Prefix, code, 17);
    lemma_hit_step(reg, PatternKind::Prefix, code, 18);
    lemma_hit_step(reg, PatternKind::Prefix, code, 19);
    lemma_hit_step(reg, PatternKind::Prefix, code, 20);
    lemma_hit_step(reg, PatternKind::Prefix, code, 21);
    lemma_hit_step(reg, PatternKind::Prefix, code, 22);
    lemma_hit_step(reg, PatternKind::Prefix, code, 23);
    lemma_hit_step(reg, PatternKind::Prefix, code, 24);
    lemma_hit_step(reg, PatternKind::Prefix, code, 25);
    lemma_hit_step(reg, PatternKind::Prefix, code, 26);
    lemma_hit_step(reg, PatternKind::Prefix, code, 27);
    lemma_hit_step(reg, PatternKind::Prefix, code, 28);
    lemma_hit_step(reg, PatternKind::Prefix, code, 29);
    lemma_hit_step(reg, PatternKind::Prefix, code, 30);
    lemma_hit_step(reg, PatternKind::Prefix, code, 31);
    lemma_hit_step(reg, PatternKind::Prefix, code, 32);
}

/// Every code in the `gate.receipt_contract` family (and not an infrastructure failure or a
/// more specific entry) is classed RuntimeRisk with tier Blocking.
pub proof fn law_gate_receipt_contract_classifies_as_runtimerisk_blocking(code: Seq<char>)
    requires
        seq_starts_with(code, "gate.receipt_contract"@),
        !infra_failure(code),
    ensures
        classify_spec(code) == (ErrorClass::RuntimeRisk, ViolationTier::Blocking),
{
    let reg = registry_spec();
    reveal_strlit("arch_layers.");
    reveal_strlit("boundary.");
    reveal_strlit("change_impact.");
    reveal_strlit("complexity_budget.");
    reveal_strlit("config.");
    reveal_strlit("contract_break.");
    reveal_strlit("dead_code.");
    reveal_strlit("duplicates.");
    reveal_strlit("duplicates.ratchet_regression");
    reveal_strlit("env.");
    reveal_strlit("env_registry.");
    reveal_strlit("exception.allowlist_invalid");
    reveal_strlit("exception.budget_exceeded");
    reveal_strlit("exception.expired");
    reveal_strlit("exception.window_exceeded");
    reveal_strlit("failure_modes.");
    reveal_strlit("gate.receipt_contract");
    reveal_strlit("gate.run_failed_transient");
    reveal_strlit("loc.");
    reveal_strlit("orphan_api.");
    reveal_strlit("pack.");
    reveal_strlit("public_surface.");
    reveal_strlit("public_surface.ratchet_regression");
    reveal_strlit("quality_delta.");
    reveal_strlit("reuse_first.");
    reveal_strlit("security.allow_any_policy");
    reveal_strlit("supply_chain.");
    reveal_strlit("surface.");
    reveal_strlit("tool_budget.");
    reveal_strlit("tools.duplicate_exact");
    reveal_strlit("tools.duplicate_semantic");
    lemma_exact_clash(code, "gate.receipt_contract"@, "exception.allowlist_invalid"@, 0);
    lemma_exact_clash(code, "gate.receipt_contract"@, "security.allow_any_policy"@, 0);
    lemma_exact_clash(code, "gate.receipt_contract"@, "exception.expired"@, 0);
    lemma_exact_clash(code, "gate.receipt_contract"@, "exception.window_exceeded"@, 0);
    lemma_exact_clash(code, "gate.receipt_contract"@, "exception.budget_exceeded"@, 0);
    lemma_exact_clash(code, "gate.receipt_contract"@, "duplicates.ratchet_regression"@, 0);
    lemma_exact_clash(code, "gate.receipt_contract"@, "public_surface.ratchet_regression"@, 0);
    lemma_exact_clash(code, "gate.receipt_contract"@, "gate.run_failed_transient"@, 6);
    lemma_no_suffix_hit(code);
    lemma_no_exact_hit(code);
    lemma_prefix_clash(code, "gate.receipt_contract"@, "config."@, 0);
    lemma_prefix_clash(code, "gate.receipt_contract"@, "failure_modes."@, 0);
    lemma_prefix_clash(code, "gate.receipt_contract"@, "pack."@, 0);
    lemma_prefix_clash(code, "gate.receipt_contract"@, "supply_chain."@, 0);
    lemma_prefix_clash(code, "gate.receipt_contract"@, "quality_delta."@, 0);
    lemma_prefix_clash(code, "gate.receipt_contract"@, "boundary."@, 0);
    lemma_prefix_clash(code, "gate.receipt_contract"@, "tools.duplicate_exact"@, 0);
    lemma_prefix_clash(code, "gate.receipt_contract"@, "tools.duplicate_semantic"@, 0);
    lemma_prefix_clash(code, "gate.receipt_contract"@, "loc."@, 0);
    lemma_prefix_clash(code, "gate.receipt_contract"@, "surface."@, 0);
    lemma_prefix_clash(code, "gate.receipt_contract"@, "duplicates."@, 0);
    lemma_prefix_clash(code, "gate.receipt_contract"@, "dead_code."@, 0);
    lemma_prefix_clash(code, "gate.receipt_contract"@, "orphan_api."@, 0);
    lemma_prefix_clash(code, "gate.receipt_contract"@, "env_registry."@, 0);
    lemma_prefix_clash(code, "gate.receipt_contract"@, "env."@, 0);
    lemma_prefix_clash(code, "gate.receipt_contract"@, "public_surface."@, 0);
    lemma_prefix_clash(code, "gate.receipt_contract"@, "tool_budget."@, 0);
    lemma_prefix_clash(code, "gate.receipt_contract"@, "reuse_first."@, 0);
    lemma_prefix_clash(code, "gate.receipt_contract"@, "arch_layers."@, 0);
    lemma_prefix_clash(code, "gate.receipt_contract"@, "complexity_budget."@, 0);
    lemma_prefix_clash(code, "gate.receipt_contract"@, "contract_break."@, 0);
    lemma_prefix_clash(code, "gate.receipt_contract"@, "change_impact."@, 0);
    assert(reg.skip(0) =~= reg);
    lemma_hit_step(reg, PatternKind::Prefix, code, 0);
    lemma_hit_step(reg, PatternKind::Prefix, code, 1);
    lemma_hit_step(reg, PatternKind::Prefix, code, 2);
    lemma_hit_step(reg, PatternKind::Prefix, code, 3);
    lemma_hit_step(reg, PatternKind::Prefix, code, 4);
    lemma_hit_step(reg, PatternKind::Prefix, code, 5);
    lemma_hit_step(reg, PatternKind::Prefix, code, 6);
    lemma_hit_step(reg, PatternKind::Prefix, code, 7);
    lemma_hit_step(reg, PatternKind::Prefix, code, 8);
    lemma_hit_step(reg, PatternKind::Prefix, code, 9);
    lemma_hit_step(reg, PatternKind::Prefix, code, 10);
    lemma_hit_step(reg, PatternKind::Prefix, code, 11);
    lemma_hit_step(reg, PatternKind::Prefix, code, 12);
    lemma_hit_step(reg, PatternKind::Prefix, code, 13);
    lemma_hit_step(reg, PatternKind::Prefix, code, 14);
    lemma_hit_step(reg, PatternKind::Prefix, code, 15);
    lemma_hit_step(reg, PatternKind::Prefix, code, 16);
    lemma_hit_step(reg, PatternKind::Prefix, code, 17);
    lemma_hit_step(reg, PatternKind::Prefix, code, 18);
    lemma_hit_step(reg, PatternKind::Prefix, code, 19);
    lemma_hit_step(reg, PatternKind::Prefix, code, 20);
    lemma_hit_step(reg, PatternKind::Prefix, code, 21);
    lemma_hit_step(reg, PatternKind::Prefix, code, 22);
    lemma_hit_step(reg, PatternKind::Prefix, code, 23);
    lemma_hit_step(reg, PatternKind::Prefix, code, 24);
    lemma_hit_step(reg, PatternKind::Prefix, code, 25);
    lemma_hit_step(reg, PatternKind::Prefix, code, 26);
    lemma_hit_step(reg, PatternKind::Prefix, code, 27);
    lemma_hit_step(reg, PatternKind::Prefix, code, 28);
    lemma_hit_step(reg, PatternKind::Prefix, code, 29);
    lemma_hit_step(reg, PatternKind::Prefix, code, 30);
    lemma_hit_step(reg, PatternKind::Prefix, code, 31);
    lemma_hit_step(reg, PatternKind::Prefix, code, 32);
    lemma_hit_step(reg, PatternKind::Prefix, code, 33);
}

/// Every code in the `gate.tool_failed` family (and not an infrastructure failure or a
/// more specific entry) is classed ContractBreak with tier Blocking.
pub proof fn law_gate_tool_failed_classifies_as_contractbreak_blocking(code: Seq<char>)
    requires
        seq_starts_with(code, "gate.tool_failed"@),
        !infra_failure(code),
    ensures
        classify_spec(code) == (ErrorClass::ContractBreak, ViolationTier::Blocking),
{
    let reg = registry_spec();
    reveal_strlit("arch_layers.");
    reveal_strlit("boundary.");
    reveal_strlit("change_impact.");
    reveal_strlit("complexity_budget.");
    reveal_strlit("config.");
    reveal_strlit("contract_break.");
    reveal_strlit("dead_code.");
    reveal_strlit("duplicates.");
    reveal_strlit("duplicates.ratchet_regression");
    reveal_strlit("env.");
    reveal_strlit("env_registry.");
    reveal_strlit("exception.allowlist_invalid");
    reveal_strlit("exception.budget_exceeded");
    reveal_strlit("exception.expired");
    reveal_strlit("exception.window_exceeded");
    reveal_strlit("failure_modes.");
    reveal_strlit("gate.receipt_contract");
    reveal_strlit("gate.run_failed_transient");
    reveal_strlit("gate.tool_failed");
    reveal_strlit("loc.");
    reveal_strlit("orphan_api.");
    reveal_strlit("pack.");
    reveal_strlit("public_surface.");
    reveal_strlit("public_surface.ratchet_regression");
    reveal_strlit("quality_delta.");
    reveal_strlit("reuse_first.");
    reveal_strlit("security.allow_any_policy");
    reveal_strlit("supply_chain.");
    reveal_strlit("surface.");
    reveal_strlit("tool_budget.");
    reveal_strlit("tools.duplicate_exact");
    reveal_strlit("tools.duplicate_semantic");
    lemma_exact_clash(code, "gate.tool_failed"@, "exception.allowlist_invalid"@, 0);
    lemma_exact_clash(code, "gate.tool_failed"@, "security.allow_any_policy"@, 0);
    lemma_exact_clash(code, "gate.tool_failed"@, "exception.expired"@, 0);
    lemma_exact_clash(code, "gate.tool_failed"@, "exception.window_exceeded"@, 0);
    lemma_exact_clash(code, "gate.tool_failed"@, "exception.budget_exceeded"@, 0);
    lemma_exact_clash(code, "gate.tool_failed"@, "duplicates.ratchet_regression"@, 0);
    lemma_exact_clash(code, "gate.tool_failed"@, "public_surface.ratchet_regression"@, 0);
    lemma_exact_clash(code, "gate.tool_failed"@, "gate.run_failed_transient"@, 5);
    lemma_no_suffix_hit(code);
    lemma_no_exact_hit(code);
    lemma_prefix_clash(code, "gate.tool_failed"@, "config."@, 0);
    lemma_prefix_clash(code, "gate.tool_failed"@, "failure_modes."@, 0);
    lemma_prefix_clash(code, "gate.tool_failed"@, "pack."@, 0);
    lemma_prefix_clash(code, "gate.tool_failed"@, "supply_chain."@, 0);
    lemma_prefix_clash(code, "gate.tool_failed"@, "quality_delta."@, 0);
    lemma_prefix_clash(code, "gate.tool_failed"@, "boundary."@, 0);
    lemma_prefix_clash(code, "gate.tool_failed"@, "tools.duplicate_exact"@, 0);
    lemma_prefix_clash(code, "gate.tool_failed"@, "tools.duplicate_semantic"@, 0);
    lemma_prefix_clash(code, "gate.tool_failed"@, "loc."@, 0);
    lemma_prefix_clash(code, "gate.tool_failed"@, "surface."@, 0);
    lemma_prefix_clash(code, "gate.tool_failed"@, "duplicates."@, 0);
    lemma_prefix_clash(code, "gate.tool_failed"@, "dead_code."@, 0);
    lemma_prefix_clash(code, "gate.tool_failed"@, "orphan_api."@, 0);
    lemma_prefix_clash(code, "gate.tool_failed"@, "env_registry."@, 0);
    lemma_prefix_clash(code, "gate.tool_failed"@, "env."@, 0);
    lemma_prefix_clash(code, "gate.tool_failed"@, "public_surface."@, 0);
    lemma_prefix_clash(code, "gate.tool_failed"@, "tool_budget."@, 0);
    lemma_prefix_clash(code, "gate.tool_failed"@, "reuse_first."@, 0);
    lemma_prefix_clash(code, "gate.tool_failed"@, "arch_layers."@, 0);
    lemma_prefix_clash(code, "gate.tool_failed"@, "complexity_budget."@, 0);
    lemma_prefix_clash(code, "gate.tool_failed"@, "contract_break."@, 0);
    lemma_prefix_clash(code, "gate.tool_failed"@, "change_impact."@, 0);
    lemma_prefix_clash(code, "gate.tool_failed"@, "gate.receipt_contract"@, 5);
    assert(reg.skip(0) =~= reg);
    lemma_hit_step(reg, PatternKind::Prefix, code, 0);
    lemma_hit_step(reg, PatternKind::Prefix, code, 1);
    lemma_hit_step(reg, PatternKind::Prefix, code, 2);
    lemma_hit_step(reg, PatternKind::Prefix, code, 3);
    lemma_hit_step(reg, PatternKind::Prefix, code, 4);
    lemma_hit_step(reg, PatternKind::Prefix, code, 5);
    lemma_hit_step(reg, PatternKind::Prefix, code, 6);
    lemma_hit_step(reg, PatternKind::Prefix, code, 7);
    lemma_hit_step(reg, PatternKind::Prefix, code, 8);
    lemma_hit_step(reg, PatternKind::Prefix, code, 9);
    lemma_hit_step(reg, PatternKind::Prefix, code, 10);
    lemma_hit_step(reg, PatternKind::Prefix, code, 11);
    lemma_hit_step(reg, PatternKind::Prefix, code, 12);
    lemma_hit_step(reg, PatternKind::Prefix, code, 13);
    lemma_hit_step(reg, PatternKind::Prefix, code, 14);
    lemma_hit_step(reg, PatternKind::Prefix, code, 15);
    lemma_hit_step(reg, PatternKind::Prefix, code, 16);
    lemma_hit_step(reg, PatternKind::Prefix, code, 17);
    lemma_hit_step(reg, PatternKind::Prefix, code, 18);
    lemma_hit_step(reg, PatternKind::Prefix, code, 19);
    lemma_hit_step(reg, PatternKind::Prefix, code, 20);
    lemma_hit_step(reg, PatternKind::Prefix, code, 21);
    lemma_hit_step(reg, PatternKind::Prefix, code, 22);
    lemma_hit_step(reg, PatternKind::Prefix, code, 23);
    lemma_hit_step(reg, PatternKind::Prefix, code, 24);
    lemma_hit_step(reg, PatternKind::Prefix, code, 25);
    lemma_hit_step(reg, PatternKind::Prefix, code, 26);
    lemma_hit_step(reg, PatternKind::Prefix, code, 27);
    lemma_hit_step(reg, PatternKind::Prefix, code, 28);
    lemma_hit_step(reg, PatternKind::Prefix, code, 29);
    lemma_hit_step(reg, PatternKind::Prefix, code, 30);
    lemma_hit_step(reg, PatternKind::Prefix, code, 31);
    lemma_hit_step(reg, PatternKind::Prefix, code, 32);
    lemma_hit_step(reg, PatternKind::Prefix, code, 33);
    lemma_hit_step(reg, PatternKind::Prefix, code, 34);
}

/// Every code in the `gate.run_failed` family (and not an infrastructure failure or a
/// more specific entry) is classed RuntimeRisk with tier Blocking.
pub proof fn law_gate_run_failed_classifies_as_runtimerisk_blocking(code: Seq<char>)
    requires
        seq_starts_with(code, "gate.run_failed"@),
        !infra_failure(code),
        code != "gate.run_failed_transient"@,
    ensures
        classify_spec(code) == (ErrorClass::RuntimeRisk, ViolationTier::Blocking),
{
    let reg = registry_spec();
    reveal_strlit("arch_layers.");
    reveal_strlit("boundary.");
    reveal_strlit("change_impact.");
    reveal_strlit("complexity_budget.");
    reveal_strlit("config.");
    reveal_strlit("contract_break.");
    reveal_strlit("dead_code.");
    reveal_strlit("duplicates.");
    reveal_strlit("duplicates.ratchet_regression");
    reveal_strlit("env.");
    reveal_strlit("env_registry.");
    reveal_strlit("exception.allowlist_invalid");
    reveal_strlit("exception.budget_exceeded");
    reveal_strlit("exception.expired");
    reveal_strlit("exception.window_exceeded");
    reveal_strlit("failure_modes.");
    reveal_strlit("gate.receipt_contract");
    reveal_strlit("gate.run_failed");
    reveal_strlit("gate.run_failed_transient");
    reveal_strlit("gate.tool_failed");
    reveal_strlit("loc.");
    reveal_strlit("orphan_api.");
    reveal_strlit("pack.");
    reveal_strlit("public_surface.");
    reveal_strlit("public_surface.ratchet_regression");
    reveal_strlit("quality_delta.");
    reveal_strlit("reuse_first.");
    reveal_strlit("security.allow_any_policy");
    reveal_strlit("supply_chain.");
    reveal_strlit("surface.");
    reveal_strlit("tool_budget.");
    reveal_strlit("tools.duplicate_exact");
    reveal_strlit("tools.duplicate_semantic");
    lemma_exact_clash(code, "gate.run_failed"@, "exception.allowlist_invalid"@, 0);
    lemma_exact_clash(code, "gate.run_failed"@, "security.allow_any_policy"@, 0);
    lemma_exact_clash(code, "gate.run_failed"@, "exception.expired"@, 0);
    lemma_exact_clash(code, "gate.run_failed"@, "exception.window_exceeded"@, 0);
    lemma_exact_clash(code, "gate.run_failed"@, "exception.budget_exceeded"@, 0);
    lemma_exact_clash(code, "gate.run_failed"@, "duplicates.ratchet_regression"@, 0);
    lemma_exact_clash(code, "gate.run_failed"@, "public_surface.ratchet_regression"@, 0);
    lemma_no_suffix_hit(code);
    lemma_no_exact_hit(code);
    lemma_prefix_clash(code, "gate.run_failed"@, "config."@, 0);
    lemma_prefix_clash(code, "gate.run_failed"@, "failure_modes."@, 0);
    lemma_prefix_clash(code, "gate.run_failed"@, "pack."@, 0);
    lemma_prefix_clash(code, "gate.run_failed"@, "supply_chain."@, 0);
    lemma_prefix_clash(code, "gate.run_failed"@, "quality_delta."@, 0);
    lemma_prefix_clash(code, "gate.run_failed"@, "boundary."@, 0);
    lemma_prefix_clash(code, "gate.run_failed"@, "tools.duplicate_exact"@, 0);
    lemma_prefix_clash(code, "gate.run_failed"@, "tools.duplicate_semantic"@, 0);
    lemma_prefix_clash(code, "gate.run_failed"@, "loc."@, 0);
    lemma_prefix_clash(code, "gate.run_failed"@, "surface."@, 0);
    lemma_prefix_clash(code, "gate.run_failed"@, "duplicates."@, 0);
    lemma_prefix_clash(code, "gate.run_failed"@, "dead_code."@, 0);
    lemma_prefix_clash(code, "gate.run_failed"@, "orphan_api."@, 0);
    lemma_prefix_clash(code, "gate.run_failed"@, "env_registry."@, 0);
    lemma_prefix_clash(code, "gate.run_failed"@, "env."@, 0);
    lemma_prefix_clash(code, "gate.run_failed"@, "public_surface."@, 0);
    lemma_prefix_clash(code, "gate.run_failed"@, "tool_budget."@, 0);
    lemma_prefix_clash(code, "gate.run_failed"@, "reuse_first."@, 0);
    lemma_prefix_clash(code, "gate.run_failed"@, "arch_layers."@, 0);
    lemma_prefix_clash(code, "gate.run_failed"@, "complexity_budget."@, 0);
    lemma_prefix_clash(code, "gate.run_failed"@, "contract_break."@, 0);
    lemma_prefix_clash(code, "gate.run_failed"@, "change_impact."@, 0);
    lemma_prefix_clash(code, "gate.run_failed"@, "gate.receipt_contract"@, 6);
    lemma_prefix_clash(code, "gate.run_failed"@, "gate.tool_failed"@, 5);
    assert(reg.skip(0) =~= reg);
    lemma_hit_step(reg, PatternKind::Prefix, code, 0);
    lemma_hit_step(reg, PatternKind::Prefix, code, 1);
    lemma_hit_step(reg, PatternKind::Prefix, code, 2);
    lemma_hit_step(reg, PatternKind::Prefix, code, 3);
    lemma_hit_step(reg, PatternKind::Prefix, code, 4);
    lemma_hit_step(reg, PatternKind::Prefix, code, 5);
    lemma_hit_step(reg, PatternKind::Prefix, code, 6);
    lemma_hit_step(reg, PatternKind::Prefix, code, 7);
    lemma_hit_step(reg, PatternKind::Prefix, code, 8);
    lemma_hit_step(reg, PatternKind::Prefix, code, 9);
    lemma_hit_step(reg, PatternKind::Prefix, code, 10);
    lemma_hit_step(reg, PatternKind::Prefix, code, 11);
    lemma_hit_step(reg, PatternKind::Prefix, code, 12);
    lemma_hit_step(reg, PatternKind::Prefix, code, 13);
    lemma_hit_step(reg, PatternKind::Prefix, code, 14);
    lemma_hit_step(reg, PatternKind::Prefix, code, 15);
    lemma_hit_step(reg, PatternKind::Prefix, code, 16);
    lemma_hit_step(reg, PatternKind::Prefix, code, 17);
    lemma_hit_step(reg, PatternKind::Prefix, code, 18);
    lemma_hit_step(reg, PatternKind::Prefix, code, 19);
    lemma_hit_step(reg, PatternKind::Prefix, code, 20);
    lemma_hit_step(reg, PatternKind::Prefix, code, 21);
    lemma_hit_step(reg, PatternKind::Prefix, code, 22);
    lemma_hit_step(reg, PatternKind::Prefix, code, 23);
    lemma_hit_step(reg, PatternKind::Prefix, code, 24);
    lemma_hit_step(reg, PatternKind::Prefix, code, 25);
    lemma_hit_step(reg, PatternKind::Prefix, code, 26);
    lemma_hit_step(reg, PatternKind::Prefix, code, 27);
    lemma_hit_step(reg, PatternKind::Prefix, code, 28);
    lemma_hit_step(reg, PatternKind::Prefix, code, 29);
    lemma_hit_step(reg, PatternKind::Prefix, code, 30);
    lemma_hit_step(reg, PatternKind::Prefix, code, 31);
    lemma_hit_step(reg, PatternKind::Prefix, code, 32);
    lemma_hit_step(reg, PatternKind::Prefix, code, 33);
    lemma_hit_step(reg, PatternKind::Prefix, code, 34);
    lemma_hit_step(reg, PatternKind::Prefix, code, 35);
    lemma_hit_step(reg, PatternKind::Prefix, code, 36);
}

/// Every code in the `gate.observation.` family (and not an infrastructure failure or a
/// more specific entry) is classed ContractBreak with tier Observation.
pub proof fn law_gate_observation_classifies_as_contractbreak_observation(code: Seq<char>)
    requires
        seq_starts_with(code, "gate.observation."@),
        !infra_failure(code),
    ensures
        classify_spec(code) == (ErrorClass::ContractBreak, ViolationTier::Observation),
{
    let reg = registry_spec();
    reveal_strlit("arch_layers.");
    reveal_strlit("boundary.");
    reveal_strlit("change_impact.");
    reveal_strlit("complexity_budget.");
    reveal_strlit("config.");
    reveal_strlit("contract_break.");
    reveal_strlit("dead_code.");
    reveal_strlit("duplicates.");
    reveal_strlit("duplicates.ratchet_regression");
    reveal_strlit("env.");
    reveal_strlit("env_registry.");
    reveal_strlit("exception.allowlist_invalid");
    reveal_strlit("exception.budget_exceeded");
    reveal_strlit("exception.expired");
    reveal_strlit("exception.window_exceeded");
    reveal_strlit("failure_modes.");
    reveal_strlit("gate.observation.");
    reveal_strlit("gate.receipt_contract");
    reveal_strlit("gate.run_failed");
    reveal_strlit("gate.run_failed_transient");
    reveal_strlit("gate.tool_failed");
    reveal_strlit("loc.");
    reveal_strlit("orphan_api.");
    reveal_strlit("pack.");
    reveal_strlit("public_surface.");
    reveal_strlit("public_surface.ratchet_regression");
    reveal_strlit("quality_delta.");
    reveal_strlit("reuse_first.");
    reveal_strlit("security.allow_any_policy");
    reveal_strlit("supply_chain.");
    reveal_strlit("surface.");
    reveal_strlit("tool_budget.");
    reveal_strlit("tools.duplicate_exact");
    reveal_strlit("tools.duplicate_semantic");
    lemma_exact_clash(code, "gate.observation."@, "exception.allowlist_invalid"@, 0);
    lemma_exact_clash(code, "gate.observation."@, "security.allow_any_policy"@, 0);
    lemma_exact_clash(code, "gate.observation."@, "exception.expired"@, 0);
    lemma_exact_clash(code, "gate.observation."@, "exception.window_exceeded"@, 0);
    lemma_exact_clash(code, "gate.observation."@, "exception.budget_exceeded"@, 0);
    lemma_exact_clash(code, "gate.observation."@, "duplicates.ratchet_regression"@, 0);
    lemma_exact_clash(code, "gate.observation."@, "public_surface.ratchet_regression"@, 0);
    lemma_exact_clash(code, "gate.observation."@, "gate.run_failed_transient"@, 5);
    lemma_no_suffix_hit(code);
    lemma_no_exact_hit(code);
    lemma_prefix_clash(code, "gate.observation."@, "config."@, 0);
    lemma_prefix_clash(code, "gate.observation."@, "failure_modes."@, 0);
    lemma_prefix_clash(code, "gate.observation."@, "pack."@, 0);
    lemma_prefix_clash(code, "gate.observation."@, "supply_chain."@, 0);
    lemma_prefix_clash(code, "gate.observation."@, "quality_delta."@, 0);
    lemma_prefix_clash(code, "gate.observation."@, "boundary."@, 0);
    lemma_prefix_clash(code, "gate.observation."@, "tools.duplicate_exact"@, 0);
    lemma_prefix_clash(code, "gate.observation."@, "tools.duplicate_semantic"@, 0);
    lemma_prefix_clash(code, "gate.observation."@, "loc."@, 0);
    lemma_prefix_clash(code, "gate.observation."@, "surface."@, 0);
    lemma_prefix_clash(code, "gate.observation."@, "duplicates."@, 0);
    lemma_prefix_clash(code, "gate.observation."@, "dead_code."@, 0);
    lemma_prefix_clash(code, "gate.observation."@, "orphan_api."@, 0);
    lemma_prefix_clash(code, "gate.observation."@, "env_registry."@, 0);
    lemma_prefix_clash(code, "gate.observation."@, "env."@, 0);
    lemma_prefix_clash(code, "gate.observation."@, "public_surface."@, 0);
    lemma_prefix_clash(code, "gate.observation."@, "tool_budget."@, 0);
    lemma_prefix_clash(code, "gate.observation."@, "reuse_first."@, 0);
    lemma_prefix_clash(code, "gate.observation."@, "arch_layers."@, 0);
    lemma_prefix_clash(code, "gate.observation."@, "complexity_budget."@, 0);
    lemma_prefix_clash(code, "gate.observation."@, "contract_break."@, 0);
    lemma_prefix_clash(code, "gate.observation."@, "change_impact."@, 0);
    lemma_prefix_clash(code, "gate.observation."@, "gate.receipt_contract"@, 5);
    lemma_prefix_clash(code, "gate.observation."@, "gate.tool_failed"@, 5);
    lemma_prefix_clash(code, "gate.observation."@, "gate.run_failed"@, 5);
    assert(reg.skip(0) =~= reg);
    lemma_hit_step(reg, PatternKind::Prefix, code, 0);
    lemma_hit_step(reg, PatternKind::Prefix, code, 1);
    lemma_hit_step(reg, PatternKind::Prefix, code, 2);
    lemma_hit_step(reg, PatternKind::Prefix, code, 3);
    lemma_hit_step(reg, PatternKind::Prefix, code, 4);
    lemma_hit_step(reg, PatternKind::Prefix, code, 5);
    lemma_hit_step(reg, PatternKind::Prefix, code, 6);
    lemma_hit_step(reg, PatternKind::Prefix, code, 7);
    lemma_hit_step(reg, PatternKind::Prefix, code, 8);
    lemma_hit_step(reg, PatternKind::Prefix, code, 9);
    lemma_hit_step(reg, PatternKind::Prefix, code, 10);
    lemma_hit_step(reg, PatternKind::Prefix, code, 11);
    lemma_hit_step(reg, PatternKind::Prefix, code, 12);
    lemma_hit_step(reg, PatternKind::Prefix, code, 13);
    lemma_hit_step(reg, PatternKind::Prefix, code, 14);
    lemma_hit_step(reg, PatternKind::Prefix, code, 15);
    lemma_hit_step(reg, PatternKind::Prefix, code, 16);
    lemma_hit_step(reg, PatternKind::Prefix, code, 17);
    lemma_hit_step(reg, PatternKind::Prefix, code, 18);
    lemma_hit_step(reg, PatternKind::Prefix, code, 19);
    lemma_hit_step(reg, PatternKind::Prefix, code, 20);
    lemma_hit_step(reg, PatternKind::Prefix, code, 21);
    lemma_hit_step(reg, PatternKind::Prefix, code, 22);
    lemma_hit_step(reg, PatternKind::Prefix, code, 23);
    lemma_hit_step(reg, PatternKind::Prefix, code, 24);
    lemma_hit_step(reg, PatternKind::Prefix, code, 25);
    lemma_hit_step(reg, PatternKind::Prefix, code, 26);
    lemma_hit_step(reg, PatternKind::Prefix, code, 27);
    lemma_hit_step(reg, PatternKind::Prefix, code, 28);
    lemma_hit_step(reg, PatternKind::Prefix, code, 29);
    lemma_hit_step(reg, PatternKind::Prefix, code, 30);
    lemma_hit_step(reg, PatternKind::Prefix, code, 31);
    lemma_hit_step(reg, PatternKind::Prefix, code, 32);
    lemma_hit_step(reg, PatternKind::Prefix, code, 33);
    lemma_hit_step(reg, PatternKind::Prefix, code, 34);
    lemma_hit_step(reg, PatternKind::Prefix, code, 35);
    lemma_hit_step(reg, PatternKind::Prefix, code, 36);
    lemma_hit_step(reg, PatternKind::Prefix, code, 37);
}

/// Every code in the `gate.` family (and not an infrastructure failure or a
/// more specific entry) is classed SchemaConfig with tier Blocking.
pub proof fn law_gate_classifies_as_schemaconfig_blocking(code: Seq<char>)
    requires
        seq_starts_with(code, "gate."@),
        !infra_failure(code),
        code != "gate.run_failed_transient"@,
        !seq_starts_with(code, "gate.receipt_contract"@),
        !seq_starts_with(code, "gate.tool_failed"@),
        !seq_starts_with(code, "gate.run_failed"@),
        !seq_starts_with(code, "gate.observation."@),
    ensures
        classify_spec(code) == (ErrorClass::SchemaConfig, ViolationTier::Blocking),
{
    let reg = registry_spec();
    reveal_strlit("arch_layers.");
    reveal_strlit("boundary.");
    reveal_strlit("change_impact.");
    reveal_strlit("complexity_budget.");
    reveal_strlit("config.");
    reveal_strlit("contract_break.");
    reveal_strlit("dead_code.");
    reveal_strlit("duplicates.");
    reveal_strlit("duplicates.ratchet_regression");
    reveal_strlit("env.");
    reveal_strlit("env_registry.");
    reveal_strlit("exception.allowlist_invalid");
    reveal_strlit("exception.budget_exceeded");
    reveal_strlit("exception.expired");
    reveal_strlit("exception.window_exceeded");
    reveal_strlit("failure_modes.");
    reveal_strlit("gate.");
    reveal_strlit("gate.observation.");
    reveal_strlit("gate.receipt_contract");
    reveal_strlit("gate.run_failed");
    reveal_strlit("gate.run_failed_transient");
    reveal_strlit("gate.tool_failed");
    reveal_strlit("loc.");
    reveal_strlit("orphan_api.");
    reveal_strlit("pack.");
    reveal_strlit("public_surface.");
    reveal_strlit("public_surface.ratchet_regression");
    reveal_strlit("quality_delta.");
    reveal_strlit("reuse_first.");
    reveal_strlit("security.allow_any_policy");
    reveal_strlit("supply_chain.");
    reveal_strlit("surface.");
    reveal_strlit("tool_budget.");
    reveal_strlit("tools.duplicate_exact");
    reveal_strlit("tools.duplicate_semantic");
    lemma_exact_clash(code, "gate."@, "exception.allowlist_invalid"@, 0);
    lemma_exact_clash(code, "gate."@, "security.allow_any_policy"@, 0);
    lemma_exact_clash(code, "gate."@, "exception.expired"@, 0);
    lemma_exact_clash(code, "gate."@, "exception.window_exceeded"@, 0);
    lemma_exact_clash(code, "gate."@, "exception.budget_exceeded"@, 0);
    lemma_exact_clash(code, "gate."@, "duplicates.ratchet_regression"@, 0);
    lemma_exact_clash(code, "gate."@, "public_surface.ratchet_regression"@, 0);
    lemma_no_suffix_hit(code);
    lemma_no_exact_hit(code);
    lemma_prefix_clash(code, "gate."@, "config."@, 0);
    lemma_prefix_clash(code, "gate."@, "failure_modes."@, 0);
    lemma_prefix_clash(code, "gate."@, "pack."@, 0);
    lemma_prefix_clash(code, "gate."@, "supply_chain."@, 0);
    lemma_prefix_clash(code, "gate."@, "quality_delta."@, 0);
    lemma_prefix_clash(code, "gate."@, "boundary."@, 0);
    lemma_prefix_clash(code, "gate."@, "tools.duplicate_exact"@, 0);
    lemma_prefix_clash(code, "gate."@, "tools.duplicate_semantic"@, 0);
    lemma_prefix_clash(code, "gate."@, "loc."@, 0);
    lemma_prefix_clash(code, "gate."@, "surface."@, 0);
    lemma_prefix_clash(code, "gate."@, "duplicates."@, 0);
    lemma_prefix_clash(code, "gate."@, "dead_code."@, 0);
    lemma_prefix_clash(code, "gate."@, "orphan_api."@, 0);
    lemma_prefix_clash(code, "gate."@, "env_registry."@, 0);
    lemma_prefix_clash(code, "gate."@, "env."@, 0);
    lemma_prefix_clash(code, "gate."@, "public_surface."@, 0);
    lemma_prefix_clash(code, "gate."@, "tool_budget."@, 0);
    lemma_prefix_clash(code, "gate."@, "reuse_first."@, 0);
    lemma_prefix_clash(code, "gate."@, "arch_layers."@, 0);
    lemma_prefix_clash(code, "gate."@, "complexity_budget."@, 0);
    lemma_prefix_clash(code, "gate."@, "contract_break."@, 0);
    lemma_prefix_clash(code, "gate."@, "change_impact."@, 0);
    assert(reg.skip(0) =~= reg);
    lemma_hit_step(reg, PatternKind::Prefix, code, 0);
    lemma_hit_step(reg, PatternKind::Prefix, code, 1);
    lemma_hit_step(reg, PatternKind::Prefix, code, 2);
    lemma_hit_step(reg, PatternKind::Prefix, code, 3);
    lemma_hit_step(reg, PatternKind::Prefix, code, 4);
    lemma_hit_step(reg, PatternKind::Prefix, code, 5);
    lemma_hit_step(reg, PatternKind::Prefix, code, 6);
    lemma_hit_step(reg, PatternKind::Prefix, code, 7);
    lemma_hit_step(reg, PatternKind::Prefix, code, 8);
    lemma_hit_step(reg, PatternKind::Prefix, code, 9);
    lemma_hit_step(reg, PatternKind::Prefix, code, 10);
    lemma_hit_step(reg, PatternKind::Prefix, code, 11);
    lemma_hit_step(reg, PatternKind::Prefix, code, 12);
    lemma_hit_step(reg, PatternKind::Prefix, code, 13);
    lemma_hit_step(reg, PatternKind::Prefix, code, 14);
    lemma_hit_step(reg, PatternKind::Prefix, code, 15);
    lemma_hit_step(reg, PatternKind::Prefix, code, 16);
    lemma_hit_step(reg, PatternKind::Prefix, code, 17);
    lemma_hit_step(reg, PatternKind::Prefix, code, 18);
    lemma_hit_step(reg, PatternKind::Prefix, code, 19);
    lemma_hit_step(reg, PatternKind::Prefix, code, 20);
    lemma_hit_step(reg, PatternKind::Prefix, code, 21);
    lemma_hit_step(reg, PatternKind::Prefix, code, 22);
    lemma_hit_step(reg, PatternKind::Prefix, code, 23);
    lemma_hit_step(reg, PatternKind::Prefix, code, 24);
    lemma_hit_step(reg, PatternKind::Prefix, code, 25);
    lemma_hit_step(reg, PatternKind::Prefix, code, 26);
    lemma_hit_step(reg, PatternKind::Prefix, code, 27);
    lemma_hit_step(reg, PatternKind::Prefix, code, 28);
    lemma_hit_step(reg, PatternKind::Prefix, code, 29);
    lemma_hit_step(reg, PatternKind::Prefix, code, 30);
    lemma_hit_step(reg, PatternKind::Prefix, code, 31);
    lemma_hit_step(reg, PatternKind::Prefix, code, 32);
    lemma_hit_step(reg, PatternKind::Prefix, code, 33);
    lemma_hit_step(reg, PatternKind::Prefix, code, 34);
    lemma_hit_step(reg, PatternKind::Prefix, code, 35);
    lemma_hit_step(reg, PatternKind::Prefix, code, 36);
    lemma_hit_step(reg, PatternKind::Prefix, code, 37);
    lemma_hit_step(reg, PatternKind::Prefix, code, 38);
}

/// Every code in the `witness.` family (and not an infrastructure failure or a
/// more specific entry) is classed RuntimeRisk with tier Blocking.
pub proof fn law_witness_classifies_as_runtimerisk_blocking(code: Seq<char>)
    requires
        seq_starts_with(code, "witness."@),
        !infra_failure(code),
    ensures
        classify_spec(code) == (ErrorClass::RuntimeRisk, ViolationTier::Blocking),
{
    let reg = registry_spec();
    reveal_strlit("arch_layers.");
    reveal_strlit("boundary.");
    reveal_strlit("change_impact.");
    reveal_strlit("complexity_budget.");
    reveal_strlit("config.");
    reveal_strlit("contract_break.");
    reveal_strlit("dead_code.");
    reveal_strlit("duplicates.");
    reveal_strlit("duplicates.ratchet_regression");
    reveal_strlit("env.");
    reveal_strlit("env_registry.");
    reveal_strlit("exception.allowlist_invalid");
    reveal_strlit("exception.budget_exceeded");
    reveal_strlit("exception.expired");
    reveal_strlit("exception.window_exceeded");
    reveal_strlit("failure_modes.");
    reveal_strlit("gate.");
    reveal_strlit("gate.observation.");
    reveal_strlit("gate.receipt_contract");
    reveal_strlit("gate.run_failed");
    reveal_strlit("gate.run_failed_transient");
    reveal_strlit("gate.tool_failed");
    reveal_strlit("loc.");
    reveal_strlit("orphan_api.");
    reveal_strlit("pack.");
    reveal_strlit("public_surface.");
    reveal_strlit("public_surface.ratchet_regression");
    reveal_strlit("quality_delta.");
    reveal_strlit("reuse_first.");
    reveal_strlit("security.allow_any_policy");
    reveal_strlit("supply_chain.");
    reveal_strlit("surface.");
    reveal_strlit("tool_budget.");
    reveal_strlit("tools.duplicate_exact");
    reveal_strlit("tools.duplicate_semantic");
    reveal_strlit("witness.");
    lemma_exact_clash(code, "witness."@, "exception.allowlist_invalid"@, 0);
    lemma_exact_clash(code, "witness."@, "security.allow_any_policy"@, 0);
    lemma_exact_clash(code, "witness."@, "exception.expired"@, 0);
    lemma_exact_clash(code, "witness."@, "exception.window_exceeded"@, 0);
    lemma_exact_clash(code, "witness."@, "exception.budget_exceeded"@, 0);
    lemma_exact_clash(code, "witness."@, "duplicates.ratchet_regression"@, 0);
    lemma_exact_clash(code, "witness."@, "public_surface.ratchet_regression"@, 0);
    lemma_exact_clash(code, "witness."@, "gate.run_failed_transient"@, 0);
    lemma_no_suffix_hit(code);
    lemma_no_exact_hit(code);
    lemma_prefix_clash(code, "witness."@, "config."@, 0);
    lemma_prefix_clash(code, "witness."@, "failure_modes."@, 0);
    lemma_prefix_clash(code, "witness."@, "pack."@, 0);
    lemma_prefix_clash(code, "witness."@, "supply_chain."@, 0);
    lemma_prefix_clash(code, "witness."@, "quality_delta."@, 0);
    lemma_prefix_clash(code, "witness."@, "boundary."@, 0);
    lemma_prefix_clash(code, "witness."@, "tools.duplicate_exact"@, 0);
    lemma_prefix_clash(code, "witness."@, "tools.duplicate_semantic"@, 0);
    lemma_prefix_clash(code, "witness."@, "loc."@, 0);
    lemma_prefix_clash(code, "witness."@, "surface."@, 0);
    lemma_prefix_clash(code, "witness."@, "duplicates."@, 0);
    lemma_prefix_clash(code, "witness."@, "dead_code."@, 0);
    lemma_prefix_clash(code, "witness."@, "orphan_api."@, 0);
    lemma_prefix_clash(code, "witness."@, "env_registry."@, 0);
    lemma_prefix_clash(code, "witness."@, "env."@, 0);
    lemma_prefix_clash(code, "witness."@, "public_surface."@, 0);
    lemma_prefix_clash(code, "witness."@, "tool_budget."@, 0);
    lemma_prefix_clash(code, "witness."@, "reuse_first."@, 0);
    lemma_prefix_clash(code, "witness."@, "arch_layers."@, 0);
    lemma_prefix_clash(code, "witness."@, "complexity_budget."@, 0);
    lemma_prefix_clash(code, "witness."@, "contract_break."@, 0);
    lemma_prefix_clash(code, "witness."@, "change_impact."@, 0);
    lemma_prefix_clash(code, "witness."@, "gate.receipt_contract"@, 0);
    lemma_prefix_clash(code, "witness."@, "gate.tool_failed"@, 0);
    lemma_prefix_clash(code, "witness."@, "gate.run_failed"@, 0);
    lemma_prefix_clash(code, "witness."@, "gate.observation."@, 0);
    lemma_prefix_clash(code, "witness."@, "gate."@, 0);
    assert(reg.skip(0) =~= reg);
    lemma_hit_step(reg, PatternKind::Prefix, code, 0);
    lemma_hit_step(reg, PatternKind::Prefix, code, 1);
    lemma_hit_step(reg, PatternKind::Prefix, code, 2);
    lemma_hit_step(reg, PatternKind::Prefix, code, 3);
    lemma_hit_step(reg, PatternKind::Prefix, code, 4);
    lemma_hit_step(reg, PatternKind::Prefix, code, 5);
    lemma_hit_step(reg, PatternKind::Prefix, code, 6);
    lemma_hit_step(reg, PatternKind::Prefix, code, 7);
    lemma_hit_step(reg, PatternKind::Prefix, code, 8);
    lemma_hit_step(reg, PatternKind::Prefix, code, 9);
    lemma_hit_step(reg, PatternKind::Prefix, code, 10);
    lemma_hit_step(reg, PatternKind::Prefix, code, 11);
    lemma_hit_step(reg, PatternKind::Prefix, code, 12);
    lemma_hit_step(reg, PatternKind::Prefix, code, 13);
    lemma_hit_step(reg, PatternKind::Prefix, code, 14);
    lemma_hit_step(reg, PatternKind::Prefix, code, 15);
    lemma_hit_step(reg, PatternKind::Prefix, code, 16);
    lemma_hit_step(reg, PatternKind::Prefix, code, 17);
    lemma_hit_step(reg, PatternKind::Prefix, code, 18);
    lemma_hit_step(reg, PatternKind::Prefix, code, 19);
    lemma_hit_step(reg, PatternKind::Prefix, code, 20);
    lemma_hit_step(reg, PatternKind::Prefix, code, 21);
    lemma_hit_step(reg, PatternKind::Prefix, code, 22);
    lemma_hit_step(reg, PatternKind::Prefix, code, 23);
    lemma_hit_step(reg, PatternKind::Prefix, code, 24);
    lemma_hit_step(reg, PatternKind::Prefix, code, 25);
    lemma_hit_step(reg, PatternKind::Prefix, code, 26);
    lemma_hit_step(reg, PatternKind::Prefix, code, 27);
    lemma_hit_step(reg, PatternKind::Prefix, code, 28);
    lemma_hit_step(reg, PatternKind::Prefix, code, 29);
    lemma_hit_step(reg, PatternKind::Prefix, code, 30);
    lemma_hit_step(reg, PatternKind::Prefix, code, 31);
    lemma_hit_step(reg, PatternKind::Prefix, code, 32);
    lemma_hit_step(reg, PatternKind::Prefix, code, 33);
    lemma_hit_step(reg, PatternKind::Prefix, code, 34);
    lemma_hit_step(reg, PatternKind::Prefix, code, 35);
    lemma_hit_step(reg, PatternKind::Prefix, code, 36);
    lemma_hit_step(reg, PatternKind::Prefix, code, 37);
    lemma_hit_step(reg, PatternKind::Prefix, code, 38);
    lemma_hit_step(reg, PatternKind::Prefix, code, 39);
}

/// The code `exception.allowlist_invalid` is classed SchemaConfig with tier Blocking.
pub proof fn law_exception_allowlist_invalid_classifies_as_schemaconfig_blocking()
    ensures
        classify_spec("exception.allowlist_invalid"@) == (ErrorClass::SchemaConfig, ViolationTier::Blocking),
{
    let reg = registry_spec();
    reveal_strlit(".check_failed");
    reveal_strlit(".manifest_parse_failed");
    reveal_strlit(".read_failed");
    reveal_strlit(".stat_failed");
    reveal_strlit("duplicates.ratchet_regression");
    reveal_strlit("exception.allowlist_invalid");
    reveal_strlit("exception.budget_exceeded");
    reveal_strlit("exception.expired");
    reveal_strlit("exception.window_exceeded");
    reveal_strlit("gate.run_failed_transient");
    reveal_strlit("public_surface.ratchet_regression");
    reveal_strlit("security.allow_any_policy");
    lemma_suffix_clash("exception.allowlist_invalid"@, ".check_failed"@, 11);
    lemma_suffix_clash("exception.allowlist_invalid"@, ".read_failed"@, 10);
    lemma_suffix_clash("exception.allowlist_invalid"@, ".stat_failed"@, 10);
    lemma_suffix_clash("exception.allowlist_invalid"@, ".manifest_parse_failed"@, 20);
    lemma_no_suffix_hit("exception.allowlist_invalid"@);
    assert(reg.skip(0) =~= reg);
    lemma_hit_step(reg, PatternKind::Exact, "exception.allowlist_invalid"@, 0);
    lemma_hit_step(reg, PatternKind::Exact, "exception.allowlist_invalid"@, 1);
    lemma_hit_step(reg, PatternKind::Exact, "exception.allowlist_invalid"@, 2);
    lemma_hit_step(reg, PatternKind::Exact, "exception.allowlist_invalid"@, 3);
    lemma_hit_step(reg, PatternKind::Exact, "exception.allowlist_invalid"@, 4);
    lemma_hit_step(reg, PatternKind::Exact, "exception.allowlist_invalid"@, 5);
    lemma_hit_step(reg, PatternKind::Exact, "exception.allowlist_invalid"@, 6);
    lemma_hit_step(reg, PatternKind::Exact, "exception.allowlist_invalid"@, 7);
}

/// The code `security.allow_any_policy` is classed Security with tier Blocking.
pub proof fn law_security_allow_any_policy_classifies_as_security_blocking()
    ensures
        classify_spec("security.allow_any_policy"@) == (ErrorClass::Security, ViolationTier::Blocking),
{
    let reg = registry_spec();
    reveal_strlit(".check_failed");
    reveal_strlit(".manifest_parse_failed");
    reveal_strlit(".read_failed");
    reveal_strlit(".stat_failed");
    reveal_strlit("duplicates.ratchet_regression");
    reveal_strlit("exception.allowlist_invalid");
    reveal_strlit("exception.budget_exceeded");
    reveal_strlit("exception.expired");
    reveal_strlit("exception.window_exceeded");
    reveal_strlit("gate.run_failed_transient");
    reveal_strlit("public_surface.ratchet_regression");
    reveal_strlit("security.allow_any_policy");
    lemma_suffix_clash("security.allow_any_policy"@, ".check_failed"@, 12);
    lemma_suffix_clash("security.allow_any_policy"@, ".read_failed"@, 11);
    lemma_suffix_clash("security.allow_any_policy"@, ".stat_failed"@, 11);
    lemma_suffix_clash("security.allow_any_policy"@, ".manifest_parse_failed"@, 21);
    lemma_no_suffix_hit("security.allow_any_policy"@);
    lemma_text_differs("security.allow_any_policy"@, "exception.allowlist_invalid"@, 0);
    assert(reg.skip(0) =~= reg);
    lemma_hit_step(reg, PatternKind::Exact, "security.allow_any_policy"@, 0);
    lemma_hit_step(reg, PatternKind::Exact, "security.allow_any_policy"@, 1);
    lemma_hit_step(reg, PatternKind::Exact, "security.allow_any_policy"@, 2);
    lemma_hit_step(reg, PatternKind::Exact, "security.allow_any_policy"@, 3);
    lemma_hit_step(reg, PatternKind::Exact, "security.allow_any_policy"@, 4);
    lemma_hit_step(reg, PatternKind::Exact, "security.allow_any_policy"@, 5);
    lemma_hit_step(reg, PatternKind::Exact, "security.allow_any_policy"@, 6);
    lemma_hit_step(reg, PatternKind::Exact, "security.allow_any_policy"@, 7);
    lemma_hit_step(reg, PatternKind::Exact, "security.allow_any_policy"@, 8);
    lemma_hit_step(reg, PatternKind::Exact, "security.allow_any_policy"@, 9);
}

/// The code `exception.expired` is classed ContractBreak with tier Blocking.
pub proof fn law_exception_expired_classifies_as_contractbreak_blocking()
    ensures
        classify_spec("exception.expired"@) == (ErrorClass::ContractBreak, ViolationTier::Blocking),
{
    let reg = registry_spec();
    reveal_strlit(".check_failed");
    reveal_strlit(".manifest_parse_failed");
    reveal_strlit(".read_failed");
    reveal_strlit(".stat_failed");
    reveal_strlit("duplicates.ratchet_regression");
    reveal_strlit("exception.allowlist_invalid");
    reveal_strlit("exception.budget_exceeded");
    reveal_strlit("exception.expired");
    reveal_strlit("exception.window_exceeded");
    reveal_strlit("gate.run_failed_transient");
    reveal_strlit("public_surface.ratchet_regression");
    reveal_strlit("security.allow_any_policy");
    lemma_suffix_clash("exception.expired"@, ".check_failed"@, 10);
    lemma_suffix_clash("exception.expired"@, ".read_failed"@, 9);
    lemma_suffix_clash("exception.expired"@, ".stat_failed"@, 9);
    lemma_suffix_clash("exception.expired"@, ".manifest_parse_failed"@, 19);
    lemma_no_suffix_hit("exception.expired"@);
    lemma_text_differs("exception.expired"@, "exception.allowlist_invalid"@, 10);
    lemma_text_differs("exception.expired"@, "security.allow_any_policy"@, 0);
    assert(reg.skip(0) =~= reg);
    lemma_hit_step(reg, PatternKind::Exact, "exception.expired"@, 0);
    lemma_hit_step(reg, PatternKind::Exact, "exception.expired"@, 1);
    lemma_hit_step(reg, PatternKind::Exact, "exception.expired"@, 2);
    lemma_hit_step(reg, PatternKind::Exact, "exception.expired"@, 3);
    lemma_hit_step(reg, PatternKind::Exact, "exception.expired"@, 4);
    lemma_hit_step(reg, PatternKind::Exact, "exception.expired"@, 5);
    lemma_hit_step(reg, PatternKind::Exact, "exception.expired"@, 6);
    lemma_hit_step(reg, PatternKind::Exact, "exception.expired"@, 7);
    lemma_hit_step(reg, PatternKind::Exact, "exception.expired"@, 8);
    lemma_hit_step(reg, PatternKind::Exact, "exception.expired"@, 9);
    lemma_hit_step(reg, PatternKind::Exact, "exception.expired"@, 10);
    lemma_hit_step(reg, PatternKind::Exact, "exception.expired"@, 11);
    lemma_hit_step(reg, PatternKind::Exact, "exception.expired"@, 12);
}

/// The code `exception.window_exceeded` is classed ContractBreak with tier Blocking.
pub proof fn law_exception_window_exceeded_classifies_as_contractbreak_blocking()
    ensures
        classify_spec("exception.window_exceeded"@) == (ErrorClass::ContractBreak, ViolationTier::Blocking),
{
    let reg = registry_spec();
    reveal_strlit(".check_failed");
    reveal_strlit(".manifest_parse_failed");
    reveal_strlit(".read_failed");
    reveal_strlit(".stat_failed");
    reveal_strlit("duplicates.ratchet_regression");
    reveal_strlit("exception.allowlist_invalid");
    reveal_strlit("exception.budget_exceeded");
    reveal_strlit("exception.expired");
    reveal_strlit("exception.window_exceeded");
    reveal_strlit("gate.run_failed_transient");
    reveal_strlit("public_surface.ratchet_regression");
    reveal_strlit("security.allow_any_policy");
    lemma_suffix_clash("exception.window_exceeded"@, ".check_failed"@, 10);
    lemma_suffix_clash("exception.window_exceeded"@, ".read_failed"@, 9);
    lemma_suffix_clash("exception.window_exceeded"@, ".stat_failed"@, 9);
    lemma_suffix_clash("exception.window_exceeded"@, ".manifest_parse_failed"@, 19);
    lemma_no_suffix_hit("exception.window_exceeded"@);
    lemma_text_differs("exception.window_exceeded"@, "exception.allowlist_invalid"@, 10);
    lemma_text_differs("exception.window_exceeded"@, "security.allow_any_policy"@, 0);
    lemma_text_differs("exception.window_exceeded"@, "exception.expired"@, 10);
    assert(reg.skip(0) =~= reg);
    lemma_hit_step(reg, PatternKind::Exact, "exception.window_exceeded"@, 0);
    lemma_hit_step(reg, PatternKind::Exact, "exception.window_exceeded"@, 1);
    lemma_hit_step(reg, PatternKind::Exact, "exception.window_exceeded"@, 2);
    lemma_hit_step(reg, PatternKind::Exact, "exception.window_exceeded"@, 3);
    lemma_hit_step(reg, PatternKind::Exact, "exception.window_exceeded"@, 4);
    lemma_hit_step(reg, PatternKind::Exact, "exception.window_exceeded"@, 5);
    lemma_hit_step(reg, PatternKind::Exact, "exception.window_exceeded"@, 6);
    lemma_hit_step(reg, PatternKind::Exact, "exception.window_exceeded"@, 7);
    lemma_hit_step(reg, PatternKind::Exact, "exception.window_exceeded"@, 8);
    lemma_hit_step(reg, PatternKind::Exact, "exception.window_exceeded"@, 9);
    lemma_hit_step(reg, PatternKind::Exact, "exception.window_exceeded"@, 10);
    lemma_hit_step(reg, PatternKind::Exact, "exception.window_exceeded"@, 11);
    lemma_hit_step(reg, PatternKind::Exact, "exception.window_exceeded"@, 12);
    lemma_hit_step(reg, PatternKind::Exact, "exception.window_exceeded"@, 13);
}

/// The code `exception.budget_exceeded` is classed ContractBreak with tier Blocking.
pub proof fn law_exception_budget_exceeded_classifies_as_contractbreak_blocking()
    ensures
        classify_spec("exception.budget_exceeded"@) == (ErrorClass::ContractBreak, ViolationTier::Blocking),
{
    let reg = registry_spec();
    reveal_strlit(".check_failed");
    reveal_strlit(".manifest_parse_failed");
    reveal_strlit(".read_failed");
    reveal_strlit(".stat_failed");
    reveal_strlit("duplicates.ratchet_regression");
    reveal_strlit("exception.allowlist_invalid");
    reveal_strlit("exception.budget_exceeded");
    reveal_strlit("exception.expired");
    reveal_strlit("exception.window_exceeded");
    reveal_strlit("gate.run_failed_transient");
    reveal_strlit("public_surface.ratchet_regression");
    reveal_strlit("security.allow_any_policy");
    lemma_suffix_clash("exception.budget_exceeded"@, ".check_failed"@, 10);
    lemma_suffix_clash("exception.budget_exceeded"@, ".read_failed"@, 9);
    lemma_suffix_clash("exception.budget_exceeded"@, ".stat_failed"@, 9);
    lemma_suffix_clash("exception.budget_exceeded"@, ".manifest_parse_failed"@, 19);
    lemma_no_suffix_hit("exception.budget_exceeded"@);
    lemma_text_differs("exception.budget_exceeded"@, "exception.allowlist_invalid"@, 10);
    lemma_text_differs("exception.budget_exceeded"@, "security.allow_any_policy"@, 0);
    lemma_text_differs("exception.budget_exceeded"@, "exception.expired"@, 10);
    lemma_text_differs("exception.budget_exceeded"@, "exception.window_exceeded"@, 10);
    assert(reg.skip(0) =~= reg);
    lemma_hit_step(reg, PatternKind::Exact, "exception.budget_exceeded"@, 0);
    lemma_hit_step(reg, PatternKind::Exact, "exception.budget_exceeded"@, 1);
    lemma_hit_step(reg, PatternKind::Exact, "exception.budget_exceeded"@, 2);
    lemma_hit_step(reg, PatternKind::Exact, "exception.budget_exceeded"@, 3);
    lemma_hit_step(reg, PatternKind::Exact, "exception.budget_exceeded"@, 4);
    lemma_hit_step(reg, PatternKind::Exact, "exception.budget_exceeded"@, 5);
    lemma_hit_step(reg, PatternKind::Exact, "exception.budget_exceeded"@, 6);
    lemma_hit_step(reg, PatternKind::Exact, "exception.budget_exceeded"@, 7);
    lemma_hit_step(reg, PatternKind::Exact, "exception.budget_exceeded"@, 8);
    lemma_hit_step(reg, PatternKind::Exact, "exception.budget_exceeded"@, 9);
    lemma_hit_step(reg, PatternKind::Exact, "exception.budget_exceeded"@, 10);
    lemma_hit_step(reg, PatternKind::Exact, "exception.budget_exceeded"@, 11);
    lemma_hit_step(reg, PatternKind::Exact, "exception.budget_exceeded"@, 12);
    lemma_hit_step(reg, PatternKind::Exact, "exception.budget_exceeded"@, 13);
    lemma_hit_step(reg, PatternKind::Exact, "exception.budget_exceeded"@, 14);
}

/// The code `duplicates.ratchet_regression` is classed QualityRegression with tier Blocking.
pub proof fn law_duplicates_ratchet_regression_classifies_as_qualityregression_blocking()
    ensures
        classify_spec("duplicates.ratchet_regression"@) == (ErrorClass::QualityRegression, ViolationTier::Blocking),
{
    let reg = registry_spec();
    reveal_strlit(".check_failed");
    reveal_strlit(".manifest_parse_failed");
    reveal_strlit(".read_failed");
    reveal_strlit(".stat_failed");
    reveal_strlit("duplicates.ratchet_regression");
    reveal_strlit("exception.allowlist_invalid");
    reveal_strlit("exception.budget_exceeded");
    reveal_strlit("exception.expired");
    reveal_strlit("exception.window_exceeded");
    reveal_strlit("gate.run_failed_transient");
    reveal_strlit("public_surface.ratchet_regression");
    reveal_strlit("security.allow_any_policy");
    lemma_suffix_clash("duplicates.ratchet_regression"@, ".check_failed"@, 12);
    lemma_suffix_clash("duplicates.ratchet_regression"@, ".read_failed"@, 11);
    lemma_suffix_clash("duplicates.ratchet_regression"@, ".stat_failed"@, 11);
    lemma_suffix_clash("duplicates.ratchet_regression"@, ".manifest_parse_failed"@, 21);
    lemma_no_suffix_hit("duplicates.ratchet_regression"@);
    lemma_text_differs("duplicates.ratchet_regression"@, "exception.allowlist_invalid"@, 0);
    lemma_text_differs("duplicates.ratchet_regression"@, "security.allow_any_policy"@, 0);
    lemma_text_differs("duplicates.ratchet_regression"@, "exception.expired"@, 0);
    lemma_text_differs("duplicates.ratchet_regression"@, "exception.window_exceeded"@, 0);
    lemma_text_differs("duplicates.ratchet_regression"@, "exception.budget_exceeded"@, 0);
    assert(reg.skip(0) =~= reg);
    lemma_hit_step(reg, PatternKind::Exact, "duplicates.ratchet_regression"@, 0);
    lemma_hit_step(reg, PatternKind::Exact, "duplicates.ratchet_regression"@, 1);
    lemma_hit_step(reg, PatternKind::Exact, "duplicates.ratchet_regression"@, 2);
    lemma_hit_step(reg, PatternKind::Exact, "duplicates.ratchet_regression"@, 3);
    lemma_hit_step(reg, PatternKind::Exact, "duplicates.ratchet_regression"@, 4);
    lemma_hit_step(reg, PatternKind::Exact, "duplicates.ratchet_regression"@, 5);
    lemma_hit_step(reg, PatternKind::Exact, "duplicates.ratchet_regression"@, 6);
    lemma_hit_step(reg, PatternKind::Exact, "duplicates.ratchet_regression"@, 7);
    lemma_hit_step(reg, PatternKind::Exact, "duplicates.ratchet_regression"@, 8);
    lemma_hit_step(reg, PatternKind::Exact, "duplicates.ratchet_regression"@, 9);
    lemma_hit_step(reg, PatternKind::Exact, "duplicates.ratchet_regression"@, 10);
    lemma_hit_step(reg, PatternKind::Exact, "duplicates.ratchet_regression"@, 11);
    lemma_hit_step(reg, PatternKind::Exact, "duplicates.ratchet_regression"@, 12);
    lemma_hit_step(reg, PatternKind::Exact, "duplicates.ratchet_regression"@, 13);
    lemma_hit_step(reg, PatternKind::Exact, "duplicates.ratchet_regression"@, 14);
    lemma_hit_step(reg, PatternKind::Exact, "duplicates.ratchet_regression"@, 15);
}

/// The code `public_surface.ratchet_regression` is classed QualityRegression with tier Blocking.
pub proof fn law_public_surface_ratchet_regression_classifies_as_qualityregression_blocking()
    ensures
        classify_spec("public_surface.ratchet_regression"@) == (ErrorClass::QualityRegression, ViolationTier::Blocking),
{
    let reg = registry_spec();
    reveal_strlit(".check_failed");
    reveal_strlit(".manifest_parse_failed");
    reveal_strlit(".read_failed");
    reveal_strlit(".stat_failed");
    reveal_strlit("duplicates.ratchet_regression");
    reveal_strlit("exception.allowlist_invalid");
    reveal_strlit("exception.budget_exceeded");
    reveal_strlit("exception.expired");
    reveal_strlit("exception.window_exceeded");
    reveal_strlit("gate.run_failed_transient");
    reveal_strlit("public_surface.ratchet_regression");
    reveal_strlit("security.allow_any_policy");
    lemma_suffix_clash("public_surface.ratchet_regression"@, ".check_failed"@, 12);
    lemma_suffix_clash("public_surface.ratchet_regression"@, ".read_failed"@, 11);
    lemma_suffix_clash("public_surface.ratchet_regression"@, ".stat_failed"@, 11);
    lemma_suffix_clash("public_surface.ratchet_regression"@, ".manifest_parse_failed"@, 21);
    lemma_no_suffix_hit("public_surface.ratchet_regression"@);
    lemma_text_differs("public_surface.ratchet_regression"@, "exception.allowlist_invalid"@, 0);
    lemma_text_differs("public_surface.ratchet_regression"@, "security.allow_any_policy"@, 0);
    lemma_text_differs("public_surface.ratchet_regression"@, "exception.expired"@, 0);
    lemma_text_differs("public_surface.ratchet_regression"@, "exception.window_exceeded"@, 0);
    lemma_text_differs("public_surface.ratchet_regression"@, "exception.budget_exceeded"@, 0);
    lemma_text_differs("public_surface.ratchet_regression"@, "duplicates.ratchet_regression"@, 0);
    assert(reg.skip(0) =~= reg);
    lemma_hit_step(reg, PatternKind::Exact, "public_surface.ratchet_regression"@, 0);
    lemma_hit_step(reg, PatternKind::Exact, "public_surface.ratchet_regression"@, 1);
    lemma_hit_step(reg, PatternKind::Exact, "public_surface.ratchet_regression"@, 2);
    lemma_hit_step(reg, PatternKind::Exact, "public_surface.ratchet_regression"@, 3);
    lemma_hit_step(reg, PatternKind::Exact, "public_surface.ratchet_regression"@, 4);
    lemma_hit_step(reg, PatternKind::Exact, "public_surface.ratchet_regression"@, 5);
    lemma_hit_step(reg, PatternKind::Exact, "public_surface.ratchet_regression"@, 6);
    lemma_hit_step(reg, PatternKind::Exact, "public_surface.ratchet_regression"@, 7);
    lemma_hit_step(reg, PatternKind::Exact, "public_surface.ratchet_regression"@, 8);
    lemma_hit_step(reg, PatternKind::Exact, "public_surface.ratchet_regression"@, 9);
    lemma_hit_step(reg, PatternKind::Exact, "public_surface.ratchet_regression"@, 10);
    lemma_hit_step(reg, PatternKind::Exact, "public_surface.ratchet_regression"@, 11);
    lemma_hit_step(reg, PatternKind::Exact, "public_surface.ratchet_regression"@, 12);
    lemma_hit_step(reg, PatternKind::Exact, "public_surface.ratchet_regression"@, 13);
    lemma_hit_step(reg, PatternKind::Exact, "public_surface.ratchet_regression"@, 14);
    lemma_hit_step(reg, PatternKind::Exact, "public_surface.ratchet_regression"@, 15);
    lemma_hit_step(reg, PatternKind::Exact, "public_surface.ratchet_regression"@, 16);
}

/// The code `gate.run_failed_transient` is classed TransientTool with tier Blocking.
pub proof fn law_gate_run_failed_transient_classifies_as_transienttool_blocking()
    ensures
        classify_spec("gate.run_failed_transient"@) == (ErrorClass::TransientTool, ViolationTier::Blocking),
{
    let reg = registry_spec();
    reveal_strlit(".check_failed");
    reveal_strlit(".manifest_parse_failed");
    reveal_strlit(".read_failed");
    reveal_strlit(".stat_failed");
    reveal_strlit("duplicates.ratchet_regression");
    reveal_strlit("exception.allowlist_invalid");
    reveal_strlit("exception.budget_exceeded");
    reveal_strlit("exception.expired");
    reveal_strlit("exception.window_exceeded");
    reveal_strlit("gate.run_failed_transient");
    reveal_strlit("public_surface.ratchet_regression");
    reveal_strlit("security.allow_any_policy");
    lemma_suffix_clash("gate.run_failed_transient"@, ".check_failed"@, 12);
    lemma_suffix_clash("gate.run_failed_transient"@, ".read_failed"@, 11);
    lemma_suffix_clash("gate.run_failed_transient"@, ".stat_failed"@, 11);
    lemma_suffix_clash("gate.run_failed_transient"@, ".manifest_parse_failed"@, 21);
    lemma_no_suffix_hit("gate.run_failed_transient"@);
    lemma_text_differs("gate.run_failed_transient"@, "exception.allowlist_invalid"@, 0);
    lemma_text_differs("gate.run_failed_transient"@, "security.allow_any_policy"@, 0);
    lemma_text_differs("gate.run_failed_transient"@, "exception.expired"@, 0);
    lemma_text_differs("gate.run_failed_transient"@, "exception.window_exceeded"@, 0);
    lemma_text_differs("gate.run_failed_transient"@, "exception.budget_exceeded"@, 0);
    lemma_text_differs("gate.run_failed_transient"@, "duplicates.ratchet_regression"@, 0);
    lemma_text_differs("gate.run_failed_transient"@, "public_surface.ratchet_regression"@, 0);
    assert(reg.skip(0) =~= reg);
    lemma_hit_step(reg, PatternKind::Exact, "gate.run_failed_transient"@, 0);
    lemma_hit_step(reg, PatternKind::Exact, "gate.run_failed_transient"@, 1);
    lemma_hit_step(reg, PatternKind::Exact, "gate.run_failed_transient"@, 2);
    lemma_hit_step(reg, PatternKind::Exact, "gate.run_failed_transient"@, 3);
    lemma_hit_step(reg, PatternKind::Exact, "gate.run_failed_transient"@, 4);
    lemma_hit_step(reg, PatternKind::Exact, "gate.run_failed_transient"@, 5);
    lemma_hit_step(reg, PatternKind::Exact, "gate.run_failed_transient"@, 6);
    lemma_hit_step(reg, PatternKind::Exact, "gate.run_failed_transient"@, 7);
    lemma_hit_step(reg, PatternKind::Exact, "gate.run_failed_transient"@, 8);
    lemma_hit_step(reg, PatternKind::Exact, "gate.run_failed_transient"@, 9);
    lemma_hit_step(reg, PatternKind::Exact, "gate.run_failed_transient"@, 10);
    lemma_hit_step(reg, PatternKind::Exact, "gate.run_failed_transient"@, 11);
    lemma_hit_step(reg, PatternKind::Exact, "gate.run_failed_transient"@, 12);
    lemma_hit_step(reg, PatternKind::Exact, "gate.run_failed_transient"@, 13);
    lemma_hit_step(reg, PatternKind::Exact, "gate.run_failed_transient"@, 14);
    lemma_hit_step(reg, PatternKind::Exact, "gate.run_failed_transient"@, 15);
    lemma_hit_step(reg, PatternKind::Exact, "gate.run_failed_transient"@, 16);
    lemma_hit_step(reg, PatternKind::Exact, "gate.run_failed_transient"@, 17);
    lemma_hit_step(reg, PatternKind::Exact, "gate.run_failed_transient"@, 18);
    lemma_hit_step(reg, PatternKind::Exact, "gate.run_failed_transient"@, 19);
    lemma_hit_step(reg, PatternKind::Exact, "gate.run_failed_transient"@, 20);
    lemma_hit_step(reg, PatternKind::Exact, "gate.run_failed_transient"@, 21);
    lemma_hit_step(reg, PatternKind::Exact, "gate.run_failed_transient"@, 22);
    lemma_hit_step(reg, PatternKind::Exact, "gate.run_failed_transient"@, 23);
    lemma_hit_step(reg, PatternKind::Exact, "gate.run_failed_transient"@, 24);
    lemma_hit_step(reg, PatternKind::Exact, "gate.run_failed_transient"@, 25);
    lemma_hit_step(reg, PatternKind::Exact, "gate.run_failed_transient"@, 26);
    lemma_hit_step(reg, PatternKind::Exact, "gate.run_failed_transient"@, 27);
    lemma_hit_step(reg, PatternKind::Exact, "gate.run_failed_transient"@, 28);
    lemma_hit_step(reg, PatternKind::Exact, "gate.run_failed_transient"@, 29);
    lemma_hit_step(reg, PatternKind::Exact, "gate.run_failed_transient"@, 30);
    lemma_hit_step(reg, PatternKind::Exact, "gate.run_failed_transient"@, 31);
    lemma_hit_step(reg, PatternKind::Exact, "gate.run_failed_transient"@, 32);
    lemma_hit_step(reg, PatternKind::Exact, "gate.run_failed_transient"@, 33);
    lemma_hit_step(reg, PatternKind::Exact, "gate.run_failed_transient"@, 34);
    lemma_hit_step(reg, PatternKind::Exact, "gate.run_failed_transient"@, 35);
}

/// Every infrastructure failure (a code ending in `.check_failed`,
/// `.read_failed`, `.stat_failed` or `.manifest_parse_failed`) is a runtime
/// risk and blocks, whatever its family.
pub proof fn law_infra_failure_is_blocking_runtime_risk(code: Seq<char>)
    requires
        infra_failure(code),
    ensures
        classify_spec(code) == (ErrorClass::RuntimeRisk, ViolationTier::Blocking),
{
    let reg = registry_spec();
    assert(reg.skip(0) =~= reg);
    lemma_hit_step(reg, PatternKind::Suffix, code, 0);
    lemma_hit_step(reg, PatternKind::Suffix, code, 1);
    lemma_hit_step(reg, PatternKind::Suffix, code, 2);
    lemma_hit_step(reg, PatternKind::Suffix, code, 3);
}

} // verus!
