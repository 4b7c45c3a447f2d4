//! The quality ratchet: a snapshot of the repository's quality and the
//! regressions of a current snapshot against the baseline one.
//!
//! The two checks that compare floating-point ratios (coverage minimum and
//! scope narrowing) are made by the caller and handed in as violations.

use crate::api::{
    plain_violation, violation_view, violation_views, BaselineMaintenance, DetailValue, DetailValueView, Details,
    Violation, ViolationTier, ViolationView,
};
use crate::csv::views;
use crate::plugins::{contains_string, retain_not_in, strings_not_in};
use crate::text::{concat, decimal_spec, i64_to_string, signed_decimal_spec, str_eq, u64_to_string};
use vstd::prelude::*;
use vstd::string::*;

verus! {

pub const SNAPSHOT_VERSION: u32 = 1;

/// How many files each check could see and how many it scanned.
#[derive(Debug, Clone)]
pub struct FileUniverse {
    pub loc_universe: usize,
    pub loc_scanned: usize,
    pub surface_universe: usize,
    pub surface_scanned: usize,
    pub boundary_universe: usize,
    pub boundary_scanned: usize,
    pub duplicates_universe: usize,
    pub duplicates_scanned: usize,
}

impl Default for FileUniverse {
    fn default() -> (u: Self)
        ensures
            u.loc_universe == 0 && u.loc_scanned == 0 && u.surface_universe == 0 && u.surface_scanned == 0
                && u.boundary_universe == 0 && u.boundary_scanned == 0 && u.duplicates_universe == 0
                && u.duplicates_scanned == 0,
    {
        FileUniverse {
            loc_universe: 0,
            loc_scanned: 0,
            surface_universe: 0,
            surface_scanned: 0,
            boundary_universe: 0,
            boundary_scanned: 0,
            duplicates_universe: 0,
            duplicates_scanned: 0,
        }
    }
}

/// A quality snapshot. The maps (risk by severity, lines per file) are lists
/// of entries ordered by key, each key once.
#[derive(Debug, Clone)]
pub struct QualitySnapshot {
    pub version: u32,
    pub trust_score: i32,
    pub coverage_covered: usize,
    pub coverage_total: usize,
    pub weighted_risk: i32,
    pub findings_total: usize,
    pub risk_by_severity: Vec<(String, usize)>,
    pub loc_per_file: Vec<(String, usize)>,
    pub surface_items: Vec<String>,
    pub duplicate_groups: Vec<Vec<String>>,
    pub file_universe: FileUniverse,
    pub written_at: String,
    pub written_by: Option<BaselineMaintenance>,
    pub config_hash: String,
}

/// A snapshot written by a newer version is refused.
pub fn check_snapshot_version(snap: &QualitySnapshot) -> (r: Result<(), String>)
    ensures
        snap.version <= SNAPSHOT_VERSION ==> r is Ok,
        snap.version > SNAPSHOT_VERSION ==> r is Err && r->Err_0@ == "quality snapshot version "@ + decimal_spec(
            snap.version as nat,
        ) + " > supported max 1"@,
{
    if snap.version > SNAPSHOT_VERSION {
        let a = concat("quality snapshot version ", u64_to_string(snap.version as u64).as_str());
        return Err(concat(a.as_str(), " > supported max 1"));
    }
    Ok(())
}

/// The value recorded for `key`: the first entry with that key.
pub open spec fn map_get(entries: Seq<(String, usize)>, key: Seq<char>) -> Option<usize>
    decreases entries.len(),
{
    if entries.len() == 0 {
        None
    } else if entries[0].0@ == key {
        Some(entries[0].1)
    } else {
        map_get(entries.drop_first(), key)
    }
}

fn lookup(entries: &Vec<(String, usize)>, key: &str) -> (r: Option<usize>)
    ensures
        r == map_get(entries@, key@),
{
    let mut i: usize = 0;
    proof {
        assert(entries@.subrange(0, entries@.len() as int) =~= entries@);
    }
    while i < entries.len()
        invariant
            i <= entries@.len(),
            map_get(entries@, key@) == map_get(entries@.subrange(i as int, entries@.len() as int), key@),
        decreases entries@.len() - i,
    {
        proof {
            let t = entries@.subrange(i as int, entries@.len() as int);
            assert(t.drop_first() =~= entries@.subrange(i + 1, entries@.len() as int));
            assert(t[0] == entries@[i as int]);
        }
        if str_eq(entries[i].0.as_str(), key) {
            return Some(entries[i].1);
        }
        i = i + 1;
    }
    None
}

/// The files whose line count grew, one violation each, in the current snapshot's order.
pub open spec fn loc_regressions(current: Seq<(String, usize)>, baseline: Seq<(String, usize)>) -> Seq<ViolationView>
    decreases current.len(),
{
    if current.len() == 0 {
        Seq::empty()
    } else {
        let rest = loc_regressions(current.drop_last(), baseline);
        let (path, cur) = current.last();
        match map_get(baseline, path@) {
            Some(base) => if cur > base {
                rest.push(
                    ViolationView {
                        code: "quality_delta.loc_regression"@,
                        message: "LOC grew: "@ + path@ + " baseline="@ + decimal_spec(base as nat) + " current="@
                            + decimal_spec(cur as nat),
                        path: Some(path@),
                        details: None,
                        tier: ViolationTier::Blocking,
                    },
                )
            } else {
                rest
            },
            None => rest,
        }
    }
}

pub open spec fn group_views(groups: Seq<Vec<String>>) -> Seq<Seq<Seq<char>>> {
    groups.map_values(|g: Vec<String>| views(g@))
}

/// The groups, in order, that `known` does not hold.
pub open spec fn new_groups(groups: Seq<Seq<Seq<char>>>, known: Seq<Seq<Seq<char>>>) -> Seq<Seq<Seq<char>>>
    decreases groups.len(),
{
    if groups.len() == 0 {
        Seq::empty()
    } else {
        let rest = new_groups(groups.drop_last(), known);
        if known.contains(groups.last()) {
            rest
        } else {
            rest.push(groups.last())
        }
    }
}

pub open spec fn blocking_if(cond: bool, code: Seq<char>, message: Seq<char>) -> Seq<ViolationView> {
    if cond {
        seq![plain_violation(code, message, ViolationTier::Blocking)]
    } else {
        Seq::empty()
    }
}

/// The surface regression: how many current items the baseline lacks, with
/// the first ten of them.
pub open spec fn surface_regression(added: Seq<Seq<char>>) -> Seq<ViolationView> {
    if added.len() == 0 {
        Seq::empty()
    } else {
        seq![
            ViolationView {
                code: "quality_delta.surface_regression"@,
                message: "new public surface items: "@ + decimal_spec(added.len()) + " added"@,
                path: None,
                details: Some(
                    seq![
                        ("added_count"@, DetailValueView::UInt(added.len() as u64)),
                        ("added_examples"@, DetailValueView::StrList(first_ten(added))),
                    ],
                ),
                tier: ViolationTier::Blocking,
            },
        ]
    }
}

/// The first ten items (all of them when there are fewer).
pub open spec fn first_ten(s: Seq<Seq<char>>) -> Seq<Seq<char>> {
    if s.len() <= 10 {
        s
    } else {
        s.take(10)
    }
}

pub open spec fn duplicates_regression(n: nat) -> Seq<ViolationView> {
    if n == 0 {
        Seq::empty()
    } else {
        seq![
            ViolationView {
                code: "quality_delta.duplicates_regression"@,
                message: "new duplicate groups: "@ + decimal_spec(n) + " added"@,
                path: None,
                details: Some(seq![("new_groups"@, DetailValueView::UInt(n as u64))]),
                tier: ViolationTier::Blocking,
            },
        ]
    }
}

/// The regressions of `current` against `baseline`, in order: trust, trust
/// minimum, coverage, the coverage minimum (handed in), weighted risk, lines
/// per file, public surface, duplicate groups, scope narrowing (handed in),
/// and the configuration hash.
pub open spec fn compare_spec(
    baseline: QualitySnapshot,
    current: QualitySnapshot,
    min_trust_score: i32,
    allow_trust_drop: bool,
    allow_coverage_drop: bool,
    max_weighted_risk_increase: i32,
    coverage_below_minimum: Seq<ViolationView>,
    scope_narrowed: Seq<ViolationView>,
) -> Seq<ViolationView> {
    let increase = current.weighted_risk - baseline.weighted_risk;
    blocking_if(
        !allow_trust_drop && current.trust_score < baseline.trust_score,
        "quality_delta.trust_regression"@,
        "trust score regressed: baseline="@ + signed_decimal_spec(baseline.trust_score as int) + ", current="@
            + signed_decimal_spec(current.trust_score as int),
    ) + blocking_if(
        current.trust_score < min_trust_score,
        "quality_delta.trust_below_minimum"@,
        "trust score "@ + signed_decimal_spec(current.trust_score as int) + " below minimum "@ + signed_decimal_spec(
            min_trust_score as int,
        ),
    ) + blocking_if(
        !allow_coverage_drop && current.coverage_covered < baseline.coverage_covered,
        "quality_delta.coverage_regression"@,
        "coverage regressed: baseline="@ + decimal_spec(baseline.coverage_covered as nat) + ", current="@
            + decimal_spec(current.coverage_covered as nat),
    ) + coverage_below_minimum + blocking_if(
        increase > max_weighted_risk_increase,
        "quality_delta.risk_profile_regression"@,
        "weighted risk increased: baseline="@ + signed_decimal_spec(baseline.weighted_risk as int) + ", current="@
            + signed_decimal_spec(current.weighted_risk as int) + ", increase="@ + signed_decimal_spec(increase)
            + ", max_allowed="@ + signed_decimal_spec(max_weighted_risk_increase as int),
    ) + loc_regressions(current.loc_per_file@, baseline.loc_per_file@) + surface_regression(
        retain_not_in(views(current.surface_items@), views(baseline.surface_items@)),
    ) + duplicates_regression(
        new_groups(group_views(current.duplicate_groups@), group_views(baseline.duplicate_groups@)).len(),
    ) + scope_narrowed + blocking_if(
        current.config_hash@ != baseline.config_hash@,
        "quality_delta.config_changed"@,
        "config hash changed: baseline="@ + baseline.config_hash@ + ", current="@ + current.config_hash@,
    )
}

fn blocking(code: &str, message: String) -> (v: Violation)
    ensures
        violation_view(v) == plain_violation(code@, message@, ViolationTier::Blocking),
{
    Violation::blocking(String::from_str(code), message, None, None)
}

fn push_view(out: &mut Vec<Violation>, v: Violation)
    ensures
        violation_views(final(out)@) == violation_views(old(out)@).push(violation_view(v)),
{
    out.push(v);
    proof {
        assert(violation_views(out@) =~= violation_views(old(out)@).push(violation_view(v)));
    }
}

fn append_views(out: &mut Vec<Violation>, more: Vec<Violation>)
    ensures
        violation_views(final(out)@) == violation_views(old(out)@) + violation_views(more@),
{
    let mut more = more;
    let ghost m = more@;
    out.append(&mut more);
    proof {
        assert(violation_views(out@) =~= violation_views(old(out)@) + violation_views(m));
    }
}

fn join3(a: &str, b: &str, c: &str) -> (s: String)
    ensures
        s@ == a@ + b@ + c@,
{
    let x = concat(a, b);
    concat(x.as_str(), c)
}

fn int_text(n: i64) -> (s: String)
    ensures
        s@ == signed_decimal_spec(n as int),
{
    i64_to_string(n)
}

fn usize_text(n: usize) -> (s: String)
    ensures
        s@ == decimal_spec(n as nat),
{
    u64_to_string(n as u64)
}

fn loc_violations(current: &Vec<(String, usize)>, baseline: &Vec<(String, usize)>) -> (out: Vec<Violation>)
    ensures
        violation_views(out@) == loc_regressions(current@, baseline@),
{
    let mut out: Vec<Violation> = Vec::new();
    let mut i: usize = 0;
    proof {
        assert(current@.take(0) =~= Seq::<(String, usize)>::empty());
        assert(violation_views(out@) =~= Seq::<ViolationView>::empty());
    }
    while i < current.len()
        invariant
            i <= current@.len(),
            violation_views(out@) == loc_regressions(current@.take(i as int), baseline@),
        decreases current@.len() - i,
    {
        proof {
            assert(current@.take(i + 1).drop_last() =~= current@.take(i as int));
            assert(current@.take(i + 1).last() == current@[i as int]);
        }
        let path = current[i].0.as_str();
        let cur = current[i].1;
        match lookup(baseline, path) {
            Some(base) => {
                if cur > base {
                    let a = join3("LOC grew: ", path, " baseline=");
                    let b = join3(a.as_str(), usize_text(base).as_str(), " current=");
                    let message = concat(b.as_str(), usize_text(cur).as_str());
                    let v = Violation {
                        code: String::from_str("quality_delta.loc_regression"),
                        message,
                        path: Some(String::from_str(path)),
                        details: None,
                        tier: ViolationTier::Blocking,
                    };
                    push_view(&mut out, v);
                }
            },
            None => {},
        }
        i = i + 1;
    }
    proof {
        assert(current@.take(current@.len() as int) =~= current@);
    }
    out
}

fn same_group(a: &Vec<String>, b: &Vec<String>) -> (r: bool)
    ensures
        r == (views(a@) == views(b@)),
{
    if a.len() != b.len() {
        proof {
            assert(views(a@).len() != views(b@).len());
        }
        return false;
    }
    let mut i: usize = 0;
    while i < a.len()
        invariant
            a@.len() == b@.len(),
            i <= a@.len(),
            forall|k: int| 0 <= k < i ==> views(a@)[k] == views(b@)[k],
        decreases a@.len() - i,
    {
        if !str_eq(a[i].as_str(), b[i].as_str()) {
            proof {
                assert(views(a@)[i as int] != views(b@)[i as int]);
            }
            return false;
        }
        i = i + 1;
    }
    proof {
        assert(views(a@) =~= views(b@));
    }
    true
}

fn count_new_groups(current: &Vec<Vec<String>>, baseline: &Vec<Vec<String>>) -> (n: usize)
    ensures
        n as nat == new_groups(group_views(current@), group_views(baseline@)).len(),
{
    let ghost cg = group_views(current@);
    let ghost bg = group_views(baseline@);
    let mut n: usize = 0;
    let mut i: usize = 0;
    proof {
        assert(cg.take(0) =~= Seq::<Seq<Seq<char>>>::empty());
    }
    while i < current.len()
        invariant
            cg == group_views(current@),
            bg == group_views(baseline@),
            i <= current@.len(),
            n as nat == new_groups(cg.take(i as int), bg).len(),
            n <= i,
        decreases current@.len() - i,
    {
        proof {
            assert(cg.take(i + 1).drop_last() =~= cg.take(i as int));
            assert(cg.take(i + 1).last() == views(current@[i as int]@));
        }
        let mut found = false;
        let mut j: usize = 0;
        while j < baseline.len()
            invariant
                j <= baseline@.len(),
                i < current@.len(),
                bg == group_views(baseline@),
                found == exists|k: int| 0 <= k < j && bg[k] == views(current@[i as int]@),
            decreases baseline@.len() - j,
        {
            if same_group(&current[i], &baseline[j]) {
                found = true;
            }
            proof {
                assert(bg[j as int] == views(baseline@[j as int]@));
            }
            j = j + 1;
        }
        proof {
            assert(found == bg.contains(views(current@[i as int]@)));
        }
        if !found {
            n = n + 1;
        }
        i = i + 1;
    }
    proof {
        assert(cg.take(current@.len() as int) =~= cg);
    }
    n
}

/// The violations that the caller computes from the coverage and scan
/// ratios (floating point): blocking, each with `code`.
pub open spec fn handed_in(vs: Seq<Violation>, code: Seq<char>) -> bool {
    forall|i: int| 0 <= i < vs.len() ==> (#[trigger] vs[i]).code@ == code && vs[i].tier == ViolationTier::Blocking
}

/// The regressions of `current` against `baseline` (see `compare_spec`), with
/// the coverage-minimum and scope-narrowing violations handed in.
pub fn compare(
    baseline: &QualitySnapshot,
    current: &QualitySnapshot,
    contract: &crate::config::QualityContractConfig,
    coverage_below_minimum: Vec<Violation>,
    scope_narrowed: Vec<Violation>,
) -> (out: Vec<Violation>)
    requires
        i32::MIN <= current.weighted_risk - baseline.weighted_risk <= i32::MAX,
        handed_in(coverage_below_minimum@, "quality_delta.coverage_below_minimum"@),
        handed_in(scope_narrowed@, "quality_delta.scope_narrowed"@),
    ensures
        violation_views(out@) == compare_spec(
            *baseline,
            *current,
            contract.quality.min_trust_score,
            contract.quality.allow_trust_drop,
            contract.quality.allow_coverage_drop,
            contract.quality.max_weighted_risk_increase,
            violation_views(coverage_below_minimum@),
            violation_views(scope_narrowed@),
        ),
{
    let q = &contract.quality;
    let mut out = head_regressions(baseline, current, q);
    append_views(&mut out, coverage_below_minimum);
    let increase: i32 = current.weighted_risk - baseline.weighted_risk;
    if increase > q.max_weighted_risk_increase {
        let a = join3("weighted risk increased: baseline=", int_text(baseline.weighted_risk as i64).as_str(), ", current=");
        let b = join3(a.as_str(), int_text(current.weighted_risk as i64).as_str(), ", increase=");
        let c = join3(b.as_str(), int_text(increase as i64).as_str(), ", max_allowed=");
        let m = concat(c.as_str(), int_text(q.max_weighted_risk_increase as i64).as_str());
        push_view(&mut out, blocking("quality_delta.risk_profile_regression", m));
    }
    append_views(&mut out, loc_violations(&current.loc_per_file, &baseline.loc_per_file));
    append_views(&mut out, surface_violations(&current.surface_items, &baseline.surface_items));
    append_views(&mut out, duplicate_violations(&current.duplicate_groups, &baseline.duplicate_groups));
    append_views(&mut out, scope_narrowed);
    if !str_eq(baseline.config_hash.as_str(), current.config_hash.as_str()) {
        let a = join3("config hash changed: baseline=", baseline.config_hash.as_str(), ", current=");
        let m = concat(a.as_str(), current.config_hash.as_str());
        push_view(&mut out, blocking("quality_delta.config_changed", m));
    }
    out
}

fn head_regressions(baseline: &QualitySnapshot, current: &QualitySnapshot, q: &crate::config::QualityThresholds) -> (out: Vec<Violation>)
    ensures
        violation_views(out@) == blocking_if(
            !q.allow_trust_drop && current.trust_score < baseline.trust_score,
            "quality_delta.trust_regression"@,
            "trust score regressed: baseline="@ + signed_decimal_spec(baseline.trust_score as int) + ", current="@
                + signed_decimal_spec(current.trust_score as int),
        ) + blocking_if(
            current.trust_score < q.min_trust_score,
            "quality_delta.trust_below_minimum"@,
            "trust score "@ + signed_decimal_spec(current.trust_score as int) + " below minimum "@ + signed_decimal_spec(
                q.min_trust_score as int,
            ),
        ) + blocking_if(
            !q.allow_coverage_drop && current.coverage_covered < baseline.coverage_covered,
            "quality_delta.coverage_regression"@,
            "coverage regressed: baseline="@ + decimal_spec(baseline.coverage_covered as nat) + ", current="@
                + decimal_spec(current.coverage_covered as nat),
        ),
{
    let mut out: Vec<Violation> = Vec::new();
    proof {
        assert(violation_views(out@) =~= Seq::<ViolationView>::empty());
    }
    if !q.allow_trust_drop && current.trust_score < baseline.trust_score {
        let a = join3("trust score regressed: baseline=", int_text(baseline.trust_score as i64).as_str(), ", current=");
        let m = concat(a.as_str(), int_text(current.trust_score as i64).as_str());
        push_view(&mut out, blocking("quality_delta.trust_regression", m));
    }
    let ghost s1 = violation_views(out@);
    if current.trust_score < q.min_trust_score {
        let a = join3("trust score ", int_text(current.trust_score as i64).as_str(), " below minimum ");
        let m = concat(a.as_str(), int_text(q.min_trust_score as i64).as_str());
        push_view(&mut out, blocking("quality_delta.trust_below_minimum", m));
    }
    let ghost s2 = violation_views(out@);
    if !q.allow_coverage_drop && current.coverage_covered < baseline.coverage_covered {
        let a = join3("coverage regressed: baseline=", usize_text(baseline.coverage_covered).as_str(), ", current=");
        let m = concat(a.as_str(), usize_text(current.coverage_covered).as_str());
        push_view(&mut out, blocking("quality_delta.coverage_regression", m));
    }
    proof {
        assert(violation_views(out@) =~= blocking_if(
            !q.allow_trust_drop && current.trust_score < baseline.trust_score,
            "quality_delta.trust_regression"@,
            "trust score regressed: baseline="@ + signed_decimal_spec(baseline.trust_score as int) + ", current="@
                + signed_decimal_spec(current.trust_score as int),
        ) + blocking_if(
            current.trust_score < q.min_trust_score,
            "quality_delta.trust_below_minimum"@,
            "trust score "@ + signed_decimal_spec(current.trust_score as int) + " below minimum "@ + signed_decimal_spec(
                q.min_trust_score as int,
            ),
        ) + blocking_if(
            !q.allow_coverage_drop && current.coverage_covered < baseline.coverage_covered,
            "quality_delta.coverage_regression"@,
            "coverage regressed: baseline="@ + decimal_spec(baseline.coverage_covered as nat) + ", current="@
                + decimal_spec(current.coverage_covered as nat),
        ));
    }
    out
}

fn surface_violations(current: &Vec<String>, baseline: &Vec<String>) -> (out: Vec<Violation>)
    ensures
        violation_views(out@) == surface_regression(retain_not_in(views(current@), views(baseline@))),
{
    let added = strings_not_in(current, baseline);
    let mut out: Vec<Violation> = Vec::new();
    if added.len() == 0 {
        proof {
            assert(violation_views(out@) =~= Seq::<ViolationView>::empty());
        }
        return out;
    }
    let n = added.len();
    let mut examples: Vec<String> = Vec::new();
    let mut k: usize = 0;
    while k < n && k < 10
        invariant
            k <= n,
            k <= 10,
            n == added@.len(),
            views(examples@) == views(added@).take(k as int),
        decreases n - k,
    {
        let ghost before = views(examples@);
        examples.push(added[k].clone());
        proof {
            assert(views(examples@) =~= before.push(added@[k as int]@));
            assert(views(added@).take(k + 1) =~= views(added@).take(k as int).push(added@[k as int]@));
        }
        k = k + 1;
    }
    proof {
        if n <= 10 {
            assert(views(added@).take(n as int) =~= views(added@));
        }
        assert(views(examples@) == first_ten(views(added@)));
    }
    let a = join3("new public surface items: ", usize_text(n).as_str(), " added");
    let mut fields: Vec<(String, DetailValue)> = Vec::new();
    fields.push((String::from_str("added_count"), DetailValue::UInt(n as u64)));
    fields.push((String::from_str("added_examples"), DetailValue::StrList(examples)));
    let v = Violation {
        code: String::from_str("quality_delta.surface_regression"),
        message: a,
        path: None,
        details: Some(Details { fields }),
        tier: ViolationTier::Blocking,
    };
    proof {
        assert(crate::api::details_view(v.details).unwrap() =~= seq![
            ("added_count"@, DetailValueView::UInt(n as u64)),
            ("added_examples"@, DetailValueView::StrList(first_ten(views(added@)))),
        ]);
    }
    push_view(&mut out, v);
    proof {
        assert(violation_views(out@) =~= surface_regression(retain_not_in(views(current@), views(baseline@))));
    }
    out
}

fn duplicate_violations(current: &Vec<Vec<String>>, baseline: &Vec<Vec<String>>) -> (out: Vec<Violation>)
    ensures
        violation_views(out@) == duplicates_regression(
            new_groups(group_views(current@), group_views(baseline@)).len(),
        ),
{
    let groups = count_new_groups(current, baseline);
    let mut out: Vec<Violation> = Vec::new();
    if groups == 0 {
        proof {
            assert(violation_views(out@) =~= Seq::<ViolationView>::empty());
        }
        return out;
    }
    let a = join3("new duplicate groups: ", usize_text(groups).as_str(), " added");
    let mut fields: Vec<(String, DetailValue)> = Vec::new();
    fields.push((String::from_str("new_groups"), DetailValue::UInt(groups as u64)));
    let v = Violation {
        code: String::from_str("quality_delta.duplicates_regression"),
        message: a,
        path: None,
        details: Some(Details { fields }),
        tier: ViolationTier::Blocking,
    };
    proof {
        assert(crate::api::details_view(v.details).unwrap() =~= seq![("new_groups"@, DetailValueView::UInt(groups as u64))]);
    }
    push_view(&mut out, v);
    proof {
        assert(violation_views(out@) =~= duplicates_regression(groups as nat));
    }
    out
}

/// The violations of the quality ratchet: in ratchet mode, and unless the
/// baseline is being rewritten, the regressions against the baseline, or,
/// without one, the trust minimum (and the coverage minimum, handed in).
pub fn quality_delta_violations(
    baseline: Option<&QualitySnapshot>,
    current: &QualitySnapshot,
    contract: &crate::config::QualityContractConfig,
    mode_ratchet: bool,
    write_baseline: bool,
    coverage_below_minimum: Vec<Violation>,
    scope_narrowed: Vec<Violation>,
) -> (out: Vec<Violation>)
    requires
        baseline matches Some(b) ==> i32::MIN <= current.weighted_risk - b.weighted_risk <= i32::MAX,
        handed_in(coverage_below_minimum@, "quality_delta.coverage_below_minimum"@),
        handed_in(scope_narrowed@, "quality_delta.scope_narrowed"@),
    ensures
        !(mode_ratchet && !write_baseline) ==> out@.len() == 0,
        mode_ratchet && !write_baseline && baseline is Some ==> violation_views(out@) == compare_spec(
            *baseline.unwrap(),
            *current,
            contract.quality.min_trust_score,
            contract.quality.allow_trust_drop,
            contract.quality.allow_coverage_drop,
            contract.quality.max_weighted_risk_increase,
            violation_views(coverage_below_minimum@),
            violation_views(scope_narrowed@),
        ),
        mode_ratchet && !write_baseline && baseline is None ==> violation_views(out@) == blocking_if(
            current.trust_score < contract.quality.min_trust_score,
            "quality_delta.trust_below_minimum"@,
            "trust score "@ + signed_decimal_spec(current.trust_score as int) + " below minimum "@ + signed_decimal_spec(
                contract.quality.min_trust_score as int,
            ),
        ) + violation_views(coverage_below_minimum@),
{
    let mut out: Vec<Violation> = Vec::new();
    if !(mode_ratchet && !write_baseline) {
        return out;
    }
    match baseline {
        Some(b) => compare(b, current, contract, coverage_below_minimum, scope_narrowed),
        None => {
            let min = contract.quality.min_trust_score;
            proof {
                assert(violation_views(out@) =~= Seq::<ViolationView>::empty());
            }
            if current.trust_score < min {
                let a = join3("trust score ", int_text(current.trust_score as i64).as_str(), " below minimum ");
                let m = concat(a.as_str(), int_text(min as i64).as_str());
                push_view(&mut out, blocking("quality_delta.trust_below_minimum", m));
            }
            append_views(&mut out, coverage_below_minimum);
            proof {
                assert(violation_views(out@) =~= blocking_if(
                    current.trust_score < contract.quality.min_trust_score,
                    "quality_delta.trust_below_minimum"@,
                    "trust score "@ + signed_decimal_spec(current.trust_score as int) + " below minimum "@
                        + signed_decimal_spec(contract.quality.min_trust_score as int),
                ) + violation_views(coverage_below_minimum@));
            }
            out
        },
    }
}

/// The bytes of the reason, without surrounding white space, as `str::len` counts them.
pub open spec fn reason_bytes(reason: Seq<char>) -> nat {
    (vstd::utf8::encode_utf8(crate::text::trim_spec(reason)).len() as usize) as nat
}

/// Rewriting the baseline in ratchet mode needs a maintenance record whose
/// reason has at least 20 bytes.
pub fn check_baseline_write(mode_ratchet: bool, maintenance: Option<&BaselineMaintenance>) -> (r: Result<(), String>)
    ensures
        !mode_ratchet ==> r is Ok,
        mode_ratchet && maintenance is None ==> r is Err && r->Err_0@
            == "write_baseline=true in ratchet mode requires baseline_maintenance"@,
        mode_ratchet && maintenance is Some && reason_bytes(maintenance.unwrap().reason@) < 20 ==> r is Err
            && r->Err_0@ == "baseline_maintenance.reason must be >=20 chars (got "@ + decimal_spec(
            reason_bytes(maintenance.unwrap().reason@),
        ) + ")"@,
        mode_ratchet && maintenance is Some && reason_bytes(maintenance.unwrap().reason@) >= 20 ==> r is Ok,
{
    if !mode_ratchet {
        return Ok(());
    }
    match maintenance {
        None => Err(String::from_str("write_baseline=true in ratchet mode requires baseline_maintenance")),
        Some(m) => {
            let t = crate::text::trim_str(m.reason.as_str());
            let n = t.as_str().len();
            if n < 20 {
                let a = join3("baseline_maintenance.reason must be >=20 chars (got ", usize_text(n).as_str(), ")");
                Err(a)
            } else {
                Ok(())
            }
        },
    }
}

/// The earlier per-check line-count baseline: lines per file, ordered by path.
#[derive(Debug, Clone)]
pub struct LocBaseline {
    pub files: Vec<(String, usize)>,
}

/// The earlier public-surface baseline.
#[derive(Debug, Clone)]
pub struct SurfaceBaseline {
    pub items: Vec<String>,
}

/// A group of files with the same content.
#[derive(Debug, Clone)]
pub struct DuplicateGroup {
    pub sha256: String,
    pub paths: Vec<String>,
}

/// The earlier duplicates baseline.
#[derive(Debug, Clone)]
pub struct DuplicatesBaseline {
    pub groups: Vec<DuplicateGroup>,
}

fn copy_pairs(v: &Vec<(String, usize)>) -> (out: Vec<(String, usize)>)
    ensures
        out@.map_values(|e: (String, usize)| (e.0@, e.1)) == v@.map_values(|e: (String, usize)| (e.0@, e.1)),
{
    let mut out: Vec<(String, usize)> = Vec::new();
    let mut i: usize = 0;
    while i < v.len()
        invariant
            i <= v@.len(),
            out@.map_values(|e: (String, usize)| (e.0@, e.1)) == v@.take(i as int).map_values(|e: (String, usize)| (e.0@, e.1)),
        decreases v@.len() - i,
    {
        let ghost before = out@.map_values(|e: (String, usize)| (e.0@, e.1));
        out.push((v[i].0.clone(), v[i].1));
        proof {
            assert(out@.map_values(|e: (String, usize)| (e.0@, e.1)) =~= before.push((v@[i as int].0@, v@[i as int].1)));
            assert(v@.take(i + 1).map_values(|e: (String, usize)| (e.0@, e.1)) =~= v@.take(i as int).map_values(|e: (String, usize)| (e.0@, e.1)).push((v@[i as int].0@, v@[i as int].1)));
        }
        i = i + 1;
    }
    proof {
        assert(v@.take(v@.len() as int) =~= v@);
    }
    out
}

/// A snapshot assembled from the earlier per-check baselines (those that
/// exist): lines per file, surface items, and duplicate groups with their
/// paths sorted; no findings, an empty file universe.
pub fn prior_baseline_snapshot(
    trust_score: i32,
    coverage_covered: usize,
    coverage_total: usize,
    weighted_risk: i32,
    config_hash: &str,
    written_at: String,
    loc: Option<&LocBaseline>,
    surface: Option<&SurfaceBaseline>,
    duplicates: Option<&DuplicatesBaseline>,
) -> (s: QualitySnapshot)
    ensures
        s.version == SNAPSHOT_VERSION,
        s.trust_score == trust_score,
        s.coverage_covered == coverage_covered,
        s.coverage_total == coverage_total,
        s.weighted_risk == weighted_risk,
        s.findings_total == 0,
        s.risk_by_severity@.len() == 0,
        loc is None ==> s.loc_per_file@.len() == 0,
        loc is Some ==> s.loc_per_file@.map_values(|e: (String, usize)| (e.0@, e.1)) == loc.unwrap().files@.map_values(
            |e: (String, usize)| (e.0@, e.1),
        ),
        surface is None ==> s.surface_items@.len() == 0,
        surface is Some ==> views(s.surface_items@) == views(surface.unwrap().items@),
        duplicates is None ==> s.duplicate_groups@.len() == 0,
        duplicates is Some ==> s.duplicate_groups@.len() == duplicates.unwrap().groups@.len() && forall|i: int|
            0 <= i < s.duplicate_groups@.len() ==> crate::order::sorted_seq(views((#[trigger] s.duplicate_groups@[i])@))
                && views(s.duplicate_groups@[i]@).to_multiset() == views(duplicates.unwrap().groups@[i].paths@).to_multiset(),
        s.file_universe.loc_universe == 0 && s.file_universe.loc_scanned == 0 && s.file_universe.surface_universe == 0
            && s.file_universe.surface_scanned == 0 && s.file_universe.boundary_universe == 0
            && s.file_universe.boundary_scanned == 0 && s.file_universe.duplicates_universe == 0
            && s.file_universe.duplicates_scanned == 0,
        s.written_at == written_at,
        s.written_by is None,
        s.config_hash@ == config_hash@,
{
    let loc_per_file = match loc {
        Some(b) => copy_pairs(&b.files),
        None => Vec::new(),
    };
    let surface_items = match surface {
        Some(b) => crate::csv::copy_strings(b.items.as_slice()),
        None => Vec::new(),
    };
    let mut groups: Vec<Vec<String>> = Vec::new();
    match duplicates {
        Some(b) => {
            let mut i: usize = 0;
            while i < b.groups.len()
                invariant
                    i <= b.groups@.len(),
                    groups@.len() == i,
                    forall|k: int|
                        0 <= k < i ==> crate::order::sorted_seq(views((#[trigger] groups@[k])@)) && views(groups@[k]@).to_multiset()
                            == views(b.groups@[k].paths@).to_multiset(),
                decreases b.groups@.len() - i,
            {
                let paths = crate::csv::copy_strings(b.groups[i].paths.as_slice());
                groups.push(crate::order::sort_strings(paths));
                i = i + 1;
            }
        },
        None => {},
    }
    QualitySnapshot {
        version: SNAPSHOT_VERSION,
        trust_score,
        coverage_covered,
        coverage_total,
        weighted_risk,
        findings_total: 0,
        risk_by_severity: Vec::new(),
        loc_per_file,
        surface_items,
        duplicate_groups: groups,
        file_universe: FileUniverse::default(),
        written_at,
        written_by: None,
        config_hash: String::from_str(config_hash),
    }
}

/// Each path occurs once among the entries.
pub open spec fn unique_keys(entries: Seq<(String, usize)>) -> bool {
    forall|i: int, j: int| 0 <= i < j < entries.len() ==> (#[trigger] entries[i]).0@ != (#[trigger] entries[j]).0@
}

proof fn lemma_map_get_unique(entries: Seq<(String, usize)>, k: int)
    requires
        unique_keys(entries),
        0 <= k < entries.len(),
    ensures
        map_get(entries, entries[k].0@) == Some(entries[k].1),
    decreases entries.len(),
{
    if k > 0 {
        let t = entries.drop_first();
        assert(entries[0].0@ != entries[k].0@);
        assert(unique_keys(t)) by {
            assert forall|i: int, j: int| 0 <= i < j < t.len() implies (#[trigger] t[i]).0@ != (#[trigger] t[j]).0@ by {
                assert(t[i] == entries[i + 1] && t[j] == entries[j + 1]);
            }
        }
        assert(t[k - 1] == entries[k]);
        lemma_map_get_unique(t, k - 1);
    }
}

proof fn lemma_loc_self(current: Seq<(String, usize)>, all: Seq<(String, usize)>, n: int)
    requires
        unique_keys(all),
        0 <= n <= all.len(),
        current == all.take(n),
    ensures
        loc_regressions(current, all) == Seq::<ViolationView>::empty(),
    decreases n,
{
    if n > 0 {
        assert(current.drop_last() =~= all.take(n - 1));
        lemma_loc_self(current.drop_last(), all, n - 1);
        lemma_map_get_unique(all, n - 1);
        assert(current.last() == all[n - 1]);
    }
}

proof fn lemma_retain_self(items: Seq<Seq<char>>, all: Seq<Seq<char>>, n: int)
    requires
        0 <= n <= all.len(),
        items == all.take(n),
    ensures
        retain_not_in(items, all) == Seq::<Seq<char>>::empty(),
    decreases n,
{
    if n > 0 {
        assert(items.drop_last() =~= all.take(n - 1));
        lemma_retain_self(items.drop_last(), all, n - 1);
        assert(items.last() == all[n - 1]);
        assert(all.contains(all[n - 1]));
    }
}

proof fn lemma_groups_self(groups: Seq<Seq<Seq<char>>>, all: Seq<Seq<Seq<char>>>, n: int)
    requires
        0 <= n <= all.len(),
        groups == all.take(n),
    ensures
        new_groups(groups, all) == Seq::<Seq<Seq<char>>>::empty(),
    decreases n,
{
    if n > 0 {
        assert(groups.drop_last() =~= all.take(n - 1));
        lemma_groups_self(groups.drop_last(), all, n - 1);
        assert(groups.last() == all[n - 1]);
        assert(all.contains(all[n - 1]));
    }
}

/// A snapshot compared with itself shows no regression: only the trust
/// minimum can still be reported (and what the caller hands in), given
/// distinct paths and a risk allowance that is not negative.
pub proof fn law_snapshot_has_no_regression_against_itself(
    s: QualitySnapshot,
    min_trust_score: i32,
    allow_trust_drop: bool,
    allow_coverage_drop: bool,
    max_weighted_risk_increase: i32,
)
    requires
        unique_keys(s.loc_per_file@),
        max_weighted_risk_increase >= 0,
    ensures
        compare_spec(
            s,
            s,
            min_trust_score,
            allow_trust_drop,
            allow_coverage_drop,
            max_weighted_risk_increase,
            Seq::empty(),
            Seq::empty(),
        ) == blocking_if(
            s.trust_score < min_trust_score,
            "quality_delta.trust_below_minimum"@,
            "trust score "@ + signed_decimal_spec(s.trust_score as int) + " below minimum "@ + signed_decimal_spec(
                min_trust_score as int,
            ),
        ),
{
    assert(s.loc_per_file@.take(s.loc_per_file@.len() as int) =~= s.loc_per_file@);
    lemma_loc_self(s.loc_per_file@, s.loc_per_file@, s.loc_per_file@.len() as int);
    let items = views(s.surface_items@);
    assert(items.take(items.len() as int) =~= items);
    lemma_retain_self(items, items, items.len() as int);
    let groups = group_views(s.duplicate_groups@);
    assert(groups.take(groups.len() as int) =~= groups);
    lemma_groups_self(groups, groups, groups.len() as int);
    assert(compare_spec(
        s,
        s,
        min_trust_score,
        allow_trust_drop,
        allow_coverage_drop,
        max_weighted_risk_increase,
        Seq::empty(),
        Seq::empty(),
    ) =~= blocking_if(
        s.trust_score < min_trust_score,
        "quality_delta.trust_below_minimum"@,
        "trust score "@ + signed_decimal_spec(s.trust_score as int) + " below minimum "@ + signed_decimal_spec(
            min_trust_score as int,
        ),
    ));
}

} // verus!
