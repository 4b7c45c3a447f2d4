//! Duplicate files: the selected files, in path order, grouped by the SHA-256
//! of their bytes; groups of two or more files that are not all allowlisted
//! are reported.

use crate::api::{DetailValue, DetailValueView, Details, Violation, ViolationTier, ViolationView, violation_views};
use crate::boundary::{boundary_selects, build_globset, globs_or, globset_error};
use crate::config::DuplicatesCheckConfigV2;
use crate::csv::views;
use crate::fingerprint::{hex_spec, sha256_digest};
use crate::order::sorted_distinct;
use crate::patterns::any_glob_matches;
use crate::text::{concat, decimal_spec, u64_to_string};
use vstd::prelude::*;

verus! {

/// One file of the repository walk: its path, its size or the error of
/// reading its metadata, and its bytes or the error of reading them.
pub struct FileProbe {
    pub rel: String,
    pub size: Result<u64, String>,
    pub bytes: Result<Vec<u8>, String>,
}

/// The outcome of the duplicates check.
pub struct DuplicatesCheckResult {
    pub violations: Vec<Violation>,
    pub files_scanned: usize,
    pub files_universe: usize,
    pub groups_total: usize,
    pub duplicate_files_total: usize,
    /// The groups by hash, in hash order, each with its paths in order.
    pub groups: Vec<(String, Vec<String>)>,
}

pub open spec fn dup_includes(cfg: DuplicatesCheckConfigV2) -> Seq<Seq<char>> {
    globs_or(views(cfg.include_globs@), seq!["**/*"@])
}

pub open spec fn dup_excludes(cfg: DuplicatesCheckConfigV2) -> Seq<Seq<char>> {
    globs_or(views(cfg.exclude_globs@), seq!["**/target/**"@, ".git/**"@])
}

/// The selected paths of the walk, in walk order.
pub open spec fn selected_paths(probes: Seq<FileProbe>, inc: Seq<Seq<char>>, exc: Seq<Seq<char>>) -> Seq<Seq<char>>
    decreases probes.len(),
{
    if probes.len() == 0 {
        Seq::empty()
    } else {
        selected_paths(probes.drop_last(), inc, exc) + if boundary_selects(inc, exc, probes.last().rel@) {
            seq![probes.last().rel@]
        } else {
            Seq::empty()
        }
    }
}

/// Some probe of the walk is for `rel`.
pub open spec fn has_probe(probes: Seq<FileProbe>, rel: Seq<char>) -> bool {
    exists|j: int| 0 <= j < probes.len() && probes[j].rel@ == rel
}

/// The first probe of the walk for `rel`.
#[verifier::opaque]
pub open spec fn probe_of(probes: Seq<FileProbe>, rel: Seq<char>) -> FileProbe {
    let i = choose|i: int| 0 <= i < probes.len() && probes[i].rel@ == rel && forall|j: int| 0 <= j < i ==> probes[j].rel@ != rel;
    probes[i]
}

/// What one path gives: a failure, nothing (too large), or its hash.
pub enum PathOutcome {
    Failure(ViolationView),
    Skipped,
    Hashed(Seq<char>),
}

pub open spec fn path_outcome(p: FileProbe, max_bytes: usize) -> PathOutcome {
    match p.size {
        Err(e) => PathOutcome::Failure(
            ViolationView {
                code: "duplicates.stat_failed"@,
                message: "failed to stat file for duplicates scan: "@ + e@,
                path: Some(p.rel@),
                details: None,
                tier: ViolationTier::Blocking,
            },
        ),
        Ok(len) => if len > max_bytes as u64 {
            PathOutcome::Skipped
        } else {
            match p.bytes {
                Err(e) => PathOutcome::Failure(
                    ViolationView {
                        code: "duplicates.read_failed"@,
                        message: "failed to read file for duplicates scan: "@ + e@,
                        path: Some(p.rel@),
                        details: None,
                        tier: ViolationTier::Blocking,
                    },
                ),
                Ok(b) => PathOutcome::Hashed(hex_spec(sha256_digest(b@))),
            }
        },
    }
}

/// Scanning the paths in order: the failures, and the (hash, path) of each
/// file hashed.
pub open spec fn dup_scan(paths: Seq<Seq<char>>, probes: Seq<FileProbe>, max_bytes: usize) -> (
    Seq<ViolationView>,
    Seq<(Seq<char>, Seq<char>)>,
)
    decreases paths.len(),
{
    if paths.len() == 0 {
        (Seq::empty(), Seq::empty())
    } else {
        let prev = dup_scan(paths.drop_last(), probes, max_bytes);
        match path_outcome(probe_of(probes, paths.last()), max_bytes) {
            PathOutcome::Failure(v) => (prev.0.push(v), prev.1),
            PathOutcome::Skipped => prev,
            PathOutcome::Hashed(h) => (prev.0, prev.1.push((h, paths.last()))),
        }
    }
}

/// The paths hashed to `key`, in order.
pub open spec fn paths_with_hash(records: Seq<(Seq<char>, Seq<char>)>, key: Seq<char>) -> Seq<Seq<char>>
    decreases records.len(),
{
    if records.len() == 0 {
        Seq::empty()
    } else {
        paths_with_hash(records.drop_last(), key) + if records.last().0 == key {
            seq![records.last().1]
        } else {
            Seq::empty()
        }
    }
}

/// Every path matches some allowlist glob.
pub open spec fn all_allowlisted(allowlist: Seq<Seq<char>>, paths: Seq<Seq<char>>) -> bool {
    forall|i: int| 0 <= i < paths.len() ==> any_glob_matches(allowlist, #[trigger] paths[i])
}

/// The groups kept, key by key: two or more paths, not all allowlisted.
pub open spec fn kept_groups(
    keys: Seq<Seq<char>>,
    records: Seq<(Seq<char>, Seq<char>)>,
    allowlist: Option<Seq<Seq<char>>>,
) -> Seq<(Seq<char>, Seq<Seq<char>>)>
    decreases keys.len(),
{
    if keys.len() == 0 {
        Seq::empty()
    } else {
        let k = keys.last();
        let paths = paths_with_hash(records, k);
        kept_groups(keys.drop_last(), records, allowlist) + if paths.len() >= 2 && !(match allowlist {
            Some(a) => all_allowlisted(a, paths),
            None => false,
        }) {
            seq![(k, paths)]
        } else {
            Seq::empty()
        }
    }
}

/// The number of paths over the groups.
pub open spec fn group_files(groups: Seq<(Seq<char>, Seq<Seq<char>>)>) -> nat
    decreases groups.len(),
{
    if groups.len() == 0 {
        0
    } else {
        group_files(groups.drop_last()) + groups.last().1.len()
    }
}

/// The groups with each hash cut to its first 12 characters.
pub open spec fn short_groups(groups: Seq<(Seq<char>, Seq<Seq<char>>)>) -> Seq<(Seq<char>, Seq<Seq<char>>)> {
    groups.map_values(|g: (Seq<char>, Seq<Seq<char>>)| (if g.0.len() > 12 { g.0.take(12) } else { g.0 }, g.1))
}

/// The first five groups as examples: a 12-character hash prefix and the paths.
pub open spec fn examples(groups: Seq<(Seq<char>, Seq<Seq<char>>)>) -> Seq<(Seq<char>, Seq<Seq<char>>)> {
    short_groups(if groups.len() > 5 { groups.take(5) } else { groups })
}

/// The hashes of the records, in order.
pub open spec fn record_hashes(records: Seq<(Seq<char>, Seq<char>)>) -> Seq<Seq<char>> {
    records.map_values(|r: (Seq<char>, Seq<char>)| r.0)
}

/// The duplicates check: the include, exclude and allowlist globs built (the
/// check's own include and exclude globs, or `**/*` and `**/target/**`,
/// `.git/**`); the selected paths counted, then taken in ascending order,
/// each once, with its first probe; files over the size limit passed over;
/// the rest hashed and grouped. An observation sums the groups up where
/// there are any, after the stat and read failures.
pub open spec fn duplicates_spec(cfg: DuplicatesCheckConfigV2, probes: Seq<FileProbe>) -> Result<
    (nat, nat, Seq<(Seq<char>, Seq<Seq<char>>)>, Seq<ViolationView>),
    Seq<char>,
> {
    let inc = dup_includes(cfg);
    let exc = dup_excludes(cfg);
    let allow = views(cfg.allowlist_globs@);
    match globset_error(inc) {
        Some(e) => Err(e),
        None => match globset_error(exc) {
            Some(e) => Err(e),
            None => if allow.len() > 0 && globset_error(allow) is Some {
                Err(globset_error(allow).unwrap())
            } else {
                let selected = selected_paths(probes, inc, exc);
                let scan = dup_scan(sorted_distinct(selected), probes, cfg.max_file_bytes);
                let groups = kept_groups(
                    sorted_distinct(record_hashes(scan.1)),
                    scan.1,
                    if allow.len() > 0 { Some(allow) } else { None },
                );
                let found = if groups.len() > 0 {
                    seq![
                        ViolationView {
                            code: "duplicates.found"@,
                            message: "duplicate files found (groups="@ + decimal_spec(groups.len()) + ", files="@
                                + decimal_spec(group_files(groups)) + ")"@,
                            path: Some(cfg.baseline_path@),
                            details: Some(seq![
                                ("groups"@, DetailValueView::UInt(groups.len() as u64)),
                                ("files"@, DetailValueView::UWide(group_files(groups) as u128)),
                                ("examples"@, DetailValueView::Groups(examples(groups))),
                            ]),
                            tier: ViolationTier::Observation,
                        },
                    ]
                } else {
                    Seq::empty()
                };
                Ok((scan.1.len(), selected.len(), groups, scan.0 + found))
            },
        },
    }
}

/// Each selected path is the path of some probe.
proof fn lemma_selected_from(probes: Seq<FileProbe>, inc: Seq<Seq<char>>, exc: Seq<Seq<char>>)
    ensures
        forall|k: int| 0 <= k < selected_paths(probes, inc, exc).len() ==> exists|j: int|
            0 <= j < probes.len() && probes[j].rel@ == #[trigger] selected_paths(probes, inc, exc)[k],
    decreases probes.len(),
{
    if probes.len() > 0 {
        let prev = selected_paths(probes.drop_last(), inc, exc);
        lemma_selected_from(probes.drop_last(), inc, exc);
        assert forall|k: int| 0 <= k < selected_paths(probes, inc, exc).len() implies exists|j: int|
            0 <= j < probes.len() && probes[j].rel@ == #[trigger] selected_paths(probes, inc, exc)[k] by {
            if k < prev.len() {
                assert(selected_paths(probes, inc, exc)[k] == prev[k]);
                let j = choose|j: int| 0 <= j < probes.drop_last().len() && probes.drop_last()[j].rel@ == prev[k];
                assert(probes[j] == probes.drop_last()[j]);
            } else {
                assert(selected_paths(probes, inc, exc)[k] == probes.last().rel@);
                assert(probes[probes.len() - 1] == probes.last());
            }
        }
    }
}

/// The first probe for `rel`, where there is one at index `j` and none before.
proof fn lemma_probe_of(probes: Seq<FileProbe>, rel: Seq<char>, j: int)
    requires
        0 <= j < probes.len(),
        probes[j].rel@ == rel,
        forall|x: int| 0 <= x < j ==> probes[x].rel@ != rel,
    ensures
        probe_of(probes, rel) == probes[j],
{
    reveal(probe_of);
    let i = choose|i: int| 0 <= i < probes.len() && probes[i].rel@ == rel && forall|y: int| 0 <= y < i ==> probes[y].rel@ != rel;
    assert(0 <= i < probes.len() && probes[i].rel@ == rel && forall|y: int| 0 <= y < i ==> probes[y].rel@ != rel);
    if i < j {
        assert(probes[i].rel@ != rel);
    }
    if j < i {
        assert(probes[j].rel@ != rel);
    }
}

pub open spec fn hash_count_sum(keys: Seq<Seq<char>>, records: Seq<(Seq<char>, Seq<char>)>) -> nat
    decreases keys.len(),
{
    if keys.len() == 0 {
        0
    } else {
        hash_count_sum(keys.drop_last(), records) + paths_with_hash(records, keys.last()).len()
    }
}

proof fn lemma_kept_le_sum(keys: Seq<Seq<char>>, records: Seq<(Seq<char>, Seq<char>)>, allow: Option<Seq<Seq<char>>>)
    ensures
        group_files(kept_groups(keys, records, allow)) <= hash_count_sum(keys, records),
    decreases keys.len(),
{
    if keys.len() > 0 {
        lemma_kept_le_sum(keys.drop_last(), records, allow);
        let prev = kept_groups(keys.drop_last(), records, allow);
        let k = keys.last();
        let paths = paths_with_hash(records, k);
        if paths.len() >= 2 && !(match allow {
            Some(a) => all_allowlisted(a, paths),
            None => false,
        }) {
            assert(kept_groups(keys, records, allow) == prev.push((k, paths)));
            assert(prev.push((k, paths)).drop_last() =~= prev);
        } else {
            assert(kept_groups(keys, records, allow) =~= prev);
        }
    }
}

pub open spec fn key_hits(keys: Seq<Seq<char>>, h: Seq<char>) -> nat
    decreases keys.len(),
{
    if keys.len() == 0 {
        0
    } else {
        key_hits(keys.drop_last(), h) + if keys.last() == h { 1nat } else { 0nat }
    }
}

proof fn lemma_sum_push(keys: Seq<Seq<char>>, records: Seq<(Seq<char>, Seq<char>)>, x: (Seq<char>, Seq<char>))
    ensures
        hash_count_sum(keys, records.push(x)) == hash_count_sum(keys, records) + key_hits(keys, x.0),
    decreases keys.len(),
{
    if keys.len() > 0 {
        lemma_sum_push(keys.drop_last(), records, x);
        assert(records.push(x).drop_last() =~= records);
    }
}

proof fn lemma_key_hits_distinct(keys: Seq<Seq<char>>, h: Seq<char>)
    requires
        keys.no_duplicates(),
    ensures
        key_hits(keys, h) <= 1,
        !keys.contains(h) ==> key_hits(keys, h) == 0,
    decreases keys.len(),
{
    if keys.len() > 0 {
        let d = keys.drop_last();
        assert(d.no_duplicates()) by {
            assert forall|i: int, j: int| 0 <= i < d.len() && 0 <= j < d.len() && i != j implies d[i] != d[j] by {
                assert(d[i] == keys[i] && d[j] == keys[j]);
            }
        }
        lemma_key_hits_distinct(d, h);
        if keys.last() == h {
            if d.contains(h) {
                let i = choose|i: int| 0 <= i < d.len() && d[i] == h;
                assert(keys[i] == keys[keys.len() - 1]);
            }
        } else {
            if !keys.contains(h) {
                assert(!d.contains(h)) by {
                    if d.contains(h) {
                        let i = choose|i: int| 0 <= i < d.len() && d[i] == h;
                        assert(keys[i] == h);
                    }
                }
            }
        }
    }
}

proof fn lemma_sum_le_records(keys: Seq<Seq<char>>, records: Seq<(Seq<char>, Seq<char>)>)
    requires
        keys.no_duplicates(),
    ensures
        hash_count_sum(keys, records) <= records.len(),
    decreases records.len(),
{
    if records.len() == 0 {
        lemma_sum_empty(keys, records);
    } else {
        lemma_sum_le_records(keys, records.drop_last());
        lemma_sum_push(keys, records.drop_last(), records.last());
        lemma_key_hits_distinct(keys, records.last().0);
        assert(records.drop_last().push(records.last()) =~= records);
    }
}

proof fn lemma_sum_empty(keys: Seq<Seq<char>>, records: Seq<(Seq<char>, Seq<char>)>)
    requires
        records.len() == 0,
    ensures
        hash_count_sum(keys, records) == 0,
    decreases keys.len(),
{
    if keys.len() > 0 {
        lemma_sum_empty(keys.drop_last(), records);
    }
}

proof fn lemma_sorted_no_duplicates(s: Seq<Seq<char>>)
    requires
        crate::order::strictly_sorted(s),
    ensures
        s.no_duplicates(),
{
    assert forall|i: int, j: int| 0 <= i < s.len() && 0 <= j < s.len() && i != j implies s[i] != s[j] by {
        if i < j {
            crate::order::lemma_strictly_sorted_pairs(s, i, j);
        } else {
            crate::order::lemma_strictly_sorted_pairs(s, j, i);
        }
        crate::order::lemma_lex_total(s[i], s[j]);
    }
}

pub open spec fn record_views(v: Seq<(String, String)>) -> Seq<(Seq<char>, Seq<char>)> {
    v.map_values(|r: (String, String)| (r.0@, r.1@))
}

pub open spec fn group_views(v: Seq<(String, Vec<String>)>) -> Seq<(Seq<char>, Seq<Seq<char>>)> {
    v.map_values(|g: (String, Vec<String>)| (g.0@, views(g.1@)))
}

fn first_probe(probes: &Vec<FileProbe>, rel: &String) -> (j: usize)
    requires
        has_probe(probes@, rel@),
    ensures
        j < probes@.len(),
        probe_of(probes@, rel@) == probes@[j as int],
{
    let mut j: usize = 0;
    while j < probes.len()
        invariant
            j <= probes@.len(),
            forall|x: int| 0 <= x < j ==> probes@[x].rel@ != rel@,
            has_probe(probes@, rel@),
        decreases probes@.len() - j,
    {
        if crate::text::str_eq(probes[j].rel.as_str(), rel.as_str()) {
            proof {
                lemma_probe_of(probes@, rel@, j as int);
            }
            return j;
        }
        j = j + 1;
    }
    proof {
        let w = choose|w: int| 0 <= w < probes@.len() && probes@[w].rel@ == rel@;
        assert(probes@[w].rel@ != rel@);
    }
    0
}

fn group_paths(records: &Vec<(String, String)>, key: &String) -> (out: Vec<String>)
    ensures
        views(out@) == paths_with_hash(record_views(records@), key@),
{
    let ghost rv = record_views(records@);
    let mut out: Vec<String> = Vec::new();
    let mut i: usize = 0;
    proof {
        assert(rv.take(0) =~= Seq::<(Seq<char>, Seq<char>)>::empty());
        assert(views(out@) =~= Seq::<Seq<char>>::empty());
    }
    while i < records.len()
        invariant
            rv == record_views(records@),
            i <= rv.len(),
            views(out@) == paths_with_hash(rv.take(i as int), key@),
        decreases rv.len() - i,
    {
        proof {
            assert(rv.take(i + 1).drop_last() =~= rv.take(i as int));
            assert(rv.take(i + 1).last() == (records@[i as int].0@, records@[i as int].1@));
        }
        let ghost before = views(out@);
        if crate::text::str_eq(records[i].0.as_str(), key.as_str()) {
            out.push(records[i].1.clone());
            proof {
                assert(views(out@) =~= before + seq![records@[i as int].1@]);
            }
        } else {
            proof {
                assert(views(out@) =~= before + Seq::<Seq<char>>::empty());
            }
        }
        i = i + 1;
    }
    proof {
        assert(rv.take(rv.len() as int) =~= rv);
    }
    out
}

fn all_match(set: &crate::patterns::CompiledGlobSet, paths: &Vec<String>) -> (b: bool)
    ensures
        b == all_allowlisted(set.patterns_of(), views(paths@)),
{
    let mut i: usize = 0;
    while i < paths.len()
        invariant
            i <= paths@.len(),
            forall|k: int| 0 <= k < i ==> any_glob_matches(set.patterns_of(), #[trigger] views(paths@)[k]),
        decreases paths@.len() - i,
    {
        if !crate::patterns::globset_matches(set, paths[i].as_str()) {
            proof {
                assert(views(paths@)[i as int] == paths@[i as int]@);
            }
            return false;
        }
        proof {
            assert(views(paths@)[i as int] == paths@[i as int]@);
        }
        i = i + 1;
    }
    true
}

fn prefix12(s: &String) -> (out: String)
    ensures
        out@ == (if s@.len() > 12 { s@.take(12) } else { s@ }),
{
    let cs = crate::text::chars_of(s.as_str());
    if cs.len() > 12 {
        let p = crate::text::slice_vec(cs.as_slice(), 0, 12);
        proof {
            assert(p@ =~= s@.take(12));
        }
        crate::text::string_of(p.as_slice())
    } else {
        s.clone()
    }
}

fn select_paths(
    includes: &crate::patterns::CompiledGlobSet,
    excludes: &crate::patterns::CompiledGlobSet,
    probes: &Vec<FileProbe>,
) -> (selected: Vec<String>)
    ensures
        views(selected@) == selected_paths(probes@, includes.patterns_of(), excludes.patterns_of()),
        selected@.len() <= probes@.len(),
{
    let ghost inc = includes.patterns_of();
    let ghost exc = excludes.patterns_of();
    let mut selected: Vec<String> = Vec::new();
    let mut i: usize = 0;
    proof {
        assert(probes@.take(0) =~= Seq::<FileProbe>::empty());
        assert(views(selected@) =~= Seq::<Seq<char>>::empty());
    }
    while i < probes.len()
        invariant
            includes.patterns_of() == inc,
            excludes.patterns_of() == exc,
            i <= probes@.len(),
            selected@.len() <= i,
            views(selected@) == selected_paths(probes@.take(i as int), inc, exc),
        decreases probes@.len() - i,
    {
        proof {
            assert(probes@.take(i + 1).drop_last() =~= probes@.take(i as int));
            assert(probes@.take(i + 1).last() == probes@[i as int]);
        }
        let ghost before = views(selected@);
        let rel = &probes[i].rel;
        if !crate::patterns::globset_matches(excludes, rel.as_str()) && crate::patterns::globset_matches(
            includes,
            rel.as_str(),
        ) {
            selected.push(rel.clone());
            proof {
                assert(views(selected@) =~= before + seq![rel@]);
            }
        } else {
            proof {
                assert(views(selected@) =~= before + Seq::<Seq<char>>::empty());
            }
        }
        i = i + 1;
    }
    proof {
        assert(probes@.take(probes@.len() as int) =~= probes@);
    }
    selected
}

fn probe_outcome(p: &FileProbe, max_bytes: usize) -> (r: (Option<Violation>, Option<String>))
    ensures
        match path_outcome(*p, max_bytes) {
            PathOutcome::Failure(v) => r.1 is None && (r.0 matches Some(x) && crate::api::violation_view(x) == v),
            PathOutcome::Skipped => r.0 is None && r.1 is None,
            PathOutcome::Hashed(h) => r.0 is None && (r.1 matches Some(x) && x@ == h),
        },
{
    match &p.size {
        Err(e) => {
            let m = concat("failed to stat file for duplicates scan: ", e.as_str());
            (Some(Violation::blocking(String::from_str("duplicates.stat_failed"), m, Some(p.rel.clone()), None)), None)
        },
        Ok(len) => {
            if *len > max_bytes as u64 {
                (None, None)
            } else {
                match &p.bytes {
                    Err(e) => {
                        let m = concat("failed to read file for duplicates scan: ", e.as_str());
                        (
                            Some(Violation::blocking(String::from_str("duplicates.read_failed"), m, Some(p.rel.clone()), None)),
                            None,
                        )
                    },
                    Ok(b) => (None, Some(crate::fingerprint::sha256_hex_bytes(b.as_slice()))),
                }
            }
        },
    }
}

fn scan_paths(paths: &Vec<String>, probes: &Vec<FileProbe>, max_bytes: usize) -> (r: (Vec<Violation>, Vec<(String, String)>))
    requires
        forall|x: int| 0 <= x < paths@.len() ==> has_probe(probes@, #[trigger] views(paths@)[x]),
    ensures
        (violation_views(r.0@), record_views(r.1@)) == dup_scan(views(paths@), probes@, max_bytes),
        r.1@.len() <= paths@.len(),
{
    let ghost pv = views(paths@);
    let mut violations: Vec<Violation> = Vec::new();
    let mut records: Vec<(String, String)> = Vec::new();
    let mut k: usize = 0;
    proof {
        assert(pv.take(0) =~= Seq::<Seq<char>>::empty());
        assert(violation_views(violations@) =~= Seq::<ViolationView>::empty());
        assert(record_views(records@) =~= Seq::<(Seq<char>, Seq<char>)>::empty());
    }
    while k < paths.len()
        invariant
            pv == views(paths@),
            forall|x: int| 0 <= x < pv.len() ==> has_probe(probes@, #[trigger] pv[x]),
            k <= pv.len(),
            records@.len() <= k,
            violation_views(violations@) == dup_scan(pv.take(k as int), probes@, max_bytes).0,
            record_views(records@) == dup_scan(pv.take(k as int), probes@, max_bytes).1,
        decreases pv.len() - k,
    {
        proof {
            assert(pv.take(k + 1).drop_last() =~= pv.take(k as int));
            assert(pv.take(k + 1).last() == paths@[k as int]@);
            assert(has_probe(probes@, pv[k as int]));
        }
        let j = first_probe(probes, &paths[k]);
        let (v, h) = probe_outcome(&probes[j], max_bytes);
        let ghost prev = dup_scan(pv.take(k as int), probes@, max_bytes);
        let ghost next = dup_scan(pv.take(k + 1), probes@, max_bytes);
        proof {
            assert(next == match path_outcome(probe_of(probes@, pv[k as int]), max_bytes) {
                PathOutcome::Failure(x) => (prev.0.push(x), prev.1),
                PathOutcome::Skipped => prev,
                PathOutcome::Hashed(hh) => (prev.0, prev.1.push((hh, pv[k as int]))),
            });
        }
        let ghost vb = violation_views(violations@);
        let ghost rb = record_views(records@);
        match v {
            Some(x) => {
                violations.push(x);
                proof {
                    assert(violation_views(violations@) =~= vb.push(crate::api::violation_view(x)));
                }
            },
            None => {},
        }
        match h {
            Some(hash) => {
                let ghost hv = hash@;
                records.push((hash, paths[k].clone()));
                proof {
                    assert(record_views(records@) =~= rb.push((hv, paths@[k as int]@)));
                }
            },
            None => {},
        }
        k = k + 1;
    }
    proof {
        assert(pv.take(pv.len() as int) =~= pv);
    }
    (violations, records)
}

fn hashes_of(records: &Vec<(String, String)>) -> (out: Vec<String>)
    ensures
        views(out@) == record_hashes(record_views(records@)),
{
    let mut out: Vec<String> = Vec::new();
    let mut x: usize = 0;
    while x < records.len()
        invariant
            x <= records@.len(),
            out@.len() == x,
            forall|k: int| 0 <= k < x ==> (#[trigger] out@[k])@ == records@[k].0@,
        decreases records@.len() - x,
    {
        out.push(records[x].0.clone());
        x = x + 1;
    }
    proof {
        assert(views(out@) =~= record_hashes(record_views(records@)));
    }
    out
}

fn keep_groups(
    records: &Vec<(String, String)>,
    keys: &Vec<String>,
    allowlist: &Option<crate::patterns::CompiledGlobSet>,
    allow: Ghost<Option<Seq<Seq<char>>>>,
) -> (r: (Vec<(String, Vec<String>)>, usize))
    requires
        crate::order::strictly_sorted(views(keys@)),
        match allowlist {
            Some(a) => allow@ == Some(a.patterns_of()),
            None => allow@ is None,
        },
    ensures
        group_views(r.0@) == kept_groups(views(keys@), record_views(records@), allow@),
        r.1 == group_files(group_views(r.0@)),
{
    let ghost kv = views(keys@);
    let ghost rv = record_views(records@);
    let nrec = records.len();
    let mut groups: Vec<(String, Vec<String>)> = Vec::new();
    let mut total: usize = 0;
    let mut g: usize = 0;
    proof {
        lemma_sorted_no_duplicates(kv);
        lemma_sum_le_records(kv, rv);
        assert(kv.take(0) =~= Seq::<Seq<char>>::empty());
        assert(group_views(groups@) =~= Seq::<(Seq<char>, Seq<Seq<char>>)>::empty());
    }
    while g < keys.len()
        invariant
            kv == views(keys@),
            rv == record_views(records@),
            rv.len() == records@.len(),
            rv.len() == nrec,
            hash_count_sum(kv, rv) <= rv.len(),
            match allowlist {
                Some(a) => allow@ == Some(a.patterns_of()),
                None => allow@ is None,
            },
            g <= kv.len(),
            group_views(groups@) == kept_groups(kv.take(g as int), rv, allow@),
            total == group_files(group_views(groups@)),
        decreases kv.len() - g,
    {
        proof {
            assert(kv.take(g + 1).drop_last() =~= kv.take(g as int));
            assert(kv.take(g + 1).last() == keys@[g as int]@);
            lemma_kept_le_sum(kv.take(g + 1), rv, allow@);
            lemma_sum_prefix_le(kv, rv, g + 1);
        }
        let key = &keys[g];
        let ps = group_paths(records, key);
        let fully_allowlisted = match allowlist {
            Some(a) => all_match(a, &ps),
            None => false,
        };
        let ghost before = group_views(groups@);
        if ps.len() >= 2 && !fully_allowlisted {
            let n = ps.len();
            groups.push((key.clone(), ps));
            proof {
                assert(group_views(groups@) =~= before.push((key@, paths_with_hash(rv, key@))));
                assert(before.push((key@, paths_with_hash(rv, key@))).drop_last() =~= before);
                assert(group_views(groups@) == kept_groups(kv.take(g + 1), rv, allow@));
                assert(group_files(group_views(groups@)) <= rv.len());
            }
            total = total + n;
        } else {
            proof {
                assert(group_views(groups@) =~= kept_groups(kv.take(g + 1), rv, allow@));
            }
        }
        g = g + 1;
    }
    proof {
        assert(kv.take(kv.len() as int) =~= kv);
    }
    (groups, total)
}

fn found_violation(groups: &Vec<(String, Vec<String>)>, total: usize, baseline_path: &String) -> (v: Violation)
    requires
        groups@.len() > 0,
        total == group_files(group_views(groups@)),
    ensures
        crate::api::violation_view(v) == (ViolationView {
            code: "duplicates.found"@,
            message: "duplicate files found (groups="@ + decimal_spec(groups@.len()) + ", files="@ + decimal_spec(
                total as nat,
            ) + ")"@,
            path: Some(baseline_path@),
            details: Some(seq![
                ("groups"@, DetailValueView::UInt(groups@.len() as u64)),
                ("files"@, DetailValueView::UWide(total as u128)),
                ("examples"@, DetailValueView::Groups(examples(group_views(groups@)))),
            ]),
            tier: ViolationTier::Observation,
        }),
{
    let a = concat("duplicate files found (groups=", u64_to_string(groups.len() as u64).as_str());
    let b = concat(a.as_str(), ", files=");
    let c = concat(b.as_str(), u64_to_string(total as u64).as_str());
    let m = concat(c.as_str(), ")");
    let mut examples_v: Vec<(String, Vec<String>)> = Vec::new();
    let mut e: usize = 0;
    while e < groups.len() && e < 5
        invariant
            e <= groups@.len(),
            e <= 5,
            examples_v@.len() == e,
            forall|k: int| 0 <= k < e ==> (#[trigger] group_views(examples_v@)[k]) == short_groups(group_views(groups@))[k],
        decreases groups@.len() - e,
    {
        let pre = prefix12(&groups[e].0);
        let ghost old_ex = examples_v@;
        examples_v.push((pre, crate::csv::copy_strings(groups[e].1.as_slice())));
        proof {
            assert(group_views(examples_v@)[e as int] == short_groups(group_views(groups@))[e as int]);
            assert forall|k: int| 0 <= k < e + 1 implies (#[trigger] group_views(examples_v@)[k]) == short_groups(
                group_views(groups@),
            )[k] by {
                if k < e {
                    assert(examples_v@[k] == old_ex[k]);
                    assert(group_views(old_ex)[k] == group_views(examples_v@)[k]);
                }
            }
        }
        e = e + 1;
    }
    let mut fields: Vec<(String, DetailValue)> = Vec::new();
    fields.push((String::from_str("groups"), DetailValue::UInt(groups.len() as u64)));
    fields.push((String::from_str("files"), DetailValue::UWide(total as u128)));
    fields.push((String::from_str("examples"), DetailValue::Groups(examples_v)));
    let v = Violation::observation(String::from_str("duplicates.found"), m, Some(baseline_path.clone()), Some(Details { fields }));
    proof {
        let gv = group_views(groups@);
        assert(crate::api::detail_value_view(DetailValue::Groups(examples_v)) == DetailValueView::Groups(
            group_views(examples_v@),
        )) by {
            let a = examples_v@.map_values(|e: (String, Vec<String>)| (e.0@, e.1@.map_values(|p: String| p@)));
            assert forall|k: int| 0 <= k < a.len() implies a[k] == group_views(examples_v@)[k] by {
                assert(examples_v@[k].1@.map_values(|p: String| p@) =~= views(examples_v@[k].1@));
            }
            assert(a =~= group_views(examples_v@));
        }
        let firsts = if gv.len() > 5 { gv.take(5) } else { gv };
        assert(examples_v@.len() == firsts.len());
        assert(group_views(examples_v@) =~= examples(gv)) by {
            assert forall|k: int| 0 <= k < firsts.len() implies group_views(examples_v@)[k] == examples(gv)[k] by {
                assert(firsts[k] == gv[k]);
                assert(group_views(examples_v@)[k] == short_groups(gv)[k]);
            }
        }
        assert(crate::api::details_view(v.details).unwrap() =~= seq![
            ("groups"@, DetailValueView::UInt(gv.len() as u64)),
            ("files"@, DetailValueView::UWide(total as u128)),
            ("examples"@, DetailValueView::Groups(examples(gv))),
        ]);
    }
    v
}

/// The duplicates check over the probes of the repository walk, in walk order
/// (see `duplicates_spec`).
/// The scan of the duplicates check, before the baseline is consulted.
pub fn scan_duplicates(cfg: &DuplicatesCheckConfigV2, probes: &Vec<FileProbe>) -> (r: Result<
    DuplicatesCheckResult,
    String,
>)
    ensures
        match r {
            Ok(res) => {
                &&& duplicates_spec(*cfg, probes@) == Ok::<_, Seq<char>>(
                    (
                        res.files_scanned as nat,
                        res.files_universe as nat,
                        group_views(res.groups@),
                        violation_views(res.violations@),
                    ),
                )
                &&& res.groups_total == res.groups@.len()
                &&& res.duplicate_files_total == group_files(group_views(res.groups@))
            },
            Err(e) => duplicates_spec(*cfg, probes@) == Err::<
                (nat, nat, Seq<(Seq<char>, Seq<Seq<char>>)>, Seq<ViolationView>),
                _,
            >(e@),
        },
{
    let include_globs = crate::boundary::default_globs(&cfg.include_globs, "**/*", None);
    let exclude_globs = crate::boundary::default_globs(&cfg.exclude_globs, "**/target/**", Some(".git/**"));
    let includes = match build_globset(&include_globs) {
        Ok(s) => s,
        Err(e) => return Err(e),
    };
    let excludes = match build_globset(&exclude_globs) {
        Ok(s) => s,
        Err(e) => return Err(e),
    };
    let allowlist = if cfg.allowlist_globs.len() == 0 {
        None
    } else {
        match build_globset(&cfg.allowlist_globs) {
            Ok(s) => Some(s),
            Err(e) => return Err(e),
        }
    };
    let ghost allow = if views(cfg.allowlist_globs@).len() > 0 {
        Some(views(cfg.allowlist_globs@))
    } else {
        None::<Seq<Seq<char>>>
    };
    let selected = select_paths(&includes, &excludes, probes);
    let ghost sel = views(selected@);
    proof {
        lemma_selected_from(probes@, includes.patterns_of(), excludes.patterns_of());
    }
    let universe = selected.len();
    let paths = crate::order::sorted_unique(crate::csv::copy_strings(selected.as_slice()));
    proof {
        assert forall|x: int| 0 <= x < paths@.len() implies has_probe(probes@, #[trigger] views(paths@)[x]) by {
            assert(views(paths@).to_set().contains(views(paths@)[x]));
            assert(sel.to_set().contains(views(paths@)[x]));
            let y = choose|y: int| 0 <= y < sel.len() && sel[y] == views(paths@)[x];
            assert(exists|j: int| 0 <= j < probes@.len() && probes@[j].rel@ == #[trigger] sel[y]);
        }
    }
    let (mut violations, records) = scan_paths(&paths, probes, cfg.max_file_bytes);
    let keys = crate::order::sorted_unique(hashes_of(&records));
    let (groups, total) = keep_groups(&records, &keys, &allowlist, Ghost(allow));
    let ghost failures = violation_views(violations@);
    proof {
        assert(views(include_globs@) == dup_includes(*cfg));
        assert(views(exclude_globs@) == dup_excludes(*cfg));
        assert(sel == selected_paths(probes@, dup_includes(*cfg), dup_excludes(*cfg)));
        assert(views(paths@) == sorted_distinct(sel));
        let scan = dup_scan(sorted_distinct(sel), probes@, cfg.max_file_bytes);
        assert(failures == scan.0);
        assert(record_views(records@) == scan.1);
        assert(views(keys@) == sorted_distinct(record_hashes(scan.1)));
        assert(group_views(groups@) == kept_groups(sorted_distinct(record_hashes(scan.1)), scan.1, allow));
    }
    if groups.len() > 0 {
        let v = found_violation(&groups, total, &cfg.baseline_path);
        violations.push(v);
        proof {
            assert(violation_views(violations@) =~= failures + seq![crate::api::violation_view(v)]);
        }
    } else {
        proof {
            assert(violation_views(violations@) =~= failures + Seq::<ViolationView>::empty());
        }
    }
    Ok(DuplicatesCheckResult {
        violations,
        files_scanned: records.len(),
        files_universe: universe,
        groups_total: groups.len(),
        duplicate_files_total: total,
        groups,
    })
}

proof fn lemma_sum_prefix_le(keys: Seq<Seq<char>>, records: Seq<(Seq<char>, Seq<char>)>, n: int)
    requires
        0 <= n <= keys.len(),
    ensures
        hash_count_sum(keys.take(n), records) <= hash_count_sum(keys, records),
    decreases keys.len() - n,
{
    if n < keys.len() {
        lemma_sum_prefix_le(keys, records, n + 1);
        assert(keys.take(n + 1).drop_last() =~= keys.take(n));
    } else {
        assert(keys.take(n) =~= keys);
    }
}


/// A baseline group with the same hash holds every path of `g`.
pub open spec fn covered_by(g: (Seq<char>, Seq<Seq<char>>), b: (Seq<char>, Seq<Seq<char>>)) -> bool {
    b.0 == g.0 && forall|k: int| 0 <= k < g.1.len() ==> b.1.contains(#[trigger] g.1[k])
}

/// A group is a regression when it is new, or has grown, against the baseline.
pub open spec fn regressed(g: (Seq<char>, Seq<Seq<char>>), baseline: Seq<(Seq<char>, Seq<Seq<char>>)>) -> bool {
    !(exists|j: int| 0 <= j < baseline.len() && covered_by(g, #[trigger] baseline[j]))
}

pub open spec fn ratchet_violation(g: (Seq<char>, Seq<Seq<char>>), baseline_path: Seq<char>) -> ViolationView {
    ViolationView {
        code: "duplicates.ratchet_regression"@,
        message: "duplicate group is new or has grown against the baseline: sha256="@ + g.0,
        path: Some(baseline_path),
        details: Some(seq![("paths"@, DetailValueView::StrList(g.1))]),
        tier: ViolationTier::Blocking,
    }
}

/// One blocking violation per current group that is new or grown against
/// the baseline, in group order.
pub open spec fn ratchet_violations(
    groups: Seq<(Seq<char>, Seq<Seq<char>>)>,
    baseline: Seq<(Seq<char>, Seq<Seq<char>>)>,
    baseline_path: Seq<char>,
) -> Seq<ViolationView>
    decreases groups.len(),
{
    if groups.len() == 0 {
        Seq::empty()
    } else {
        let rest = ratchet_violations(groups.drop_last(), baseline, baseline_path);
        if regressed(groups.last(), baseline) {
            rest.push(ratchet_violation(groups.last(), baseline_path))
        } else {
            rest
        }
    }
}

fn paths_within(a: &Vec<String>, b: &Vec<String>) -> (r: bool)
    ensures
        r == forall|k: int| 0 <= k < views(a@).len() ==> views(b@).contains(#[trigger] views(a@)[k]),
{
    let mut i: usize = 0;
    while i < a.len()
        invariant
            i <= a@.len(),
            forall|k: int| 0 <= k < i ==> views(b@).contains(#[trigger] views(a@)[k]),
        decreases a@.len() - i,
    {
        if !crate::plugins::contains_string(b, a[i].as_str()) {
            assert(!views(b@).contains(views(a@)[i as int]));
            return false;
        }
        i = i + 1;
    }
    true
}

fn group_regressed(g: &(String, Vec<String>), baseline: &Vec<(String, Vec<String>)>) -> (r: bool)
    ensures
        r == regressed((g.0@, views(g.1@)), group_views(baseline@)),
{
    let ghost gv = (g.0@, views(g.1@));
    let ghost bv = group_views(baseline@);
    let mut j: usize = 0;
    while j < baseline.len()
        invariant
            j <= baseline@.len(),
            bv == group_views(baseline@),
            gv == (g.0@, views(g.1@)),
            forall|q: int| 0 <= q < j ==> !covered_by(gv, #[trigger] bv[q]),
        decreases baseline@.len() - j,
    {
        assert(bv[j as int] == (baseline@[j as int].0@, views(baseline@[j as int].1@)));
        let same = crate::text::str_eq(baseline[j].0.as_str(), g.0.as_str());
        let within = paths_within(&g.1, &baseline[j].1);
        proof {
            let b = bv[j as int];
            assert(b.0 == baseline@[j as int].0@);
            assert(b.1 == views(baseline@[j as int].1@));
            assert(gv.1 == views(g.1@));
            if covered_by(gv, b) {
                assert forall|k: int| 0 <= k < views(g.1@).len() implies views(baseline@[j as int].1@).contains(
                    #[trigger] views(g.1@)[k],
                ) by {
                    assert(b.1.contains(gv.1[k]));
                }
            }
        }
        if same && within {
            return false;
        }
        j = j + 1;
    }
    true
}

/// The ratchet violations of `groups` against the baseline's groups.
pub fn duplicates_ratchet(
    groups: &Vec<(String, Vec<String>)>,
    baseline: &Vec<(String, Vec<String>)>,
    baseline_path: &String,
) -> (out: Vec<Violation>)
    ensures
        violation_views(out@) == ratchet_violations(group_views(groups@), group_views(baseline@), baseline_path@),
{
    let ghost gv = group_views(groups@);
    let mut out: Vec<Violation> = Vec::new();
    let mut i: usize = 0;
    while i < groups.len()
        invariant
            i <= groups@.len(),
            gv == group_views(groups@),
            violation_views(out@) == ratchet_violations(gv.take(i as int), group_views(baseline@), baseline_path@),
        decreases groups@.len() - i,
    {
        proof {
            assert(gv.take(i + 1).drop_last() =~= gv.take(i as int));
            assert(gv[i as int] == (groups@[i as int].0@, views(groups@[i as int].1@)));
        }
        if group_regressed(&groups[i], baseline) {
            let m = concat("duplicate group is new or has grown against the baseline: sha256=", groups[i].0.as_str());
            let paths = crate::csv::copy_strings(groups[i].1.as_slice());
            let mut fields: Vec<(String, DetailValue)> = Vec::new();
            fields.push((String::from_str("paths"), DetailValue::StrList(paths)));
            let v = Violation::blocking(
                String::from_str("duplicates.ratchet_regression"),
                m,
                Some(baseline_path.clone()),
                Some(Details { fields }),
            );
            let ghost before = out@;
            out.push(v);
            proof {
                assert(crate::api::details_view(v.details).unwrap() =~= ratchet_violation(gv[i as int], baseline_path@).details.unwrap());
                assert(violation_views(out@) =~= violation_views(before).push(crate::api::violation_view(v)));
            }
        }
        i = i + 1;
    }
    proof {
        assert(gv.take(i as int) =~= gv);
    }
    out
}

/// The duplicates check: the scan, then, where a baseline's groups are
/// given, the ratchet against them.
pub fn run_duplicates_check(
    cfg: &DuplicatesCheckConfigV2,
    probes: &Vec<FileProbe>,
    baseline: Option<&Vec<(String, Vec<String>)>>,
) -> (r: Result<DuplicatesCheckResult, String>)
    ensures
        match duplicates_spec(*cfg, probes@) {
            Ok((scanned, universe, groups, vs)) => r is Ok && ({
                let res = r.unwrap();
                &&& res.files_scanned == scanned
                &&& res.files_universe == universe
                &&& group_views(res.groups@) == groups
                &&& res.groups_total == groups.len()
                &&& res.duplicate_files_total == group_files(groups)
                &&& violation_views(res.violations@) == vs + match baseline {
                    Some(b) => ratchet_violations(groups, group_views(b@), cfg.baseline_path@),
                    None => Seq::empty(),
                }
            }),
            Err(e) => r is Err && r->Err_0@ == e,
        },
{
    match scan_duplicates(cfg, probes) {
        Err(e) => Err(e),
        Ok(mut res) => {
            let ghost before = violation_views(res.violations@);
            match baseline {
                Some(b) => {
                    let mut extra = duplicates_ratchet(&res.groups, b, &cfg.baseline_path);
                    let ghost v0 = res.violations@;
                    let ghost e0 = extra@;
                    res.violations.append(&mut extra);
                    proof {
                        assert(res.violations@ == v0 + e0);
                        assert(violation_views(res.violations@) =~= violation_views(v0) + violation_views(e0));
                    }
                },
                None => {
                    proof {
                        assert(before + Seq::<ViolationView>::empty() =~= before);
                    }
                },
            }
            Ok(res)
        },
    }
}


proof fn lemma_ratchet_within(groups: Seq<(Seq<char>, Seq<Seq<char>>)>, baseline: Seq<(Seq<char>, Seq<Seq<char>>)>, p: Seq<char>)
    requires
        forall|i: int| 0 <= i < groups.len() ==> baseline.contains(#[trigger] groups[i]),
    ensures
        ratchet_violations(groups, baseline, p) == Seq::<ViolationView>::empty(),
    decreases groups.len(),
{
    if groups.len() > 0 {
        let n = groups.len() - 1;
        assert forall|i: int| 0 <= i < groups.drop_last().len() implies baseline.contains(#[trigger] groups.drop_last()[i]) by {
            assert(groups.drop_last()[i] == groups[i]);
        }
        lemma_ratchet_within(groups.drop_last(), baseline, p);
        assert(baseline.contains(groups[n]));
        let j = choose|j: int| 0 <= j < baseline.len() && baseline[j] == groups[n];
        assert(covered_by(groups.last(), baseline[j]));
    }
}

/// Against a baseline that holds the current groups, the ratchet reports nothing.
pub proof fn law_unchanged_groups_pass_ratchet(groups: Seq<(Seq<char>, Seq<Seq<char>>)>, p: Seq<char>)
    ensures
        ratchet_violations(groups, groups, p) == Seq::<ViolationView>::empty(),
{
    assert forall|i: int| 0 <= i < groups.len() implies groups.contains(#[trigger] groups[i]) by {}
    lemma_ratchet_within(groups, groups, p);
}

} // verus!
