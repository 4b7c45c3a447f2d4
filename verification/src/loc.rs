//! The line budget: non-empty lines counted per selected file, and the files
//! over the budget reported.

use crate::api::{Violation, ViolationTier, ViolationView, violation_views};
use crate::boundary::{boundary_selects, build_globset, globs_or, globset_error};
use crate::checks::{loc_violations_spec, non_empty_lines, worst_file};
use crate::config::LocCheckConfigV2;
use crate::csv::views;
use crate::order::sorted_distinct;
use crate::text::concat;
use vstd::prelude::*;

verus! {

/// The outcome of the line budget check.
pub struct LocCheckResult {
    pub violations: Vec<Violation>,
    pub files_scanned: usize,
    pub files_universe: usize,
    pub max_loc: usize,
    pub worst_path: Option<String>,
    /// The count of each file read, by path in ascending order.
    pub loc_per_file: Vec<(String, usize)>,
}

/// Scanning the files in order: the read failures, the number of files
/// selected, and the (path, count) of each file read.
pub open spec fn loc_scan(
    files: Seq<(String, Result<Vec<u8>, String>)>,
    inc: Seq<Seq<char>>,
    exc: Seq<Seq<char>>,
) -> (Seq<ViolationView>, nat, Seq<(Seq<char>, nat)>)
    decreases files.len(),
{
    if files.len() == 0 {
        (Seq::empty(), 0, Seq::empty())
    } else {
        let prev = loc_scan(files.drop_last(), inc, exc);
        let f = files.last();
        if boundary_selects(inc, exc, f.0@) {
            match f.1 {
                Err(e) => (
                    prev.0.push(
                        ViolationView {
                            code: "loc.read_failed"@,
                            message: "failed to read file for LOC scan: "@ + e@,
                            path: Some(f.0@),
                            details: None,
                            tier: ViolationTier::Blocking,
                        },
                    ),
                    prev.1 + 1,
                    prev.2,
                ),
                Ok(bytes) => (prev.0, prev.1 + 1, prev.2.push((f.0@, non_empty_lines(bytes@)))),
            }
        } else {
            prev
        }
    }
}

/// The count recorded last for `key`.
pub open spec fn last_count(counts: Seq<(Seq<char>, nat)>, key: Seq<char>) -> nat
    decreases counts.len(),
{
    if counts.len() == 0 {
        0
    } else if counts.last().0 == key {
        counts.last().1
    } else {
        last_count(counts.drop_last(), key)
    }
}

pub open spec fn count_paths(counts: Seq<(Seq<char>, nat)>) -> Seq<Seq<char>> {
    counts.map_values(|c: (Seq<char>, nat)| c.0)
}

/// Each path read, in ascending order, once, with its last count.
pub open spec fn per_file(counts: Seq<(Seq<char>, nat)>) -> Seq<(Seq<char>, nat)> {
    sorted_distinct(count_paths(counts)).map_values(|k: Seq<char>| (k, last_count(counts, k)))
}

pub open spec fn loc_views(v: Seq<(String, usize)>) -> Seq<(Seq<char>, nat)> {
    v.map_values(|e: (String, usize)| (e.0@, e.1 as nat))
}

fn last_count_exec(counts: &Vec<(String, usize)>, key: &String) -> (n: usize)
    ensures
        n == last_count(loc_views(counts@), key@),
{
    let ghost cv = loc_views(counts@);
    let mut i: usize = counts.len();
    proof {
        assert(cv.take(i as int) =~= cv);
    }
    while i > 0
        invariant
            cv == loc_views(counts@),
            i <= cv.len(),
            last_count(cv, key@) == last_count(cv.take(i as int), key@),
        decreases i,
    {
        proof {
            assert(cv.take(i as int).drop_last() =~= cv.take(i - 1));
            assert(cv.take(i as int).last() == (counts@[i - 1].0@, counts@[i - 1].1 as nat));
        }
        if crate::text::str_eq(counts[i - 1].0.as_str(), key.as_str()) {
            return counts[i - 1].1;
        }
        i = i - 1;
    }
    0
}

/// The line budget check over the files of the repository walk, each with
/// its bytes or the error of reading them: the include globs (the check's
/// own, or `**/*.rs`) and the exclude globs built; each selected file counted
/// or its read failure reported; then the files over the budget, by path.
pub fn run_loc_check(cfg: &LocCheckConfigV2, files: &Vec<(String, Result<Vec<u8>, String>)>) -> (r: Result<
    LocCheckResult,
    String,
>)
    ensures
        ({
            let inc = globs_or(views(cfg.include_globs@), seq!["**/*.rs"@]);
            let exc = views(cfg.exclude_globs@);
            match r {
                Err(e) => (globset_error(inc) == Some(e@)) || (globset_error(inc) is None && globset_error(exc) == Some(
                    e@,
                )),
                Ok(res) => {
                    let scan = loc_scan(files@, inc, exc);
                    &&& globset_error(inc) is None && globset_error(exc) is None
                    &&& loc_views(res.loc_per_file@) == per_file(scan.2)
                    &&& res.files_scanned == res.loc_per_file@.len()
                    &&& res.files_universe == scan.1
                    &&& violation_views(res.violations@) == scan.0 + loc_violations_spec(res.loc_per_file@, cfg.max_loc)
                    &&& res.max_loc == worst_file(res.loc_per_file@).0
                    &&& crate::cli::opt_view(res.worst_path) == worst_file(res.loc_per_file@).1
                },
            }
        }),
{
    let include_globs = crate::boundary::default_globs(&cfg.include_globs, "**/*.rs", None);
    let exclude_globs = crate::csv::copy_strings(cfg.exclude_globs.as_slice());
    let includes = match build_globset(&include_globs) {
        Ok(s) => s,
        Err(e) => return Err(e),
    };
    let excludes = match build_globset(&exclude_globs) {
        Ok(s) => s,
        Err(e) => return Err(e),
    };
    let ghost inc = views(include_globs@);
    let ghost exc = views(exclude_globs@);
    let mut violations: Vec<Violation> = Vec::new();
    let mut counts: Vec<(String, usize)> = Vec::new();
    let mut universe: usize = 0;
    let mut i: usize = 0;
    proof {
        assert(files@.take(0) =~= Seq::<(String, Result<Vec<u8>, String>)>::empty());
        assert(violation_views(violations@) =~= Seq::<ViolationView>::empty());
        assert(loc_views(counts@) =~= Seq::<(Seq<char>, nat)>::empty());
    }
    while i < files.len()
        invariant
            includes.patterns_of() == inc,
            excludes.patterns_of() == exc,
            i <= files@.len(),
            universe <= i,
            violation_views(violations@) == loc_scan(files@.take(i as int), inc, exc).0,
            universe == loc_scan(files@.take(i as int), inc, exc).1,
            loc_views(counts@) == loc_scan(files@.take(i as int), inc, exc).2,
        decreases files@.len() - i,
    {
        proof {
            assert(files@.take(i + 1).drop_last() =~= files@.take(i as int));
            assert(files@.take(i + 1).last() == files@[i as int]);
        }
        let rel = &files[i].0;
        if !crate::patterns::globset_matches(&excludes, rel.as_str()) && crate::patterns::globset_matches(
            &includes,
            rel.as_str(),
        ) {
            universe = universe + 1;
            match &files[i].1 {
                Err(e) => {
                    let ghost before = violation_views(violations@);
                    let m = concat("failed to read file for LOC scan: ", e.as_str());
                    violations.push(Violation::blocking(String::from_str("loc.read_failed"), m, Some(rel.clone()), None));
                    proof {
                        assert(violation_views(violations@) =~= before.push(crate::api::violation_view(violations@.last())));
                    }
                },
                Ok(bytes) => {
                    let ghost before = loc_views(counts@);
                    let n = crate::checks::count_non_empty_lines(bytes.as_slice());
                    counts.push((rel.clone(), n));
                    proof {
                        assert(loc_views(counts@) =~= before.push((rel@, n as nat)));
                    }
                },
            }
        }
        i = i + 1;
    }
    proof {
        assert(files@.take(files@.len() as int) =~= files@);
    }
    let ghost cv = loc_views(counts@);
    let mut paths: Vec<String> = Vec::new();
    let mut x: usize = 0;
    while x < counts.len()
        invariant
            x <= counts@.len(),
            paths@.len() == x,
            forall|k: int| 0 <= k < x ==> (#[trigger] paths@[k])@ == counts@[k].0@,
        decreases counts@.len() - x,
    {
        paths.push(counts[x].0.clone());
        x = x + 1;
    }
    proof {
        assert(views(paths@) =~= count_paths(cv));
    }
    let keys = crate::order::sorted_unique(paths);
    let ghost kv = views(keys@);
    let mut per: Vec<(String, usize)> = Vec::new();
    let mut k: usize = 0;
    while k < keys.len()
        invariant
            kv == views(keys@),
            cv == loc_views(counts@),
            k <= kv.len(),
            per@.len() == k,
            forall|j: int| 0 <= j < k ==> (#[trigger] loc_views(per@)[j]) == (kv[j], last_count(cv, kv[j])),
        decreases kv.len() - k,
    {
        let n = last_count_exec(&counts, &keys[k]);
        let ghost p0 = per@;
        per.push((keys[k].clone(), n));
        proof {
            assert forall|j: int| 0 <= j < k + 1 implies (#[trigger] loc_views(per@)[j]) == (kv[j], last_count(cv, kv[j])) by {
                if j < k {
                    assert(per@[j] == p0[j]);
                    assert(loc_views(p0)[j] == loc_views(per@)[j]);
                }
            }
        }
        k = k + 1;
    }
    proof {
        assert(loc_views(per@) =~= per_file(cv));
    }
    let (mut over, max_loc, worst_path) = crate::checks::loc_results(&per, cfg.max_loc);
    let ghost failures = violation_views(violations@);
    let ghost overv = violation_views(over@);
    violations.append(&mut over);
    proof {
        assert(violation_views(violations@) =~= failures + overv);
        assert(views(include_globs@) == globs_or(views(cfg.include_globs@), seq!["**/*.rs"@]));
    }
    let files_scanned = per.len();
    Ok(LocCheckResult {
        violations,
        files_scanned,
        files_universe: universe,
        max_loc,
        worst_path,
        loc_per_file: per,
    })
}

} // verus!
