//! The checks an init plan passes before anything is written: every path is
//! normalised and in scope, no path runs through a symbolic link, no file is
//! written twice, and an existing file is either left as it is (same
//! content) or refused.

use crate::api::{ApiError, InitPlan, InitWriteFile};
use crate::csv::views;
use crate::init::{allowed_scope, api_error_is, ensure_allowed_scope, normalize_rel_path, normalize_rel_path_spec, scope_error_message};
use crate::plugins::contains_string;
use crate::text::{concat, debug_quoted, debug_str, str_eq};
use vstd::prelude::*;
use vstd::string::*;

verus! {

/// What is at the destination of a write.
#[derive(Debug, Clone)]
pub enum Existing {
    Absent,
    Dir,
    /// A file, with its content where it is UTF-8.
    File(Option<String>),
    /// A file that could not be read, with the error's text.
    Unreadable(String),
}

/// What the caller found for one write: the error of a symbolic link on the
/// way to it, the destination as messages show it, and what is there.
#[derive(Debug, Clone)]
pub struct WriteProbe {
    pub symlink_error: Option<ApiError>,
    pub dest_debug: String,
    pub existing: Existing,
}

pub open spec fn err_pair(e: ApiError) -> (Seq<char>, Seq<char>) {
    (e.code@, e.message@)
}

/// One write against the paths written before it: whether it is skipped
/// (the same content is there already), or the error.
pub open spec fn write_check(w: InitWriteFile, p: WriteProbe, seen: Seq<Seq<char>>) -> Result<bool, (Seq<char>, Seq<char>)> {
    match normalize_rel_path_spec(w.path@) {
        Err(e) => Err(e),
        Ok(rel) => if !allowed_scope(rel) {
            Err(("init.plan_path_forbidden"@, scope_error_message(rel)))
        } else if p.symlink_error is Some {
            Err(err_pair(p.symlink_error.unwrap()))
        } else if seen.contains(rel) {
            Err(("init.plan_duplicate_path"@, "duplicate write path in plan: "@ + debug_str(rel)))
        } else {
            match p.existing {
                Existing::Absent => Ok(false),
                Existing::Dir => Err(
                    ("init.write_failed"@, "refusing to overwrite directory with file: "@ + p.dest_debug@),
                ),
                Existing::Unreadable(m) => Err(
                    ("init.write_failed"@, "failed to read existing file "@ + p.dest_debug@ + ": "@ + m@),
                ),
                Existing::File(c) => if c is Some && c.unwrap()@ == w.content_utf8@ {
                    Ok(true)
                } else {
                    Err(
                        (
                            "init.write_conflict"@,
                            "refusing to overwrite existing file with different content: "@ + p.dest_debug@
                                + "; delete it (or run init on a clean repo) and retry"@,
                        ),
                    )
                },
            }
        },
    }
}

/// The first `n` writes in order: their paths and the skipped ones, or the
/// first error.
pub open spec fn writes_check(ws: Seq<InitWriteFile>, ps: Seq<WriteProbe>, n: int) -> Result<
    (Seq<Seq<char>>, Seq<Seq<char>>),
    (Seq<char>, Seq<char>),
>
    decreases n,
{
    if n <= 0 {
        Ok((Seq::empty(), Seq::empty()))
    } else {
        match writes_check(ws, ps, n - 1) {
            Err(e) => Err(e),
            Ok((rels, skips)) => match write_check(ws[n - 1], ps[n - 1], rels) {
                Err(e) => Err(e),
                Ok(skip) => {
                    let rel = normalize_rel_path_spec(ws[n - 1].path@)->Ok_0;
                    Ok((rels.push(rel), if skip { skips.push(rel) } else { skips }))
                },
            },
        }
    }
}

/// The first `n` deletes in order: their paths, or the first error.
pub open spec fn deletes_check(ds: Seq<String>, errs: Seq<Option<ApiError>>, n: int) -> Result<
    Seq<Seq<char>>,
    (Seq<char>, Seq<char>),
>
    decreases n,
{
    if n <= 0 {
        Ok(Seq::empty())
    } else {
        match deletes_check(ds, errs, n - 1) {
            Err(e) => Err(e),
            Ok(rels) => match normalize_rel_path_spec(ds[n - 1]@) {
                Err(e) => Err(e),
                Ok(rel) => if !allowed_scope(rel) {
                    Err(("init.plan_path_forbidden"@, scope_error_message(rel)))
                } else if errs[n - 1] is Some {
                    Err(err_pair(errs[n - 1].unwrap()))
                } else {
                    Ok(rels.push(rel))
                },
            },
        }
    }
}

fn check_write(w: &InitWriteFile, p: &WriteProbe, seen: &Vec<String>) -> (r: Result<(String, bool), ApiError>)
    ensures
        match write_check(*w, *p, views(seen@)) {
            Err(e) => r is Err && err_pair(r->Err_0) == e,
            Ok(skip) => r is Ok && r->Ok_0.1 == skip && r->Ok_0.0@ == normalize_rel_path_spec(w.path@)->Ok_0,
        },
{
    let rel = match normalize_rel_path(w.path.as_str()) {
        Ok(rel) => rel,
        Err(e) => return Err(e),
    };
    match ensure_allowed_scope(rel.as_str()) {
        Ok(()) => {},
        Err(e) => return Err(e),
    }
    match &p.symlink_error {
        Some(e) => return Err(ApiError { code: e.code.clone(), message: e.message.clone() }),
        None => {},
    }
    if contains_string(seen, rel.as_str()) {
        let q = debug_quoted(rel.as_str());
        return Err(
            ApiError {
                code: String::from_str("init.plan_duplicate_path"),
                message: concat("duplicate write path in plan: ", q.as_str()),
            },
        );
    }
    match &p.existing {
        Existing::Absent => Ok((rel, false)),
        Existing::Dir => Err(
            ApiError {
                code: String::from_str("init.write_failed"),
                message: concat("refusing to overwrite directory with file: ", p.dest_debug.as_str()),
            },
        ),
        Existing::Unreadable(m) => {
            let a = concat("failed to read existing file ", p.dest_debug.as_str());
            let b = concat(a.as_str(), ": ");
            Err(ApiError { code: String::from_str("init.write_failed"), message: concat(b.as_str(), m.as_str()) })
        },
        Existing::File(c) => {
            let same = match c {
                Some(text) => str_eq(text.as_str(), w.content_utf8.as_str()),
                None => false,
            };
            if same {
                Ok((rel, true))
            } else {
                let a = concat("refusing to overwrite existing file with different content: ", p.dest_debug.as_str());
                Err(
                    ApiError {
                        code: String::from_str("init.write_conflict"),
                        message: concat(a.as_str(), "; delete it (or run init on a clean repo) and retry"),
                    },
                )
            }
        },
    }
}

/// What an init plan may do once checked: the files to leave as they are
/// (already holding the planned content) and the paths to delete.
#[derive(Debug)]
pub struct CheckedPlan {
    pub skips: Vec<String>,
    pub deletes: Vec<String>,
}

/// Checks a plan: each write against what its probe found, in order, then
/// each delete against the symbolic-link error found on its path.
pub fn check_plan(plan: &InitPlan, write_probes: &Vec<WriteProbe>, delete_symlink_errors: &Vec<Option<ApiError>>) -> (r:
    Result<CheckedPlan, ApiError>)
    requires
        write_probes@.len() == plan.writes@.len(),
        delete_symlink_errors@.len() == plan.deletes@.len(),
    ensures
        match writes_check(plan.writes@, write_probes@, plan.writes@.len() as int) {
            Err(e) => r is Err && err_pair(r->Err_0) == e,
            Ok((_, skips)) => match deletes_check(plan.deletes@, delete_symlink_errors@, plan.deletes@.len() as int) {
                Err(e) => r is Err && err_pair(r->Err_0) == e,
                Ok(dels) => r is Ok && views(r->Ok_0.skips@) == skips && views(r->Ok_0.deletes@) == dels,
            },
        },
{
    let ws = &plan.writes;
    let mut rels: Vec<String> = Vec::new();
    let mut skips: Vec<String> = Vec::new();
    let mut i: usize = 0;
    proof {
        assert(views(rels@) =~= Seq::<Seq<char>>::empty());
        assert(views(skips@) =~= Seq::<Seq<char>>::empty());
    }
    while i < ws.len()
        invariant
            ws == &plan.writes,
            write_probes@.len() == ws@.len(),
            i <= ws@.len(),
            writes_check(ws@, write_probes@, i as int) == Ok::<_, (Seq<char>, Seq<char>)>((views(rels@), views(skips@))),
        decreases ws@.len() - i,
    {
        match check_write(&ws[i], &write_probes[i], &rels) {
            Err(e) => {
                proof {
                    lemma_writes_err_stays(ws@, write_probes@, i as int + 1, ws@.len() as int);
                }
                return Err(e);
            },
            Ok((rel, skip)) => {
                let ghost r0 = views(rels@);
                let ghost s0 = views(skips@);
                if skip {
                    skips.push(rel.clone());
                    proof {
                        assert(views(skips@) =~= s0.push(rel@));
                    }
                }
                rels.push(rel);
                proof {
                    assert(views(rels@) =~= r0.push(normalize_rel_path_spec(ws@[i as int].path@)->Ok_0));
                }
            },
        }
        i = i + 1;
    }
    let ds = &plan.deletes;
    let mut dels: Vec<String> = Vec::new();
    let mut j: usize = 0;
    let ghost wres = writes_check(ws@, write_probes@, ws@.len() as int);
    proof {
        assert(views(dels@) =~= Seq::<Seq<char>>::empty());
    }
    while j < ds.len()
        invariant
            ds == &plan.deletes,
            wres == writes_check(plan.writes@, write_probes@, plan.writes@.len() as int),
            wres matches Ok((_, sk)) && sk == views(skips@),
            delete_symlink_errors@.len() == ds@.len(),
            j <= ds@.len(),
            deletes_check(ds@, delete_symlink_errors@, j as int) == Ok::<_, (Seq<char>, Seq<char>)>(views(dels@)),
        decreases ds@.len() - j,
    {
        let rel = match normalize_rel_path(ds[j].as_str()) {
            Ok(rel) => rel,
            Err(e) => {
                proof {
                    lemma_deletes_err_stays(ds@, delete_symlink_errors@, j as int + 1, ds@.len() as int);
                }
                return Err(e);
            },
        };
        match ensure_allowed_scope(rel.as_str()) {
            Ok(()) => {},
            Err(e) => {
                proof {
                    lemma_deletes_err_stays(ds@, delete_symlink_errors@, j as int + 1, ds@.len() as int);
                }
                return Err(e);
            },
        }
        match &delete_symlink_errors[j] {
            Some(e) => {
                proof {
                    lemma_deletes_err_stays(ds@, delete_symlink_errors@, j as int + 1, ds@.len() as int);
                }
                return Err(ApiError { code: e.code.clone(), message: e.message.clone() });
            },
            None => {},
        }
        let ghost d0 = views(dels@);
        dels.push(rel);
        proof {
            assert(views(dels@) =~= d0.push(normalize_rel_path_spec(ds@[j as int]@)->Ok_0));
        }
        j = j + 1;
    }
    Ok(CheckedPlan { skips, deletes: dels })
}

proof fn lemma_writes_err_stays(ws: Seq<InitWriteFile>, ps: Seq<WriteProbe>, n: int, m: int)
    requires
        1 <= n <= m,
        writes_check(ws, ps, n) is Err,
    ensures
        writes_check(ws, ps, m) == writes_check(ws, ps, n),
    decreases m - n,
{
    if m > n {
        lemma_writes_err_stays(ws, ps, n, m - 1);
    }
}

proof fn lemma_deletes_err_stays(ds: Seq<String>, errs: Seq<Option<ApiError>>, n: int, m: int)
    requires
        1 <= n <= m,
        deletes_check(ds, errs, n) is Err,
    ensures
        deletes_check(ds, errs, m) == deletes_check(ds, errs, n),
    decreases m - n,
{
    if m > n {
        lemma_deletes_err_stays(ds, errs, n, m - 1);
    }
}

} // verus!
