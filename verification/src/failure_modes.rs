//! The failure-mode catalog: the built-in default and the rules a custom
//! catalog must follow (non-empty, well-formed ids, no repeats).

use crate::csv::views;
use crate::patterns::{regex_is_match, regex_matches, regex_new, regex_new_error};
use crate::plugins::contains_string;
use crate::text::{concat, trim_spec, trim_str};
use vstd::prelude::*;
use vstd::string::*;

verus! {

/// Where a repository keeps its catalog.
pub open spec fn failure_modes_rel_path() -> Seq<char> {
    ".agents/mcp/compas/failure_modes.toml"@
}

/// The pattern of a failure-mode id: a small letter or digit, then one to 63
/// small letters, digits, `_` or `-`.
pub open spec fn mode_id_pattern() -> Seq<char> {
    "^[a-z0-9][a-z0-9_-]{1,63}$"@
}

pub open spec fn default_catalog_spec() -> Seq<Seq<char>> {
    seq![
        "policy_theater"@,
        "unplugged_iron"@,
        "fail_open"@,
        "env_sprawl"@,
        "public_surface_bloat"@,
        "god_module_cycles"@,
        "resilience_defaults"@,
        "security_baseline"@,
        "dependency_hygiene"@,
        "knowledge_continuity"@,
    ]
}

/// The catalog used when a repository has none.
pub fn default_failure_mode_catalog() -> (out: Vec<String>)
    ensures
        views(out@) == default_catalog_spec(),
{
    let mut out: Vec<String> = Vec::new();
    out.push(String::from_str("policy_theater"));
    out.push(String::from_str("unplugged_iron"));
    out.push(String::from_str("fail_open"));
    out.push(String::from_str("env_sprawl"));
    out.push(String::from_str("public_surface_bloat"));
    out.push(String::from_str("god_module_cycles"));
    out.push(String::from_str("resilience_defaults"));
    out.push(String::from_str("security_baseline"));
    out.push(String::from_str("dependency_hygiene"));
    out.push(String::from_str("knowledge_continuity"));
    proof {
        assert(views(out@) =~= default_catalog_spec());
    }
    out
}

/// Why the catalog entries from `i` on are refused, given those before them:
/// the first empty, malformed or repeated (trimmed) id.
pub open spec fn catalog_error_from(ids: Seq<Seq<char>>, i: int) -> Option<Seq<char>>
    decreases ids.len() - i,
{
    if i < 0 || i >= ids.len() {
        None
    } else if ids[i].len() == 0 {
        Some("failure mode catalog contains empty id"@)
    } else if !regex_is_match(mode_id_pattern(), ids[i]) {
        Some("invalid failure mode id '"@ + ids[i] + "'"@)
    } else if ids.take(i).contains(ids[i]) {
        Some("duplicate failure mode id '"@ + ids[i] + "'"@)
    } else {
        catalog_error_from(ids, i + 1)
    }
}

/// The catalog's trimmed ids, or why it is refused.
pub open spec fn validate_catalog_spec(catalog: Seq<Seq<char>>) -> Result<Seq<Seq<char>>, Seq<char>> {
    let ids = catalog.map_values(|s: Seq<char>| trim_spec(s));
    if catalog.len() == 0 {
        Err("failure mode catalog must not be empty"@)
    } else if regex_new_error(mode_id_pattern()) is Some {
        Err("failure mode id pattern does not compile: "@ + regex_new_error(mode_id_pattern()).unwrap())
    } else {
        match catalog_error_from(ids, 0) {
            Some(e) => Err(e),
            None => Ok(ids),
        }
    }
}

/// Checks a custom catalog and gives its ids trimmed, or the reason it is
/// refused (see `validate_catalog_spec`).
pub fn validate_catalog(catalog: Vec<String>) -> (r: Result<Vec<String>, String>)
    ensures
        match validate_catalog_spec(views(catalog@)) {
            Ok(ids) => r is Ok && views(r->Ok_0@) == ids,
            Err(e) => r is Err && r->Err_0@ == e,
        },
{
    if catalog.len() == 0 {
        return Err(String::from_str("failure mode catalog must not be empty"));
    }
    let re = match regex_new("^[a-z0-9][a-z0-9_-]{1,63}$") {
        Ok(re) => re,
        Err(e) => return Err(concat("failure mode id pattern does not compile: ", e.as_str())),
    };
    let ghost ids = views(catalog@).map_values(|s: Seq<char>| trim_spec(s));
    let mut out: Vec<String> = Vec::new();
    let mut i: usize = 0;
    proof {
        assert(views(out@) =~= ids.take(0));
    }
    while i < catalog.len()
        invariant
            i <= catalog@.len(),
            ids == views(catalog@).map_values(|s: Seq<char>| trim_spec(s)),
            re.pattern_of() == mode_id_pattern(),
            catalog@.len() > 0,
            regex_new_error(mode_id_pattern()) is None,
            views(out@) == ids.take(i as int),
            catalog_error_from(ids, 0) == catalog_error_from(ids, i as int),
        decreases catalog@.len() - i,
    {
        let id = trim_str(catalog[i].as_str());
        proof {
            assert(id@ == ids[i as int]);
        }
        if id.unicode_len() == 0 {
            return Err(String::from_str("failure mode catalog contains empty id"));
        }
        if !regex_matches(&re, id.as_str()) {
            let a = concat("invalid failure mode id '", id.as_str());
            return Err(concat(a.as_str(), "'"));
        }
        if contains_string(&out, id.as_str()) {
            let a = concat("duplicate failure mode id '", id.as_str());
            return Err(concat(a.as_str(), "'"));
        }
        let ghost before = views(out@);
        out.push(id);
        proof {
            assert(views(out@) =~= before.push(ids[i as int]));
            assert(ids.take(i + 1) =~= ids.take(i as int).push(ids[i as int]));
        }
        i = i + 1;
    }
    proof {
        assert(ids.take(catalog@.len() as int) =~= ids);
    }
    Ok(out)
}

} // verus!
