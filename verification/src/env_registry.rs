//! The environment registry check: every environment variable that a tool
//! sets must be registered, registered names are well formed and unique, and
//! each registered variable's effective value is reported (redacted where
//! sensitive).

use crate::api::{
    violation_view, violation_views, DetailValue, DetailValueView, Details, EffectiveConfigEntry, EffectiveConfigSource,
    EffectiveConfigSummary, Violation, ViolationTier, ViolationView,
};
use crate::config::ProjectTool;
use crate::csv::{copy_strings, views};
use crate::order::{insert_sorted_unique, lex_lt, lemma_lex_total, str_lex, strictly_sorted};
use crate::plugins::contains_string;
use crate::text::{chars_of, concat, str_eq, trim_spec, trim_str};
use vstd::prelude::*;
use vstd::string::*;

verus! {

/// One registered environment variable.
#[derive(Debug, Clone)]
pub struct EnvVarSpec {
    pub name: String,
    pub description: Option<String>,
    pub required: bool,
    pub default: Option<String>,
    pub sensitive: bool,
}

/// What the environment holds for a variable.
#[derive(Debug, Clone)]
pub enum EnvValue {
    Utf8(String),
    NonUtf8,
    Unset,
}

#[derive(Debug, Clone)]
pub struct EnvRegistryResult {
    pub violations: Vec<Violation>,
    pub summary: EffectiveConfigSummary,
}

/// A variable name: an ASCII capital letter, then capitals, digits and `_`.
pub open spec fn valid_env_name(name: Seq<char>) -> bool {
    name.len() > 0 && ('A' <= name[0] && name[0] <= 'Z') && forall|i: int|
        1 <= i < name.len() ==> ('A' <= #[trigger] name[i] && name[i] <= 'Z') || ('0' <= name[i] && name[i] <= '9')
            || name[i] == '_'
}

pub fn is_valid_env_name(name: &str) -> (b: bool)
    ensures
        b == valid_env_name(name@),
{
    let cs = chars_of(name);
    if cs.len() == 0 {
        return false;
    }
    if !('A' <= cs[0] && cs[0] <= 'Z') {
        return false;
    }
    let mut i: usize = 1;
    while i < cs.len()
        invariant
            cs@ == name@,
            1 <= i <= cs@.len(),
            forall|k: int|
                1 <= k < i ==> ('A' <= #[trigger] cs@[k] && cs@[k] <= 'Z') || ('0' <= cs@[k] && cs@[k] <= '9')
                    || cs@[k] == '_',
        decreases cs@.len() - i,
    {
        let c = cs[i];
        if !(('A' <= c && c <= 'Z') || ('0' <= c && c <= '9') || c == '_') {
            return false;
        }
        i = i + 1;
    }
    true
}

/// A sensitive value is shown as `<redacted>`.
pub fn redact_value(raw: String, sensitive: bool) -> (s: String)
    ensures
        sensitive ==> s@ == "<redacted>"@,
        !sensitive ==> s == raw,
{
    if sensitive {
        String::from_str("<redacted>")
    } else {
        raw
    }
}

/// The tool sets the variable `name`.
pub open spec fn tool_sets(t: ProjectTool, name: Seq<char>) -> bool {
    exists|k: int| 0 <= k < t.env@.len() && (#[trigger] t.env@[k]).0@ == name
}

/// Some tool sets the variable `name`.
pub open spec fn var_used(tools: Seq<ProjectTool>, name: Seq<char>) -> bool {
    exists|i: int| 0 <= i < tools.len() && tool_sets(#[trigger] tools[i], name)
}

/// The ids of the tools that set `name`.
pub open spec fn tools_using(tools: Seq<ProjectTool>, name: Seq<char>, id: Seq<char>) -> bool {
    exists|i: int| 0 <= i < tools.len() && (#[trigger] tools[i]).id@ == id && tool_sets(tools[i], name)
}

/// `usage` lists each variable that some tool sets, in order, once, with the
/// ids of the tools that set it, in order, each once.
pub open spec fn usage_of(usage: Seq<(String, Vec<String>)>, tools: Seq<ProjectTool>) -> bool {
    &&& strictly_sorted(usage.map_values(|u: (String, Vec<String>)| u.0@))
    &&& forall|n: Seq<char>|
        #[trigger] var_used(tools, n) <==> exists|i: int| 0 <= i < usage.len() && (#[trigger] usage[i]).0@ == n
    &&& forall|i: int|
        0 <= i < usage.len() ==> strictly_sorted(views((#[trigger] usage[i]).1@)) && forall|id: Seq<char>|
            views(usage[i].1@).contains(id) <==> tools_using(tools, usage[i].0@, id)
}

fn tool_sets_exec(t: &ProjectTool, name: &str) -> (b: bool)
    ensures
        b == tool_sets(*t, name@),
{
    let mut k: usize = 0;
    while k < t.env.len()
        invariant
            k <= t.env@.len(),
            forall|j: int| 0 <= j < k ==> (#[trigger] t.env@[j]).0@ != name@,
        decreases t.env@.len() - k,
    {
        if str_eq(t.env[k].0.as_str(), name) {
            return true;
        }
        k = k + 1;
    }
    false
}

/// The variables that some tool sets, sorted, each once.
fn used_var_names(tools: &[ProjectTool]) -> (out: Vec<String>)
    ensures
        strictly_sorted(views(out@)),
        forall|n: Seq<char>| views(out@).contains(n) <==> var_used(tools@, n),
{
    let mut out: Vec<String> = Vec::new();
    let mut t: usize = 0;
    while t < tools.len()
        invariant
            t <= tools@.len(),
            strictly_sorted(views(out@)),
            forall|n: Seq<char>|
                views(out@).contains(n) <==> exists|i: int| 0 <= i < t && tool_sets(#[trigger] tools@[i], n),
        decreases tools@.len() - t,
    {
        let tool = &tools[t];
        let mut k: usize = 0;
        while k < tool.env.len()
            invariant
                t < tools@.len(),
                tool == &tools@[t as int],
                k <= tool.env@.len(),
                strictly_sorted(views(out@)),
                forall|n: Seq<char>|
                    views(out@).contains(n) <==> (exists|i: int| 0 <= i < t && tool_sets(#[trigger] tools@[i], n)) || exists|j: int|
                        0 <= j < k && (#[trigger] tool.env@[j]).0@ == n,
            decreases tool.env@.len() - k,
        {
            let ghost before = views(out@);
            insert_sorted_unique(&mut out, tool.env[k].0.clone());
            proof {
                assert forall|n: Seq<char>|
                    views(out@).contains(n) <==> (exists|i: int| 0 <= i < t && tool_sets(#[trigger] tools@[i], n)) || exists|j: int|
                        0 <= j < k + 1 && (#[trigger] tool.env@[j]).0@ == n by {
                    assert(views(out@).to_set().contains(n) == views(out@).contains(n));
                    assert(before.to_set().contains(n) == before.contains(n));
                    if n == tool.env@[k as int].0@ {
                        assert(views(out@).to_set().contains(n));
                    }
                }
            }
            k = k + 1;
        }
        proof {
            assert forall|n: Seq<char>|
                views(out@).contains(n) <==> exists|i: int| 0 <= i < t + 1 && tool_sets(#[trigger] tools@[i], n) by {
                if exists|i: int| 0 <= i < t + 1 && tool_sets(#[trigger] tools@[i], n) {
                    let i = choose|i: int| 0 <= i < t + 1 && tool_sets(#[trigger] tools@[i], n);
                    if i == t {
                        let j = choose|j: int| 0 <= j < tool.env@.len() && (#[trigger] tool.env@[j]).0@ == n;
                    }
                }
            }
        }
        t = t + 1;
    }
    out
}

/// The ids of the tools that set `name`, sorted, each once.
fn tools_setting(tools: &[ProjectTool], name: &str) -> (out: Vec<String>)
    ensures
        strictly_sorted(views(out@)),
        forall|id: Seq<char>| views(out@).contains(id) <==> tools_using(tools@, name@, id),
{
    let mut out: Vec<String> = Vec::new();
    let mut t: usize = 0;
    while t < tools.len()
        invariant
            t <= tools@.len(),
            strictly_sorted(views(out@)),
            forall|id: Seq<char>|
                views(out@).contains(id) <==> exists|i: int|
                    0 <= i < t && (#[trigger] tools@[i]).id@ == id && tool_sets(tools@[i], name@),
        decreases tools@.len() - t,
    {
        if tool_sets_exec(&tools[t], name) {
            let ghost before = views(out@);
            insert_sorted_unique(&mut out, tools[t].id.clone());
            proof {
                assert forall|id: Seq<char>|
                    views(out@).contains(id) <==> exists|i: int|
                        0 <= i < t + 1 && (#[trigger] tools@[i]).id@ == id && tool_sets(tools@[i], name@) by {
                    assert(views(out@).to_set().contains(id) == views(out@).contains(id));
                    assert(before.to_set().contains(id) == before.contains(id));
                    if id == tools@[t as int].id@ {
                        assert(views(out@).to_set().contains(id));
                    }
                }
            }
        }
        t = t + 1;
    }
    out
}

/// The variables that the tools set, each with the tools that set it.
pub fn collect_tool_env_usage(tools: &[ProjectTool]) -> (usage: Vec<(String, Vec<String>)>)
    ensures
        usage_of(usage@, tools@),
{
    let names = used_var_names(tools);
    let mut usage: Vec<(String, Vec<String>)> = Vec::new();
    let mut i: usize = 0;
    while i < names.len()
        invariant
            i <= names@.len(),
            strictly_sorted(views(names@)),
            usage@.len() == i,
            forall|k: int| 0 <= k < i ==> (#[trigger] usage@[k]).0@ == names@[k]@,
            forall|k: int|
                0 <= k < i ==> strictly_sorted(views((#[trigger] usage@[k]).1@)) && forall|id: Seq<char>|
                    views(usage@[k].1@).contains(id) <==> tools_using(tools@, usage@[k].0@, id),
        decreases names@.len() - i,
    {
        let ids = tools_setting(tools, names[i].as_str());
        usage.push((names[i].clone(), ids));
        i = i + 1;
    }
    proof {
        assert(usage@.map_values(|u: (String, Vec<String>)| u.0@) =~= views(names@));
        assert forall|n: Seq<char>|
            #[trigger] var_used(tools@, n) <==> exists|k: int| 0 <= k < usage@.len() && (#[trigger] usage@[k]).0@ == n by {
            if var_used(tools@, n) {
                assert(views(names@).contains(n));
                let k = choose|k: int| 0 <= k < views(names@).len() && views(names@)[k] == n;
                assert(usage@[k].0@ == n);
            }
            if exists|k: int| 0 <= k < usage@.len() && (#[trigger] usage@[k]).0@ == n {
                let k = choose|k: int| 0 <= k < usage@.len() && (#[trigger] usage@[k]).0@ == n;
                assert(views(names@)[k] == n);
            }
        }
    }
    usage
}

pub open spec fn opt_trim(d: Option<String>) -> Option<Seq<char>> {
    match d {
        Some(s) => Some(trim_spec(s@)),
        None => None,
    }
}

pub open spec fn opt_str(d: Option<String>) -> Option<Seq<char>> {
    match d {
        Some(s) => Some(s@),
        None => None,
    }
}

/// `o` is `s` with its name and description trimmed.
pub open spec fn trimmed_spec(o: EnvVarSpec, s: EnvVarSpec) -> bool {
    &&& o.name@ == trim_spec(s.name@)
    &&& opt_str(o.description) == opt_trim(s.description)
    &&& o.required == s.required
    &&& o.default == s.default
    &&& o.sensitive == s.sensitive
}

/// The trimmed names of the registry entries.
pub open spec fn trimmed_names(specs: Seq<EnvVarSpec>) -> Seq<Seq<char>> {
    specs.map_values(|s: EnvVarSpec| trim_spec(s.name@))
}

/// Why the registry entries from `i` on are refused, given the names before
/// them: the first empty, malformed or repeated name.
pub open spec fn registry_error(names: Seq<Seq<char>>, i: int) -> Option<Seq<char>>
    decreases names.len() - i,
{
    if i < 0 || i >= names.len() {
        None
    } else if names[i].len() == 0 {
        Some("env registry entry has empty name"@)
    } else if !valid_env_name(names[i]) {
        Some("invalid env var name in registry: "@ + names[i])
    } else if names.take(i).contains(names[i]) {
        Some("duplicate env var in registry: "@ + names[i])
    } else {
        registry_error(names, i + 1)
    }
}

/// The violation of a broken registry file.
pub open spec fn registry_violation(registry_path: Seq<char>, message: Seq<char>) -> ViolationView {
    ViolationView {
        code: "env.registry_invalid"@,
        message,
        path: Some(registry_path),
        details: None,
        tier: ViolationTier::Observation,
    }
}

fn observation(code: &str, message: String, path: &str, details: Option<Details>) -> (v: Violation)
    ensures
        v.code@ == code@,
        v.message == message,
        v.path is Some && v.path.unwrap()@ == path@,
        v.details == details,
        v.tier == ViolationTier::Observation,
{
    Violation::observation(String::from_str(code), message, Some(String::from_str(path)), details)
}

fn trim_entry(s: EnvVarSpec) -> (o: EnvVarSpec)
    ensures
        trimmed_spec(o, s),
{
    let EnvVarSpec { name, description, required, default, sensitive } = s;
    let description = match description {
        Some(d) => Some(trim_str(d.as_str())),
        None => None,
    };
    EnvVarSpec { name: trim_str(name.as_str()), description, required, default, sensitive }
}

/// The names are pairwise different.
pub open spec fn distinct_names(v: Seq<EnvVarSpec>) -> bool {
    forall|a: int, b: int| 0 <= a < v.len() && 0 <= b < v.len() && a != b ==> (#[trigger] v[a]).name@ != (#[trigger] v[b]).name@
}

fn validate_entries(registry_path: &str, specs: Vec<EnvVarSpec>) -> (r: Result<Vec<EnvVarSpec>, Violation>)
    ensures
        match registry_error(trimmed_names(specs@), 0) {
            Some(m) => r is Err && violation_view(r->Err_0) == registry_violation(registry_path@, m),
            None => r is Ok && r->Ok_0@.len() == specs@.len() && distinct_names(r->Ok_0@) && forall|i: int|
                0 <= i < specs@.len() ==> trimmed_spec(#[trigger] r->Ok_0@[i], specs@[i]),
        },
{
    let ghost all = specs@;
    let ghost names = trimmed_names(all);
    let mut rest = specs;
    let mut out: Vec<EnvVarSpec> = Vec::new();
    let mut seen: Vec<String> = Vec::new();
    let ghost mut i: int = 0;
    proof {
        assert(rest@ =~= all.subrange(0, all.len() as int));
    }
    while rest.len() > 0
        invariant
            0 <= i <= all.len(),
            all == specs@,
            names == trimmed_names(all),
            rest@ == all.subrange(i, all.len() as int),
            registry_error(names, 0) == registry_error(names, i),
            views(seen@) == names.take(i),
            out@.len() == i,
            forall|q: int| 0 <= q < i ==> trimmed_spec(#[trigger] out@[q], all[q]),
            distinct_names(out@),
        decreases rest@.len(),
    {
        let s = rest.remove(0);
        proof {
            assert(s == all[i]);
            assert(rest@ =~= all.subrange(i + 1, all.len() as int));
            assert(names[i] == trim_spec(all[i].name@));
        }
        let e = trim_entry(s);
        let name = e.name.as_str();
        proof {
            assert(name@ == names[i]);
        }
        if name.unicode_len() == 0 {
            let v = observation("env.registry_invalid", String::from_str("env registry entry has empty name"), registry_path, None);
            proof {
                assert(registry_error(names, i) == Some("env registry entry has empty name"@));
                assert(registry_error(trimmed_names(specs@), 0) == Some("env registry entry has empty name"@));
                assert(violation_view(v) == registry_violation(registry_path@, "env registry entry has empty name"@));
            }
            return Err(v);
        }
        if !is_valid_env_name(name) {
            let v = observation("env.registry_invalid", concat("invalid env var name in registry: ", name), registry_path, None);
            proof {
                assert(registry_error(names, i) == Some("invalid env var name in registry: "@ + names[i]));
                assert(violation_view(v) == registry_violation(registry_path@, "invalid env var name in registry: "@ + names[i]));
            }
            return Err(v);
        }
        if contains_string(&seen, name) {
            let v = observation("env.registry_invalid", concat("duplicate env var in registry: ", name), registry_path, None);
            proof {
                assert(registry_error(names, i) == Some("duplicate env var in registry: "@ + names[i]));
                assert(violation_view(v) == registry_violation(registry_path@, "duplicate env var in registry: "@ + names[i]));
            }
            return Err(v);
        }
        let ghost bseen = views(seen@);
        seen.push(e.name.clone());
        proof {
            assert(views(seen@) =~= bseen.push(names[i]));
            assert(names.take(i + 1) =~= names.take(i).push(names[i]));
            assert forall|q: int| 0 <= q < i implies out@[q].name@ != e.name@ by {
                assert(names.take(i)[q] == names[q]);
                assert(out@[q].name@ == names[q]);
            }
        }
        out.push(e);
        proof {
            i = i + 1;
        }
    }
    Ok(out)
}

fn sort_specs_by_name(v: Vec<EnvVarSpec>) -> (out: Vec<EnvVarSpec>)
    requires
        distinct_names(v@),
    ensures
        strictly_sorted(out@.map_values(|o: EnvVarSpec| o.name@)),
        out@.to_multiset() == v@.to_multiset(),
{
    broadcast use {vstd::multiset::group_multiset_axioms, vstd::seq_lib::group_to_multiset_ensures};

    let ghost all = v@;
    let mut rest = v;
    let mut out: Vec<EnvVarSpec> = Vec::new();
    let ghost mut i: int = 0;
    proof {
        assert(rest@ =~= all.subrange(0, all.len() as int));
        assert(all.subrange(0, 0) =~= Seq::<EnvVarSpec>::empty());
    }
    while rest.len() > 0
        invariant
            0 <= i <= all.len(),
            distinct_names(all),
            rest@ == all.subrange(i, all.len() as int),
            out@.to_multiset() == all.subrange(0, i).to_multiset(),
            strictly_sorted(out@.map_values(|o: EnvVarSpec| o.name@)),
            forall|q: int| 0 <= q < out@.len() ==> all.subrange(0, i).contains(#[trigger] out@[q]),
        decreases rest@.len(),
    {
        let e = rest.remove(0);
        proof {
            assert(e == all[i]);
            assert(rest@ =~= all.subrange(i + 1, all.len() as int));
        }
        let mut p: usize = 0;
        while p < out.len()
            invariant
                p <= out@.len(),
                p > 0 ==> lex_lt(out@[p - 1].name@, e.name@),
            ensures
                p <= out@.len(),
                p > 0 ==> lex_lt(out@[p - 1].name@, e.name@),
                p < out@.len() ==> !lex_lt(out@[p as int].name@, e.name@),
            decreases out@.len() - p,
        {
            if str_lex(out[p].name.as_str(), e.name.as_str()) != -1 {
                break;
            }
            p = p + 1;
        }
        let ghost old_out = out@;
        let ghost en = e.name@;
        proof {
            if p < old_out.len() {
                lemma_lex_total(old_out[p as int].name@, en);
                let z = choose|z: int| 0 <= z < all.subrange(0, i).len() && all.subrange(0, i)[z] == old_out[p as int];
                assert(all[z] == old_out[p as int]);
                assert(z != i);
                assert(old_out[p as int].name@ != en);
            }
        }
        out.insert(p, e);
        proof {
            let ns = out@.map_values(|o: EnvVarSpec| o.name@);
            let os = old_out.map_values(|o: EnvVarSpec| o.name@);
            assert forall|x: int| 0 <= x < ns.len() - 1 implies lex_lt(#[trigger] ns[x], ns[x + 1]) by {
                if x + 1 < p {
                    let y = x;
                    assert(os[y + 1] == ns[x + 1]);
                    assert(os[y] == ns[x]);
                } else if x + 1 == p {
                    assert(ns[x] == os[x]);
                    assert(ns[x + 1] == en);
                } else if x == p {
                    assert(ns[x] == en);
                    assert(ns[x + 1] == os[x]);
                } else {
                    let y = x - 1;
                    assert(os[y + 1] == ns[x + 1]);
                    assert(os[y] == ns[x]);
                }
            }
            vstd::seq_lib::to_multiset_insert(old_out, p as int, e);
            assert(old_out.insert(p as int, e) =~= out@);
            assert(all.subrange(0, i + 1) =~= all.subrange(0, i).push(e));
            vstd::seq_lib::to_multiset_build(all.subrange(0, i), e);
            assert(out@.to_multiset() =~= all.subrange(0, i + 1).to_multiset());
            assert forall|q: int| 0 <= q < out@.len() implies all.subrange(0, i + 1).contains(#[trigger] out@[q]) by {
                if q < p {
                    assert(out@[q] == old_out[q]);
                    let z = choose|z: int| 0 <= z < all.subrange(0, i).len() && all.subrange(0, i)[z] == old_out[q];
                    assert(all.subrange(0, i + 1)[z] == old_out[q]);
                } else if q > p {
                    assert(out@[q] == old_out[q - 1]);
                    let z = choose|z: int| 0 <= z < all.subrange(0, i).len() && all.subrange(0, i)[z] == old_out[q - 1];
                    assert(all.subrange(0, i + 1)[z] == old_out[q - 1]);
                } else {
                    assert(all.subrange(0, i + 1)[i] == e);
                }
            }
            i = i + 1;
        }
    }
    proof {
        assert(all.subrange(0, all.len() as int) =~= all);
    }
    out
}

/// `o` is one of `specs`, trimmed.
pub open spec fn trimmed_from_some(o: EnvVarSpec, specs: Seq<EnvVarSpec>) -> bool {
    exists|k: int| 0 <= k < specs.len() && trimmed_spec(o, #[trigger] specs[k])
}

/// `s`, trimmed, is one of `out`.
pub open spec fn trimmed_into_some(s: EnvVarSpec, out: Seq<EnvVarSpec>) -> bool {
    exists|i: int| 0 <= i < out.len() && trimmed_spec(#[trigger] out[i], s)
}

/// The registry entries, trimmed and ordered by name; the first empty,
/// malformed or repeated name refuses the registry.
pub fn normalize_env_specs(registry_path: &str, specs: Vec<EnvVarSpec>) -> (r: Result<Vec<EnvVarSpec>, Violation>)
    ensures
        match registry_error(trimmed_names(specs@), 0) {
            Some(m) => r is Err && violation_view(r->Err_0) == registry_violation(registry_path@, m),
            None => r is Ok && {
                let out = r->Ok_0@;
                &&& out.len() == specs@.len()
                &&& strictly_sorted(out.map_values(|o: EnvVarSpec| o.name@))
                &&& forall|i: int| 0 <= i < out.len() ==> trimmed_from_some(#[trigger] out[i], specs@)
                &&& forall|k: int| 0 <= k < specs@.len() ==> trimmed_into_some(#[trigger] specs@[k], out)
            },
        },
{
    broadcast use {vstd::multiset::group_multiset_axioms, vstd::seq_lib::group_to_multiset_ensures};

    let ghost input = specs@;
    assert(input == specs@);
    let v = match validate_entries(registry_path, specs) {
        Ok(v) => v,
        Err(e) => return Err(e),
    };
    let ghost vv = v@;
    let out = sort_specs_by_name(v);
    proof {
        assert(registry_error(trimmed_names(input), 0) is None);
        vstd::seq_lib::to_multiset_len(out@);
        vstd::seq_lib::to_multiset_len(vv);
        assert forall|i: int| 0 <= i < out@.len() implies trimmed_from_some(#[trigger] out@[i], input) by {
            assert(out@.contains(out@[i]));
            assert(vv.to_multiset().contains(out@[i]));
            assert(vv.contains(out@[i]));
            let k = choose|k: int| 0 <= k < vv.len() && vv[k] == out@[i];
            assert(trimmed_spec(vv[k], input[k]));
        }
        assert forall|k: int| 0 <= k < input.len() implies trimmed_into_some(#[trigger] input[k], out@) by {
            assert(vv.contains(vv[k]));
            assert(out@.to_multiset().contains(vv[k]));
            assert(out@.contains(vv[k]));
            let i = choose|i: int| 0 <= i < out@.len() && out@[i] == vv[k];
            assert(trimmed_spec(vv[k], input[k]));
        }
        assert(out@.len() == input.len());
        assert(strictly_sorted(out@.map_values(|o: EnvVarSpec| o.name@)));
    }
    Ok(out)
}

/// Some registry entry has the name `name`.
pub open spec fn registered(specs: Seq<EnvVarSpec>, name: Seq<char>) -> bool {
    exists|k: int| 0 <= k < specs.len() && (#[trigger] specs[k]).name@ == name
}

pub open spec fn plugins_dir() -> Seq<char> {
    ".agents/mcp/compas/plugins"@
}

/// One observation for each variable that tools set and the registry lacks.
pub open spec fn unregistered_violations(
    usage: Seq<(String, Vec<String>)>,
    specs: Seq<EnvVarSpec>,
    registry_path: Seq<char>,
) -> Seq<ViolationView>
    decreases usage.len(),
{
    if usage.len() == 0 {
        Seq::empty()
    } else {
        let rest = unregistered_violations(usage.drop_last(), specs, registry_path);
        let (name, ids) = usage.last();
        if registered(specs, name@) {
            rest
        } else {
            rest.push(
                ViolationView {
                    code: "env.unregistered_usage"@,
                    message: "env var "@ + name@ + " is used by tools but missing in registry "@ + registry_path,
                    path: Some(plugins_dir()),
                    details: Some(
                        seq![
                            ("var"@, DetailValueView::Str(name@)),
                            ("used_by_tools"@, DetailValueView::StrList(views(ids@))),
                            ("registry_path"@, DetailValueView::Str(registry_path)),
                        ],
                    ),
                    tier: ViolationTier::Observation,
                },
            )
        }
    }
}

pub open spec fn redacted(v: Seq<char>, sensitive: bool) -> Seq<char> {
    if sensitive {
        "<redacted>"@
    } else {
        v
    }
}

/// Where the variable's value comes from, and the value as reported: the
/// environment, else the registry default, else nowhere.
pub open spec fn effective_value(spec: EnvVarSpec, value: EnvValue) -> (EffectiveConfigSource, Option<Seq<char>>) {
    match value {
        EnvValue::Utf8(v) => (EffectiveConfigSource::Env, Some(redacted(v@, spec.sensitive))),
        EnvValue::NonUtf8 => (EffectiveConfigSource::Env, Some(redacted("<non-utf8>"@, spec.sensitive))),
        EnvValue::Unset => match spec.default {
            Some(d) => (EffectiveConfigSource::Default, Some(redacted(d@, spec.sensitive))),
            None => (EffectiveConfigSource::Unset, None),
        },
    }
}

/// One observation for each required variable without a value.
pub open spec fn required_violations(specs: Seq<EnvVarSpec>, values: Seq<EnvValue>, registry_path: Seq<char>) -> Seq<
    ViolationView,
>
    decreases specs.len(),
{
    if specs.len() == 0 || values.len() != specs.len() {
        Seq::empty()
    } else {
        let rest = required_violations(specs.drop_last(), values.drop_last(), registry_path);
        let spec = specs.last();
        if spec.required && effective_value(spec, values.last()).0 == EffectiveConfigSource::Unset {
            rest.push(
                ViolationView {
                    code: "env.required_missing"@,
                    message: "required env var "@ + spec.name@ + " is missing and has no default"@,
                    path: Some(registry_path),
                    details: Some(seq![("var"@, DetailValueView::Str(spec.name@))]),
                    tier: ViolationTier::Observation,
                },
            )
        } else {
            rest
        }
    }
}

/// The tools recorded for `name` in `usage`.
pub open spec fn usage_ids(usage: Seq<(String, Vec<String>)>, name: Seq<char>) -> Seq<Seq<char>>
    decreases usage.len(),
{
    if usage.len() == 0 {
        Seq::empty()
    } else if usage[0].0@ == name {
        views(usage[0].1@)
    } else {
        usage_ids(usage.drop_first(), name)
    }
}

/// `e` reports the registry entry `spec` with the environment value `value`.
pub open spec fn entry_fits(e: EffectiveConfigEntry, spec: EnvVarSpec, value: EnvValue, usage: Seq<(String, Vec<String>)>) -> bool {
    &&& e.name@ == spec.name@
    &&& opt_str(e.description) == opt_str(spec.description)
    &&& e.required == spec.required
    &&& e.sensitive == spec.sensitive
    &&& (e.source, opt_str(e.value)) == effective_value(spec, value)
    &&& views(e.used_by_tools@) == usage_ids(usage, spec.name@)
}

fn opt_copy(v: &Option<String>) -> (r: Option<String>)
    ensures
        opt_str(r) == opt_str(*v),
{
    match v {
        Some(s) => Some(s.clone()),
        None => None,
    }
}

fn usage_ids_of(usage: &Vec<(String, Vec<String>)>, name: &str) -> (r: Vec<String>)
    ensures
        views(r@) == usage_ids(usage@, name@),
{
    let mut i: usize = 0;
    proof {
        assert(usage@.subrange(0, usage@.len() as int) =~= usage@);
    }
    while i < usage.len()
        invariant
            i <= usage@.len(),
            usage_ids(usage@, name@) == usage_ids(usage@.subrange(i as int, usage@.len() as int), name@),
        decreases usage@.len() - i,
    {
        proof {
            let t = usage@.subrange(i as int, usage@.len() as int);
            assert(t.drop_first() =~= usage@.subrange(i + 1, usage@.len() as int));
            assert(t[0] == usage@[i as int]);
        }
        if str_eq(usage[i].0.as_str(), name) {
            return copy_strings(usage[i].1.as_slice());
        }
        i = i + 1;
    }
    let v: Vec<String> = Vec::new();
    proof {
        assert(views(v@) =~= Seq::<Seq<char>>::empty());
    }
    v
}

fn is_registered(specs: &Vec<EnvVarSpec>, name: &str) -> (b: bool)
    ensures
        b == registered(specs@, name@),
{
    let mut k: usize = 0;
    while k < specs.len()
        invariant
            k <= specs@.len(),
            forall|j: int| 0 <= j < k ==> (#[trigger] specs@[j]).name@ != name@,
        decreases specs@.len() - k,
    {
        if str_eq(specs[k].name.as_str(), name) {
            return true;
        }
        k = k + 1;
    }
    false
}

fn push_violation(out: &mut Vec<Violation>, v: Violation)
    ensures
        violation_views(final(out)@) == violation_views(old(out)@).push(violation_view(v)),
{
    out.push(v);
    proof {
        assert(violation_views(out@) =~= violation_views(old(out)@).push(violation_view(v)));
    }
}

fn unregistered(usage: &Vec<(String, Vec<String>)>, specs: &Vec<EnvVarSpec>, registry_path: &str) -> (out: Vec<Violation>)
    ensures
        violation_views(out@) == unregistered_violations(usage@, specs@, registry_path@),
{
    let mut out: Vec<Violation> = Vec::new();
    let mut i: usize = 0;
    proof {
        assert(usage@.take(0) =~= Seq::<(String, Vec<String>)>::empty());
        assert(violation_views(out@) =~= Seq::<ViolationView>::empty());
    }
    while i < usage.len()
        invariant
            i <= usage@.len(),
            violation_views(out@) == unregistered_violations(usage@.take(i as int), specs@, registry_path@),
        decreases usage@.len() - i,
    {
        proof {
            assert(usage@.take(i + 1).drop_last() =~= usage@.take(i as int));
            assert(usage@.take(i + 1).last() == usage@[i as int]);
        }
        let name = usage[i].0.as_str();
        if !is_registered(specs, name) {
            let a = concat("env var ", name);
            let b = concat(a.as_str(), " is used by tools but missing in registry ");
            let message = concat(b.as_str(), registry_path);
            let mut fields: Vec<(String, DetailValue)> = Vec::new();
            fields.push((String::from_str("var"), DetailValue::Str(String::from_str(name))));
            fields.push((String::from_str("used_by_tools"), DetailValue::StrList(copy_strings(usage[i].1.as_slice()))));
            fields.push((String::from_str("registry_path"), DetailValue::Str(String::from_str(registry_path))));
            let v = Violation::observation(
                String::from_str("env.unregistered_usage"),
                message,
                Some(String::from_str(".agents/mcp/compas/plugins")),
                Some(Details { fields }),
            );
            proof {
                assert(crate::api::details_view(v.details).unwrap() =~= seq![
                    ("var"@, DetailValueView::Str(name@)),
                    ("used_by_tools"@, DetailValueView::StrList(views(usage@[i as int].1@))),
                    ("registry_path"@, DetailValueView::Str(registry_path@)),
                ]);
            }
            push_violation(&mut out, v);
        }
        i = i + 1;
    }
    proof {
        assert(usage@.take(usage@.len() as int) =~= usage@);
    }
    out
}

/// The result of the check for registry entries ordered by name, the value
/// the environment holds for each, and the tools' variable usage: the
/// unregistered-usage observations, then the missing-required ones, and the
/// effective configuration.
pub fn env_registry_result(
    registry_path: &str,
    usage: &Vec<(String, Vec<String>)>,
    specs: &Vec<EnvVarSpec>,
    values: &Vec<EnvValue>,
) -> (r: EnvRegistryResult)
    requires
        values@.len() == specs@.len(),
    ensures
        violation_views(r.violations@) == unregistered_violations(usage@, specs@, registry_path@) + required_violations(
            specs@,
            values@,
            registry_path@,
        ),
        r.summary.registry_path@ == registry_path@,
        r.summary.registered_vars == specs@.len(),
        views(r.summary.used_vars@) == usage@.map_values(|u: (String, Vec<String>)| u.0@),
        r.summary.entries@.len() == specs@.len(),
        forall|i: int|
            0 <= i < specs@.len() ==> entry_fits(#[trigger] r.summary.entries@[i], specs@[i], values@[i], usage@),
{
    let mut violations = unregistered(usage, specs, registry_path);
    let ghost base = violation_views(violations@);
    let mut entries: Vec<EffectiveConfigEntry> = Vec::new();
    let mut i: usize = 0;
    proof {
        assert(specs@.take(0) =~= Seq::<EnvVarSpec>::empty());
        assert(base + required_violations(specs@.take(0), values@.take(0), registry_path@) =~= base);
    }
    while i < specs.len()
        invariant
            i <= specs@.len(),
            values@.len() == specs@.len(),
            violation_views(violations@) == base + required_violations(specs@.take(i as int), values@.take(i as int), registry_path@),
            entries@.len() == i,
            forall|k: int| 0 <= k < i ==> entry_fits(#[trigger] entries@[k], specs@[k], values@[k], usage@),
        decreases specs@.len() - i,
    {
        proof {
            assert(specs@.take(i + 1).drop_last() =~= specs@.take(i as int));
            assert(values@.take(i + 1).drop_last() =~= values@.take(i as int));
            assert(specs@.take(i + 1).last() == specs@[i as int]);
            assert(values@.take(i + 1).last() == values@[i as int]);
        }
        let spec = &specs[i];
        let (source, value) = match &values[i] {
            EnvValue::Utf8(v) => (EffectiveConfigSource::Env, Some(redact_value(v.clone(), spec.sensitive))),
            EnvValue::NonUtf8 => (
                EffectiveConfigSource::Env,
                Some(redact_value(String::from_str("<non-utf8>"), spec.sensitive)),
            ),
            EnvValue::Unset => match &spec.default {
                Some(d) => (EffectiveConfigSource::Default, Some(redact_value(d.clone(), spec.sensitive))),
                None => (EffectiveConfigSource::Unset, None),
            },
        };
        let ghost before = violation_views(violations@);
        if spec.required && source == EffectiveConfigSource::Unset {
            let a = concat("required env var ", spec.name.as_str());
            let message = concat(a.as_str(), " is missing and has no default");
            let mut fields: Vec<(String, DetailValue)> = Vec::new();
            fields.push((String::from_str("var"), DetailValue::Str(spec.name.clone())));
            let v = Violation::observation(
                String::from_str("env.required_missing"),
                message,
                Some(String::from_str(registry_path)),
                Some(Details { fields }),
            );
            proof {
                assert(crate::api::details_view(v.details).unwrap() =~= seq![("var"@, DetailValueView::Str(spec.name@))]);
            }
            push_violation(&mut violations, v);
            proof {
                assert(base + required_violations(specs@.take(i + 1), values@.take(i + 1), registry_path@) =~= before.push(
                    violation_view(v),
                ));
            }
        }
        entries.push(
            EffectiveConfigEntry {
                name: spec.name.clone(),
                description: opt_copy(&spec.description),
                required: spec.required,
                sensitive: spec.sensitive,
                source,
                value,
                used_by_tools: usage_ids_of(usage, spec.name.as_str()),
            },
        );
        i = i + 1;
    }
    proof {
        assert(specs@.take(specs@.len() as int) =~= specs@);
        assert(values@.take(values@.len() as int) =~= values@);
    }
    let mut used_vars: Vec<String> = Vec::new();
    let mut k: usize = 0;
    while k < usage.len()
        invariant
            k <= usage@.len(),
            views(used_vars@) == usage@.take(k as int).map_values(|u: (String, Vec<String>)| u.0@),
        decreases usage@.len() - k,
    {
        let ghost b = views(used_vars@);
        used_vars.push(usage[k].0.clone());
        proof {
            assert(views(used_vars@) =~= b.push(usage@[k as int].0@));
            assert(usage@.take(k + 1).map_values(|u: (String, Vec<String>)| u.0@) =~= usage@.take(k as int).map_values(
                |u: (String, Vec<String>)| u.0@,
            ).push(usage@[k as int].0@));
        }
        k = k + 1;
    }
    proof {
        assert(usage@.take(usage@.len() as int) =~= usage@);
    }
    let n = entries.len();
    EnvRegistryResult {
        violations,
        summary: EffectiveConfigSummary { registry_path: String::from_str(registry_path), registered_vars: n, used_vars, entries },
    }
}

/// The result when the registry file is missing, unreadable or refused: one
/// observation with `code` and `message`, and no entries.
pub fn env_registry_failure(
    registry_path: &str,
    usage: &Vec<(String, Vec<String>)>,
    code: &str,
    message: String,
) -> (r: EnvRegistryResult)
    ensures
        r.violations@.len() == 1,
        violation_view(r.violations@[0]) == (ViolationView {
            code: code@,
            message: message@,
            path: Some(registry_path@),
            details: None,
            tier: ViolationTier::Observation,
        }),
        r.summary.registry_path@ == registry_path@,
        r.summary.registered_vars == 0,
        views(r.summary.used_vars@) == usage@.map_values(|u: (String, Vec<String>)| u.0@),
        r.summary.entries@.len() == 0,
{
    let mut used_vars: Vec<String> = Vec::new();
    let mut k: usize = 0;
    while k < usage.len()
        invariant
            k <= usage@.len(),
            views(used_vars@) == usage@.take(k as int).map_values(|u: (String, Vec<String>)| u.0@),
        decreases usage@.len() - k,
    {
        let ghost b = views(used_vars@);
        used_vars.push(usage[k].0.clone());
        proof {
            assert(views(used_vars@) =~= b.push(usage@[k as int].0@));
            assert(usage@.take(k + 1).map_values(|u: (String, Vec<String>)| u.0@) =~= usage@.take(k as int).map_values(
                |u: (String, Vec<String>)| u.0@,
            ).push(usage@[k as int].0@));
        }
        k = k + 1;
    }
    proof {
        assert(usage@.take(usage@.len() as int) =~= usage@);
    }
    let mut violations: Vec<Violation> = Vec::new();
    violations.push(observation(code, message, registry_path, None));
    EnvRegistryResult {
        violations,
        summary: EffectiveConfigSummary {
            registry_path: String::from_str(registry_path),
            registered_vars: 0,
            used_vars,
            entries: Vec::new(),
        },
    }
}

/// A sensitive variable's value is never reported: an entry that fits a
/// sensitive registry entry shows `<redacted>` or nothing.
pub proof fn law_sensitive_values_are_redacted(
    e: EffectiveConfigEntry,
    spec: EnvVarSpec,
    value: EnvValue,
    usage: Seq<(String, Vec<String>)>,
)
    requires
        entry_fits(e, spec, value, usage),
        spec.sensitive,
    ensures
        e.value is None || e.value.unwrap()@ == "<redacted>"@,
{
}

/// A value the environment holds wins over the registry default: the entry
/// reports it as coming from the environment, with that very text (or
/// `<redacted>` for a sensitive variable), whatever default is registered.
pub proof fn law_environment_value_wins_over_default(
    e: EffectiveConfigEntry,
    spec: EnvVarSpec,
    v: String,
    usage: Seq<(String, Vec<String>)>,
)
    requires
        entry_fits(e, spec, EnvValue::Utf8(v), usage),
    ensures
        e.source == EffectiveConfigSource::Env,
        e.value is Some,
        !spec.sensitive ==> e.value.unwrap()@ == v@,
        spec.sensitive ==> e.value.unwrap()@ == "<redacted>"@,
{
}

/// A value the environment holds but that is not UTF-8 still comes from the
/// environment, reported as `<non-utf8>` (or `<redacted>` when sensitive).
pub proof fn law_non_utf8_value_comes_from_environment(
    e: EffectiveConfigEntry,
    spec: EnvVarSpec,
    usage: Seq<(String, Vec<String>)>,
)
    requires
        entry_fits(e, spec, EnvValue::NonUtf8, usage),
    ensures
        e.source == EffectiveConfigSource::Env,
        e.value is Some,
        !spec.sensitive ==> e.value.unwrap()@ == "<non-utf8>"@,
        spec.sensitive ==> e.value.unwrap()@ == "<redacted>"@,
{
}

/// With nothing in the environment the registry default is reported, marked
/// as such; with no default either, the entry has no value and is unset.
pub proof fn law_unset_value_falls_back_to_default(
    e: EffectiveConfigEntry,
    spec: EnvVarSpec,
    usage: Seq<(String, Vec<String>)>,
)
    requires
        entry_fits(e, spec, EnvValue::Unset, usage),
    ensures
        spec.default is Some ==> e.source == EffectiveConfigSource::Default && e.value is Some,
        spec.default is Some && !spec.sensitive ==> e.value.unwrap()@ == spec.default.unwrap()@,
        spec.default is Some && spec.sensitive ==> e.value.unwrap()@ == "<redacted>"@,
        spec.default is None ==> e.source == EffectiveConfigSource::Unset && e.value is None,
{
}

} // verus!
