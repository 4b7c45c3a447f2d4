//! Supply chain: the dependency manifests and lockfiles of the repository
//! walk, lockfiles that are missing, and prerelease dependencies that the
//! Rust and Node manifests declare.

use crate::api::{DetailValue, DetailValueView, Details, Violation, ViolationTier, ViolationView, violation_views};
use crate::checks::{
    ManifestKind, ManifestScan, cargo_scan, file_name_of, lockfile_violations_spec, manifest_kind_spec, prerelease_spec,
    prerelease_view,
};
use crate::config::SupplyChainCheckConfigV2;
use crate::csv::{split_on, views};
use crate::order::sorted_seq;
use crate::text::concat;
use vstd::prelude::*;

verus! {

/// The outcome of the supply chain check.
pub struct SupplyChainCheckResult {
    pub violations: Vec<Violation>,
}

/// The paths of the walk whose file name is of the given kind, in walk order.
pub open spec fn paths_of_kind(paths: Seq<Seq<char>>, kind: ManifestKind) -> Seq<Seq<char>>
    decreases paths.len(),
{
    if paths.len() == 0 {
        Seq::empty()
    } else {
        paths_of_kind(paths.drop_last(), kind) + if manifest_kind_spec(file_name_of(paths.last())) == kind {
            seq![paths.last()]
        } else {
            Seq::empty()
        }
    }
}

/// Some path of the walk has a file name of the given kind.
pub open spec fn has_kind(paths: Seq<Seq<char>>, kind: ManifestKind) -> bool {
    exists|i: int| 0 <= i < paths.len() && manifest_kind_spec(file_name_of(#[trigger] paths[i])) == kind
}

/// `list` holds the paths of the kind, sorted.
pub open spec fn sorted_kind(list: Seq<Seq<char>>, paths: Seq<Seq<char>>, kind: ManifestKind) -> bool {
    sorted_seq(list) && list.to_multiset() == paths_of_kind(paths, kind).to_multiset()
}

fn kind_of(path: &String) -> (k: ManifestKind)
    ensures
        k == manifest_kind_spec(file_name_of(path@)),
{
    let cs = crate::text::chars_of(path.as_str());
    let name = crate::checks::file_name_chars(&cs);
    crate::checks::manifest_kind(crate::text::string_of(name.as_slice()).as_str())
}

/// The manifests and lockfiles among the paths of the walk (directories that
/// are not descended are already left out): each manifest list sorted, and
/// whether each ecosystem has a lockfile.
pub fn scan_manifests(paths: &Vec<String>) -> (scan: ManifestScan)
    ensures
        sorted_kind(views(scan.rust_manifest_paths@), views(paths@), ManifestKind::RustManifest),
        sorted_kind(views(scan.node_manifest_paths@), views(paths@), ManifestKind::NodeManifest),
        sorted_kind(views(scan.python_manifest_paths@), views(paths@), ManifestKind::PythonManifest),
        scan.rust_lock_present == has_kind(views(paths@), ManifestKind::RustLock),
        scan.node_lock_present == has_kind(views(paths@), ManifestKind::NodeLock),
        scan.python_lock_present == has_kind(views(paths@), ManifestKind::PythonLock),
{
    let ghost pv = views(paths@);
    let mut rust: Vec<String> = Vec::new();
    let mut node: Vec<String> = Vec::new();
    let mut python: Vec<String> = Vec::new();
    let mut rust_lock = false;
    let mut node_lock = false;
    let mut python_lock = false;
    let mut i: usize = 0;
    proof {
        assert(pv.take(0) =~= Seq::<Seq<char>>::empty());
        assert(views(rust@) =~= Seq::<Seq<char>>::empty());
        assert(views(node@) =~= Seq::<Seq<char>>::empty());
        assert(views(python@) =~= Seq::<Seq<char>>::empty());
    }
    while i < paths.len()
        invariant
            pv == views(paths@),
            i <= pv.len(),
            views(rust@) == paths_of_kind(pv.take(i as int), ManifestKind::RustManifest),
            views(node@) == paths_of_kind(pv.take(i as int), ManifestKind::NodeManifest),
            views(python@) == paths_of_kind(pv.take(i as int), ManifestKind::PythonManifest),
            rust_lock == has_kind(pv.take(i as int), ManifestKind::RustLock),
            node_lock == has_kind(pv.take(i as int), ManifestKind::NodeLock),
            python_lock == has_kind(pv.take(i as int), ManifestKind::PythonLock),
        decreases pv.len() - i,
    {
        proof {
            assert(pv.take(i + 1).drop_last() =~= pv.take(i as int));
            assert(pv.take(i + 1).last() == paths@[i as int]@);
        }
        let k = kind_of(&paths[i]);
        let ghost r0 = views(rust@);
        let ghost n0 = views(node@);
        let ghost p0 = views(python@);
        match k {
            ManifestKind::RustManifest => {
                rust.push(paths[i].clone());
            },
            ManifestKind::RustLock => {
                rust_lock = true;
            },
            ManifestKind::NodeManifest => {
                node.push(paths[i].clone());
            },
            ManifestKind::NodeLock => {
                node_lock = true;
            },
            ManifestKind::PythonManifest => {
                python.push(paths[i].clone());
            },
            ManifestKind::PythonLock => {
                python_lock = true;
            },
            ManifestKind::Other => {},
        }
        proof {
            let t = pv.take(i + 1);
            let hit = |kind: ManifestKind| manifest_kind_spec(file_name_of(pv[i as int])) == kind;
            assert(views(rust@) =~= r0 + if hit(ManifestKind::RustManifest) { seq![pv[i as int]] } else { Seq::<Seq<char>>::empty() });
            assert(views(node@) =~= n0 + if hit(ManifestKind::NodeManifest) { seq![pv[i as int]] } else { Seq::<Seq<char>>::empty() });
            assert(views(python@) =~= p0 + if hit(ManifestKind::PythonManifest) { seq![pv[i as int]] } else { Seq::<Seq<char>>::empty() });
            assert forall|kind: ManifestKind| has_kind(t, kind) == (has_kind(pv.take(i as int), kind) || hit(kind)) by {
                if has_kind(t, kind) {
                    let j = choose|j: int| 0 <= j < t.len() && manifest_kind_spec(file_name_of(#[trigger] t[j])) == kind;
                    if j < i {
                        assert(pv.take(i as int)[j] == t[j]);
                    }
                }
                if has_kind(pv.take(i as int), kind) {
                    let j = choose|j: int| 0 <= j < i && manifest_kind_spec(file_name_of(#[trigger] pv.take(i as int)[j])) == kind;
                    assert(t[j] == pv.take(i as int)[j]);
                }
                if hit(kind) {
                    assert(t[i as int] == pv[i as int]);
                }
            }
        }
        i = i + 1;
    }
    proof {
        assert(pv.take(pv.len() as int) =~= pv);
    }
    ManifestScan {
        rust_manifest_paths: crate::order::sort_strings(rust),
        rust_lock_present: rust_lock,
        node_manifest_paths: crate::order::sort_strings(node),
        node_lock_present: node_lock,
        python_manifest_paths: crate::order::sort_strings(python),
        python_lock_present: python_lock,
    }
}

/// What `serde_json` finds under the top-level key `key` of the JSON text
/// `raw`: the parse error's text; nothing where the key is absent or not an
/// object; else the object's entries in the map's order, each with its value
/// where that is a string.
pub uninterp spec fn json_object_entries(raw: Seq<char>, key: Seq<char>) -> Result<
    Option<Seq<(Seq<char>, Option<Seq<char>>)>>,
    Seq<char>,
>;

pub open spec fn entry_views(v: Seq<(String, Option<String>)>) -> Seq<(Seq<char>, Option<Seq<char>>)> {
    v.map_values(|e: (String, Option<String>)| (e.0@, crate::cli::opt_view(e.1)))
}

/// `serde_json::from_str` into a `serde_json::Value`, then `Value::get(key)`
/// and `Value::as_object`, each entry's value taken by `Value::as_str`.
#[verifier::external_body]
fn json_entries(raw: &str, key: &str) -> (r: Result<Option<Vec<(String, Option<String>)>>, String>)
    ensures
        match r {
            Err(e) => json_object_entries(raw@, key@) == Err::<Option<Seq<(Seq<char>, Option<Seq<char>>)>>, _>(e@),
            Ok(None) => json_object_entries(raw@, key@) == Ok::<_, Seq<char>>(None::<Seq<(Seq<char>, Option<Seq<char>>)>>),
            Ok(Some(v)) => json_object_entries(raw@, key@) == Ok::<_, Seq<char>>(Some(entry_views(v@))),
        },
{
    let parsed: serde_json::Value = match serde_json::from_str(raw) {
        Ok(v) => v,
        Err(e) => return Err(e.to_string()),
    };
    let map = match parsed.get(key) {
        Some(serde_json::Value::Object(m)) => m,
        _ => return Ok(None),
    };
    let mut out = Vec::new();
    for (k, v) in map.iter() {
        out.push((k.clone(), if let serde_json::Value::String(t) = v { Some(t.clone()) } else { None }));
    }
    Ok(Some(out))
}

/// The prerelease dependencies of one section's entries, in order, skipping
/// names already taken.
pub open spec fn section_prereleases(
    entries: Seq<(Seq<char>, Option<Seq<char>>)>,
    seen: Seq<(Seq<char>, Seq<char>)>,
) -> Seq<(Seq<char>, Seq<char>)>
    decreases entries.len(),
{
    if entries.len() == 0 {
        seen
    } else {
        let prev = section_prereleases(entries.drop_last(), seen);
        let e = entries.last();
        match e.1 {
            Some(v) => if prerelease_spec(v) && !prev.map_values(|d: (Seq<char>, Seq<char>)| d.0).contains(e.0) {
                prev.push((e.0, v))
            } else {
                prev
            },
            None => prev,
        }
    }
}

/// The sections of `package.json` that hold dependencies, in order.
pub open spec fn dependency_sections() -> Seq<Seq<char>> {
    seq!["dependencies"@, "devDependencies"@, "peerDependencies"@, "optionalDependencies"@]
}

/// The prerelease dependencies of a `package.json` text, sections in order,
/// each name once; or the parse failure's message.
pub open spec fn node_prereleases_from(raw: Seq<char>, i: int, acc: Seq<(Seq<char>, Seq<char>)>) -> Result<
    Seq<(Seq<char>, Seq<char>)>,
    Seq<char>,
>
    decreases 4 - i,
{
    if 0 <= i < 4 {
        match json_object_entries(raw, dependency_sections()[i]) {
            Err(e) => Err("failed to parse package.json: "@ + e),
            Ok(None) => node_prereleases_from(raw, i + 1, acc),
            Ok(Some(entries)) => node_prereleases_from(raw, i + 1, section_prereleases(entries, acc)),
        }
    } else {
        Ok(acc)
    }
}

pub open spec fn dep_views(deps: Seq<(String, String)>) -> Seq<(Seq<char>, Seq<char>)> {
    deps.map_values(|d: (String, String)| (d.0@, d.1@))
}

fn names_contain(deps: &Vec<(String, String)>, name: &String) -> (b: bool)
    ensures
        b == dep_views(deps@).map_values(|d: (Seq<char>, Seq<char>)| d.0).contains(name@),
{
    let ghost names = dep_views(deps@).map_values(|d: (Seq<char>, Seq<char>)| d.0);
    let mut i: usize = 0;
    while i < deps.len()
        invariant
            names == dep_views(deps@).map_values(|d: (Seq<char>, Seq<char>)| d.0),
            i <= deps@.len(),
            forall|k: int| 0 <= k < i ==> names[k] != name@,
        decreases deps@.len() - i,
    {
        if crate::text::str_eq(deps[i].0.as_str(), name.as_str()) {
            proof {
                assert(names[i as int] == name@);
            }
            return true;
        }
        i = i + 1;
    }
    false
}

fn add_section(entries: &Vec<(String, Option<String>)>, out: &mut Vec<(String, String)>)
    ensures
        dep_views(final(out)@) == section_prereleases(entry_views(entries@), dep_views(old(out)@)),
{
    let ghost ev = entry_views(entries@);
    let ghost start = dep_views(out@);
    let mut i: usize = 0;
    proof {
        assert(ev.take(0) =~= Seq::<(Seq<char>, Option<Seq<char>>)>::empty());
    }
    while i < entries.len()
        invariant
            ev == entry_views(entries@),
            i <= ev.len(),
            dep_views(out@) == section_prereleases(ev.take(i as int), start),
        decreases ev.len() - i,
    {
        proof {
            assert(ev.take(i + 1).drop_last() =~= ev.take(i as int));
            assert(ev.take(i + 1).last() == (entries@[i as int].0@, crate::cli::opt_view(entries@[i as int].1)));
        }
        let ghost before = dep_views(out@);
        match &entries[i].1 {
            Some(v) => {
                if crate::checks::looks_prerelease_version(v.as_str()) && !names_contain(out, &entries[i].0) {
                    out.push((entries[i].0.clone(), v.clone()));
                    proof {
                        assert(dep_views(out@) =~= before.push((entries@[i as int].0@, v@)));
                    }
                }
            },
            None => {},
        }
        i = i + 1;
    }
    proof {
        assert(ev.take(ev.len() as int) =~= ev);
    }
}

/// The prerelease dependencies of a `package.json` text (see
/// `node_prereleases_from`).
pub fn scan_package_json_prerelease_deps(raw: &str) -> (r: Result<Vec<(String, String)>, String>)
    ensures
        match r {
            Ok(v) => node_prereleases_from(raw@, 0, Seq::empty()) == Ok::<_, Seq<char>>(dep_views(v@)),
            Err(e) => node_prereleases_from(raw@, 0, Seq::empty()) == Err::<Seq<(Seq<char>, Seq<char>)>, _>(e@),
        },
{
    let mut out: Vec<(String, String)> = Vec::new();
    proof {
        assert(dep_views(out@) =~= Seq::<(Seq<char>, Seq<char>)>::empty());
    }
    let sections = ["dependencies", "devDependencies", "peerDependencies", "optionalDependencies"];
    let mut i: usize = 0;
    while i < 4
        invariant
            i <= 4,
            sections@.len() == 4,
            forall|k: int| 0 <= k < 4 ==> (#[trigger] sections@[k])@ == dependency_sections()[k],
            node_prereleases_from(raw@, 0, Seq::empty()) == node_prereleases_from(raw@, i as int, dep_views(out@)),
        decreases 4 - i,
    {
        match json_entries(raw, sections[i]) {
            Err(e) => {
                return Err(concat("failed to parse package.json: ", e.as_str()));
            },
            Ok(None) => {},
            Ok(Some(entries)) => {
                add_section(&entries, &mut out);
            },
        }
        i = i + 1;
    }
    Ok(out)
}

/// A read failure of a manifest.
pub open spec fn read_failed_view(ecosystem: Seq<char>, rel: Seq<char>, e: Seq<char>) -> ViolationView {
    ViolationView {
        code: "supply_chain.read_failed"@,
        message: "failed to read manifest "@ + rel + ": "@ + e,
        path: Some(rel),
        details: Some(seq![("ecosystem"@, DetailValueView::Str(ecosystem))]),
        tier: ViolationTier::Blocking,
    }
}

pub open spec fn prerelease_views(ecosystem: Seq<char>, rel: Seq<char>, deps: Seq<(Seq<char>, Seq<char>)>) -> Seq<ViolationView> {
    deps.map_values(|d: (Seq<char>, Seq<char>)| prerelease_view(ecosystem, rel, d))
}

/// What the Rust manifests give, path by path: a read failure, or the
/// prerelease dependencies of the text.
pub open spec fn rust_manifest_views(paths: Seq<Seq<char>>, texts: Seq<Result<String, String>>) -> Seq<ViolationView>
    decreases paths.len(),
{
    if paths.len() == 0 || texts.len() != paths.len() {
        Seq::empty()
    } else {
        rust_manifest_views(paths.drop_last(), texts.drop_last()) + match texts.last() {
            Err(e) => seq![read_failed_view("rust"@, paths.last(), e@)],
            Ok(raw) => prerelease_views("rust"@, paths.last(), cargo_scan(split_on(raw@, '\n')).1),
        }
    }
}

/// What the Node manifests give, path by path: a read failure, the parse
/// failure, or the prerelease dependencies.
pub open spec fn node_manifest_views(paths: Seq<Seq<char>>, texts: Seq<Result<String, String>>) -> Seq<ViolationView>
    decreases paths.len(),
{
    if paths.len() == 0 || texts.len() != paths.len() {
        Seq::empty()
    } else {
        node_manifest_views(paths.drop_last(), texts.drop_last()) + match texts.last() {
            Err(e) => seq![read_failed_view("node"@, paths.last(), e@)],
            Ok(raw) => match node_prereleases_from(raw@, 0, Seq::empty()) {
                Ok(deps) => prerelease_views("node"@, paths.last(), deps),
                Err(m) => seq![
                    ViolationView {
                        code: "supply_chain.manifest_parse_failed"@,
                        message: m,
                        path: Some(paths.last()),
                        details: Some(seq![("ecosystem"@, DetailValueView::Str("node"@))]),
                        tier: ViolationTier::Blocking,
                    },
                ],
            },
        }
    }
}

fn ecosystem_details(ecosystem: &str) -> (d: Details)
    ensures
        crate::api::details_view(Some(d)).unwrap() == seq![("ecosystem"@, DetailValueView::Str(ecosystem@))],
{
    let mut fields: Vec<(String, DetailValue)> = Vec::new();
    fields.push((String::from_str("ecosystem"), DetailValue::Str(String::from_str(ecosystem))));
    let d = Details { fields };
    proof {
        assert(crate::api::details_view(Some(d)).unwrap() =~= seq![("ecosystem"@, DetailValueView::Str(ecosystem@))]);
    }
    d
}

fn read_failed(ecosystem: &str, rel: &String, e: &String) -> (v: Violation)
    ensures
        crate::api::violation_view(v) == read_failed_view(ecosystem@, rel@, e@),
{
    let a = concat("failed to read manifest ", rel.as_str());
    let b = concat(a.as_str(), ": ");
    let m = concat(b.as_str(), e.as_str());
    Violation::blocking(String::from_str("supply_chain.read_failed"), m, Some(rel.clone()), Some(ecosystem_details(ecosystem)))
}

fn push_prereleases(ecosystem: &str, rel: &String, deps: &Vec<(String, String)>, out: &mut Vec<Violation>)
    ensures
        violation_views(final(out)@) == violation_views(old(out)@) + prerelease_views(ecosystem@, rel@, dep_views(deps@)),
{
    let mut vs = crate::checks::prerelease_violations(ecosystem, rel.as_str(), deps);
    let ghost before = violation_views(out@);
    let ghost added = violation_views(vs@);
    out.append(&mut vs);
    proof {
        assert(added =~= prerelease_views(ecosystem@, rel@, dep_views(deps@)));
        assert(violation_views(out@) =~= before + added);
    }
}

/// The supply chain check over the scan of the walk and the texts of its Rust
/// and Node manifests (in the scan's order, each text or the error of reading
/// it): the missing lockfiles, then the Rust manifests' prerelease
/// dependencies, then the Node manifests'.
pub fn run_supply_chain_check(
    cfg: &SupplyChainCheckConfigV2,
    scan: &ManifestScan,
    rust_texts: &Vec<Result<String, String>>,
    node_texts: &Vec<Result<String, String>>,
) -> (r: SupplyChainCheckResult)
    requires
        rust_texts@.len() == scan.rust_manifest_paths@.len(),
        node_texts@.len() == scan.node_manifest_paths@.len(),
    ensures
        violation_views(r.violations@) == lockfile_violations_spec(*scan) + rust_manifest_views(
            views(scan.rust_manifest_paths@),
            rust_texts@,
        ) + node_manifest_views(views(scan.node_manifest_paths@), node_texts@),
{
    let mut violations = crate::checks::lockfile_violations(scan);
    let ghost lock = violation_views(violations@);
    let ghost rp = views(scan.rust_manifest_paths@);
    let mut i: usize = 0;
    proof {
        assert(rp.take(0) =~= Seq::<Seq<char>>::empty());
        assert(rust_texts@.take(0) =~= Seq::<Result<String, String>>::empty());
        assert(violation_views(violations@) =~= lock + rust_manifest_views(rp.take(0), rust_texts@.take(0)));
    }
    while i < rust_texts.len()
        invariant
            rp == views(scan.rust_manifest_paths@),
            rust_texts@.len() == rp.len(),
            i <= rp.len(),
            violation_views(violations@) == lock + rust_manifest_views(rp.take(i as int), rust_texts@.take(i as int)),
        decreases rp.len() - i,
    {
        proof {
            assert(rp.take(i + 1).drop_last() =~= rp.take(i as int));
            assert(rust_texts@.take(i + 1).drop_last() =~= rust_texts@.take(i as int));
            assert(rp.take(i + 1).last() == scan.rust_manifest_paths@[i as int]@);
            assert(rust_texts@.take(i + 1).last() == rust_texts@[i as int]);
        }
        let rel = &scan.rust_manifest_paths[i];
        let ghost before = violation_views(violations@);
        match &rust_texts[i] {
            Err(e) => {
                violations.push(read_failed("rust", rel, e));
                proof {
                    assert(violation_views(violations@) =~= before + seq![read_failed_view("rust"@, rel@, e@)]);
                }
            },
            Ok(raw) => {
                let deps = crate::checks::scan_cargo_prerelease_deps(raw.as_str());
                proof {
                    assert(dep_views(deps@) =~= cargo_scan(split_on(raw@, '\n')).1);
                }
                push_prereleases("rust", rel, &deps, &mut violations);
            },
        }
        i = i + 1;
    }
    proof {
        assert(rp.take(rp.len() as int) =~= rp);
        assert(rust_texts@.take(rp.len() as int) =~= rust_texts@);
    }
    let ghost mid = violation_views(violations@);
    let ghost np = views(scan.node_manifest_paths@);
    let mut j: usize = 0;
    proof {
        assert(np.take(0) =~= Seq::<Seq<char>>::empty());
        assert(node_texts@.take(0) =~= Seq::<Result<String, String>>::empty());
        assert(violation_views(violations@) =~= mid + node_manifest_views(np.take(0), node_texts@.take(0)));
    }
    while j < node_texts.len()
        invariant
            np == views(scan.node_manifest_paths@),
            node_texts@.len() == np.len(),
            j <= np.len(),
            violation_views(violations@) == mid + node_manifest_views(np.take(j as int), node_texts@.take(j as int)),
        decreases np.len() - j,
    {
        proof {
            assert(np.take(j + 1).drop_last() =~= np.take(j as int));
            assert(node_texts@.take(j + 1).drop_last() =~= node_texts@.take(j as int));
            assert(np.take(j + 1).last() == scan.node_manifest_paths@[j as int]@);
            assert(node_texts@.take(j + 1).last() == node_texts@[j as int]);
        }
        let rel = &scan.node_manifest_paths[j];
        let ghost before = violation_views(violations@);
        match &node_texts[j] {
            Err(e) => {
                violations.push(read_failed("node", rel, e));
                proof {
                    assert(violation_views(violations@) =~= before + seq![read_failed_view("node"@, rel@, e@)]);
                }
            },
            Ok(raw) => match scan_package_json_prerelease_deps(raw.as_str()) {
                Ok(deps) => {
                    push_prereleases("node", rel, &deps, &mut violations);
                },
                Err(m) => {
                    let ghost mv = m@;
                    violations.push(
                        Violation::blocking(
                            String::from_str("supply_chain.manifest_parse_failed"),
                            m,
                            Some(rel.clone()),
                            Some(ecosystem_details("node")),
                        ),
                    );
                    proof {
                        assert(violation_views(violations@) =~= before + seq![
                            ViolationView {
                                code: "supply_chain.manifest_parse_failed"@,
                                message: mv,
                                path: Some(rel@),
                                details: Some(seq![("ecosystem"@, DetailValueView::Str("node"@))]),
                                tier: ViolationTier::Blocking,
                            },
                        ]);
                    }
                },
            },
        }
        j = j + 1;
    }
    proof {
        assert(np.take(np.len() as int) =~= np);
        assert(node_texts@.take(np.len() as int) =~= node_texts@);
    }
    SupplyChainCheckResult { violations }
}


/// `seen` stays at the front of what a section adds to it.
proof fn lemma_section_keeps(entries: Seq<(Seq<char>, Option<Seq<char>>)>, seen: Seq<(Seq<char>, Seq<char>)>)
    ensures
        section_prereleases(entries, seen).len() >= seen.len(),
        forall|k: int| 0 <= k < seen.len() ==> section_prereleases(entries, seen)[k] == seen[k],
    decreases entries.len(),
{
    if entries.len() > 0 {
        lemma_section_keeps(entries.drop_last(), seen);
    }
}

/// A prerelease entry of a section leaves its name among what the section gives.
proof fn lemma_section_has(
    entries: Seq<(Seq<char>, Option<Seq<char>>)>,
    seen: Seq<(Seq<char>, Seq<char>)>,
    j: int,
    n: Seq<char>,
    v: Seq<char>,
)
    requires
        0 <= j < entries.len(),
        entries[j] == (n, Some(v)),
        prerelease_spec(v),
    ensures
        exists|k: int|
            0 <= k < section_prereleases(entries, seen).len() && (#[trigger] section_prereleases(entries, seen)[k]).0 == n,
    decreases entries.len(),
{
    let prev = section_prereleases(entries.drop_last(), seen);
    let all = section_prereleases(entries, seen);
    lemma_section_keeps(entries.drop_last(), seen);
    if j < entries.len() - 1 {
        lemma_section_has(entries.drop_last(), seen, j, n, v);
        let k = choose|k: int| 0 <= k < prev.len() && (#[trigger] prev[k]).0 == n;
        assert(all[k] == prev[k]);
    } else {
        let names = prev.map_values(|d: (Seq<char>, Seq<char>)| d.0);
        if names.contains(n) {
            let k = choose|k: int| 0 <= k < names.len() && names[k] == n;
            assert(prev[k].0 == n);
            assert(all[k] == prev[k]);
        } else {
            assert(all[prev.len() as int].0 == n);
        }
    }
}

/// What the sections from `i` on add keeps `acc` at the front.
proof fn lemma_sections_keep(raw: Seq<char>, i: int, acc: Seq<(Seq<char>, Seq<char>)>, res: Seq<(Seq<char>, Seq<char>)>)
    requires
        node_prereleases_from(raw, i, acc) == Ok::<_, Seq<char>>(res),
    ensures
        res.len() >= acc.len(),
        forall|k: int| 0 <= k < acc.len() ==> res[k] == acc[k],
    decreases 4 - i,
{
    if 0 <= i < 4 {
        match json_object_entries(raw, dependency_sections()[i]) {
            Err(_) => {},
            Ok(None) => lemma_sections_keep(raw, i + 1, acc, res),
            Ok(Some(entries)) => {
                lemma_section_keeps(entries, acc);
                lemma_sections_keep(raw, i + 1, section_prereleases(entries, acc), res);
            },
        }
    }
}

proof fn lemma_sections_report(
    raw: Seq<char>,
    i: int,
    acc: Seq<(Seq<char>, Seq<char>)>,
    res: Seq<(Seq<char>, Seq<char>)>,
    idx: int,
    entries: Seq<(Seq<char>, Option<Seq<char>>)>,
    j: int,
    n: Seq<char>,
    v: Seq<char>,
)
    requires
        0 <= i <= idx < 4,
        node_prereleases_from(raw, i, acc) == Ok::<_, Seq<char>>(res),
        json_object_entries(raw, dependency_sections()[idx]) == Ok::<_, Seq<char>>(Some(entries)),
        0 <= j < entries.len(),
        entries[j] == (n, Some(v)),
        prerelease_spec(v),
    ensures
        exists|k: int| 0 <= k < res.len() && (#[trigger] res[k]).0 == n,
    decreases 4 - i,
{
    if i == idx {
        let s = section_prereleases(entries, acc);
        lemma_section_has(entries, acc, j, n, v);
        lemma_sections_keep(raw, i + 1, s, res);
        let k = choose|k: int| 0 <= k < s.len() && (#[trigger] s[k]).0 == n;
        assert(res[k] == s[k]);
    } else {
        match json_object_entries(raw, dependency_sections()[i]) {
            Err(_) => {},
            Ok(None) => lemma_sections_report(raw, i + 1, acc, res, idx, entries, j, n, v),
            Ok(Some(es)) => lemma_sections_report(raw, i + 1, section_prereleases(es, acc), res, idx, entries, j, n, v),
        }
    }
}

/// A prerelease version listed under any of `dependencies`,
/// `devDependencies`, `peerDependencies` or `optionalDependencies` of a
/// `package.json` puts its package name among the reported dependencies.
pub proof fn law_prerelease_in_any_section_is_reported(
    raw: Seq<char>,
    key: Seq<char>,
    entries: Seq<(Seq<char>, Option<Seq<char>>)>,
    name: Seq<char>,
    version: Seq<char>,
    res: Seq<(Seq<char>, Seq<char>)>,
)
    requires
        key == "dependencies"@ || key == "devDependencies"@ || key == "peerDependencies"@ || key
            == "optionalDependencies"@,
        json_object_entries(raw, key) == Ok::<_, Seq<char>>(Some(entries)),
        entries.contains((name, Some(version))),
        prerelease_spec(version),
        node_prereleases_from(raw, 0, Seq::empty()) == Ok::<_, Seq<char>>(res),
    ensures
        exists|k: int| 0 <= k < res.len() && (#[trigger] res[k]).0 == name,
{
    let j = choose|j: int| 0 <= j < entries.len() && entries[j] == (name, Some(version));
    let idx: int = if key == "dependencies"@ {
        0
    } else if key == "devDependencies"@ {
        1
    } else if key == "peerDependencies"@ {
        2
    } else {
        3
    };
    assert(dependency_sections()[idx] == key);
    lemma_sections_report(raw, 0, Seq::empty(), res, idx, entries, j, name, version);
}

} // verus!
