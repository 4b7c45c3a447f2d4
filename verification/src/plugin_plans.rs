//! The decisions of plugin install and uninstall, before anything is
//! written: governance refusals, drifted and unknown files, and when a
//! drift blocks the operation.

use crate::csv::views;
use crate::order::{sort_strings, sorted_distinct, sorted_seq, sorted_unique};
use crate::plugins::{
    blocked_spec, blocked_view, contains_string, first_missing_plugin, governance_blocked_plugins, install_inputs,
    install_inputs_spec, parse_bool_flag, resolve_ids_spec, resolve_plugin_ids_from_manifest, BlockedPlugin,
    PluginsLockfileEntryV1, PluginsLockfileV1,
};
use crate::order::strictly_sorted;
use crate::registry_manifest::RegistryManifestV1;
use crate::text::concat;
use vstd::prelude::*;
use vstd::string::*;

verus! {

/// What the caller found at a path that the lockfile records.
#[derive(Debug, Clone)]
pub struct PathProbe {
    /// Something is at the path (a dangling link counts as nothing).
    pub exists: bool,
    /// The path itself is a symbolic link.
    pub symlink: bool,
    /// The SHA-256 (hex) of the file the path leads to, where it leads to a file.
    pub file_sha256: Option<String>,
}

/// Which rule tells drift: install follows links; uninstall counts a link
/// itself as drift.
#[derive(Debug, Clone, Copy, PartialEq, Eq, Structural)]
pub enum DriftRule {
    Install,
    Uninstall,
}

/// The path is gone.
pub open spec fn is_missing(p: PathProbe) -> bool {
    !p.exists
}

/// The path no longer holds the file the lockfile recorded.
pub open spec fn is_modified(rule: DriftRule, e: PluginsLockfileEntryV1, p: PathProbe) -> bool {
    p.exists && ((rule == DriftRule::Uninstall && p.symlink) || match p.file_sha256 {
        None => true,
        Some(h) => h@ != e.sha256@,
    })
}

/// The paths, in order, that are missing (`modified` false) or modified
/// (`modified` true).
pub open spec fn drifted(
    rule: DriftRule,
    entries: Seq<PluginsLockfileEntryV1>,
    probes: Seq<PathProbe>,
    modified: bool,
) -> Seq<Seq<char>>
    decreases entries.len(),
{
    if entries.len() == 0 {
        Seq::empty()
    } else {
        let n = entries.len() - 1;
        let rest = drifted(rule, entries.drop_last(), probes.take(n), modified);
        let hit = if modified {
            is_modified(rule, entries[n], probes[n])
        } else {
            is_missing(probes[n])
        };
        if hit {
            rest.push(entries[n].path@)
        } else {
            rest
        }
    }
}

/// The missing and the modified paths among `entries`, in order.
pub fn classify_drift(rule: DriftRule, entries: &Vec<PluginsLockfileEntryV1>, probes: &Vec<PathProbe>) -> (r: (
    Vec<String>,
    Vec<String>,
))
    requires
        entries@.len() == probes@.len(),
    ensures
        views(r.0@) == drifted(rule, entries@, probes@, false),
        views(r.1@) == drifted(rule, entries@, probes@, true),
{
    let mut missing: Vec<String> = Vec::new();
    let mut modified: Vec<String> = Vec::new();
    let mut i: usize = 0;
    while i < entries.len()
        invariant
            entries@.len() == probes@.len(),
            i <= entries@.len(),
            views(missing@) == drifted(rule, entries@.take(i as int), probes@.take(i as int), false),
            views(modified@) == drifted(rule, entries@.take(i as int), probes@.take(i as int), true),
        decreases entries@.len() - i,
    {
        proof {
            assert(entries@.take(i + 1).drop_last() =~= entries@.take(i as int));
            assert(probes@.take(i + 1).take(i as int) =~= probes@.take(i as int));
        }
        let e = &entries[i];
        let p = &probes[i];
        if !p.exists {
            let ghost before = views(missing@);
            missing.push(e.path.clone());
            proof {
                assert(views(missing@) =~= before.push(e.path@));
            }
        } else {
            let changed = (rule == DriftRule::Uninstall && p.symlink) || match &p.file_sha256 {
                None => true,
                Some(h) => !crate::text::str_eq(h.as_str(), e.sha256.as_str()),
            };
            if changed {
                let ghost before = views(modified@);
                modified.push(e.path.clone());
                proof {
                    assert(views(modified@) =~= before.push(e.path@));
                }
            }
        }
        i = i + 1;
    }
    proof {
        assert(entries@.take(i as int) =~= entries@);
        assert(probes@.take(i as int) =~= probes@);
    }
    (missing, modified)
}

/// A walked file under a target plugin's directory is unknown when it is a
/// link or the lockfile does not track it.
pub open spec fn unknown_paths(walked: Seq<(String, bool)>, managed: Seq<Seq<char>>) -> Seq<Seq<char>>
    decreases walked.len(),
{
    if walked.len() == 0 {
        Seq::empty()
    } else {
        let rest = unknown_paths(walked.drop_last(), managed);
        if walked.last().1 || !managed.contains(walked.last().0@) {
            rest.push(walked.last().0@)
        } else {
            rest
        }
    }
}

/// What install finds before writing anything.
#[derive(Debug)]
pub struct InstallPreflight {
    pub unmanaged_plugin_dirs: Vec<String>,
    pub missing_files: Vec<String>,
    pub modified_files: Vec<String>,
    pub unknown_files: Vec<String>,
    /// Install stops here: without `--force`, any unmanaged, missing,
    /// modified or unknown file blocks it.
    pub blocked: bool,
}

/// Install's preflight: the recorded files of the target plugins with what
/// was found at them, the files walked under the targets' directories
/// (path, whether a link), and the paths the lockfile tracks for them.
pub fn install_preflight(
    unmanaged_plugin_dirs: Vec<String>,
    recorded: &Vec<PluginsLockfileEntryV1>,
    probes: &Vec<PathProbe>,
    walked: &Vec<(String, bool)>,
    managed: &Vec<String>,
    force: bool,
) -> (r: InstallPreflight)
    requires
        recorded@.len() == probes@.len(),
    ensures
        r.unmanaged_plugin_dirs@ == unmanaged_plugin_dirs@,
        sorted_seq(views(r.missing_files@)),
        views(r.missing_files@).to_multiset() == drifted(DriftRule::Install, recorded@, probes@, false).to_multiset(),
        sorted_seq(views(r.modified_files@)),
        views(r.modified_files@).to_multiset() == drifted(DriftRule::Install, recorded@, probes@, true).to_multiset(),
        sorted_seq(views(r.unknown_files@)),
        views(r.unknown_files@).to_multiset() == unknown_paths(walked@, views(managed@)).to_multiset(),
        r.blocked == (!force && (unmanaged_plugin_dirs@.len() > 0 || r.missing_files@.len() > 0
            || r.modified_files@.len() > 0 || r.unknown_files@.len() > 0)),
{
    let (missing, modified) = classify_drift(DriftRule::Install, recorded, probes);
    let mut unknown: Vec<String> = Vec::new();
    let mut i: usize = 0;
    while i < walked.len()
        invariant
            i <= walked@.len(),
            views(unknown@) == unknown_paths(walked@.take(i as int), views(managed@)),
        decreases walked@.len() - i,
    {
        proof {
            assert(walked@.take(i + 1).drop_last() =~= walked@.take(i as int));
        }
        if walked[i].1 || !contains_string(managed, walked[i].0.as_str()) {
            let ghost before = views(unknown@);
            unknown.push(walked[i].0.clone());
            proof {
                assert(views(unknown@) =~= before.push(walked@[i as int].0@));
            }
        }
        i = i + 1;
    }
    proof {
        assert(walked@.take(i as int) =~= walked@);
    }
    let missing_files = sort_strings(missing);
    let modified_files = sort_strings(modified);
    let unknown_files = sort_strings(unknown);
    let blocked = !force && (unmanaged_plugin_dirs.len() > 0 || missing_files.len() > 0 || modified_files.len() > 0
        || unknown_files.len() > 0);
    InstallPreflight { unmanaged_plugin_dirs, missing_files, modified_files, unknown_files, blocked }
}

/// What uninstall finds before removing anything.
#[derive(Debug)]
pub struct UninstallPreflight {
    pub missing_files: Vec<String>,
    pub modified_files: Vec<String>,
    /// Uninstall stops here: without `--force`, a modified file blocks it.
    pub blocked: bool,
}

/// Uninstall's preflight over the entries it plans to remove.
pub fn uninstall_preflight(planned: &Vec<PluginsLockfileEntryV1>, probes: &Vec<PathProbe>, force: bool) -> (r:
    UninstallPreflight)
    requires
        planned@.len() == probes@.len(),
    ensures
        views(r.missing_files@) == sorted_distinct(drifted(DriftRule::Uninstall, planned@, probes@, false)),
        views(r.modified_files@) == sorted_distinct(drifted(DriftRule::Uninstall, planned@, probes@, true)),
        r.blocked == (!force && r.modified_files@.len() > 0),
{
    let (missing, modified) = classify_drift(DriftRule::Uninstall, planned, probes);
    let missing_files = sorted_unique(missing);
    let modified_files = sorted_unique(modified);
    let blocked = !force && modified_files.len() > 0;
    UninstallPreflight { missing_files, modified_files, blocked }
}

/// Uninstall works from the lockfile; without one it refuses.
pub fn require_uninstall_lockfile(lock: Option<PluginsLockfileV1>, lockfile_path: &str) -> (r: Result<
    PluginsLockfileV1,
    String,
>)
    ensures
        lock is Some ==> r == Ok::<PluginsLockfileV1, String>(lock.unwrap()),
        lock is None ==> r is Err && r->Err_0@ == "plugins uninstall requires lockfile at "@ + lockfile_path@,
{
    match lock {
        Some(l) => Ok(l),
        None => Err(concat("plugins uninstall requires lockfile at ", lockfile_path)),
    }
}

/// What install decides from its arguments and the manifest, before it
/// looks at the repository.
#[derive(Debug)]
pub struct InstallDecision {
    pub plugin_ids: Vec<String>,
    pub pack_inputs: Vec<String>,
    pub dry_run: bool,
    pub force: bool,
    pub allow_experimental: bool,
    pub allow_sunset: bool,
    /// The plugins that governance blocks; install stops when there is any.
    pub blocked: Vec<BlockedPlugin>,
}

/// The sunset flag, or its older alias.
pub open spec fn allow_sunset_spec(args: Seq<String>) -> bool {
    views(args).contains("--allow-sunset"@) || views(args).contains("--allow-deprecated"@)
}

proof fn lemma_resolve_known(plugins: Seq<crate::registry_manifest::RegistryPluginV1>, raw: Seq<char>)
    ensures
        crate::plugins::resolve_spec(plugins, raw) matches Some(id) ==> crate::plugins::is_plugin_id(plugins, id),
{
    if !crate::plugins::is_plugin_id(plugins, raw) && exists|id: Seq<char>| crate::plugins::alias_target(plugins, raw, id) {
        let id = choose|id: Seq<char>| crate::plugins::alias_target(plugins, raw, id);
        assert(crate::plugins::alias_of(plugins, raw, id));
        let k = choose|k: int|
            0 <= k < plugins.len() && (#[trigger] plugins[k]).id@ == id && views(plugins[k].aliases@).contains(raw);
        assert(plugins[k].id@ == id);
    }
}

proof fn lemma_resolved_known(plugins: Seq<crate::registry_manifest::RegistryPluginV1>, raws: Seq<Seq<char>>)
    ensures
        forall|i: int|
            0 <= i < crate::plugins::resolved_ids(plugins, raws).len() ==> crate::plugins::is_plugin_id(
                plugins,
                #[trigger] crate::plugins::resolved_ids(plugins, raws)[i],
            ),
    decreases raws.len(),
{
    if raws.len() > 0 {
        lemma_resolved_known(plugins, raws.drop_last());
        lemma_resolve_known(plugins, raws.last());
        let rest = crate::plugins::resolved_ids(plugins, raws.drop_last());
        let all = crate::plugins::resolved_ids(plugins, raws);
        assert forall|i: int| 0 <= i < all.len() implies crate::plugins::is_plugin_id(plugins, #[trigger] all[i]) by {
            if i < rest.len() {
                assert(all[i] == rest[i]);
            }
        }
    }
}

proof fn lemma_no_missing(plugins: Seq<crate::registry_manifest::RegistryPluginV1>, ids: Seq<Seq<char>>, i: int)
    requires
        0 <= i,
        forall|j: int| 0 <= j < ids.len() ==> crate::plugins::is_plugin_id(plugins, #[trigger] ids[j]),
    ensures
        first_missing_plugin(plugins, ids, i) is None,
    decreases ids.len() - i,
{
    if i < ids.len() {
        crate::registry_manifest::lemma_plugin_index_from(plugins, ids[i], 0);
        assert(crate::plugins::is_plugin_id(plugins, ids[i]));
        let k = choose|k: int| 0 <= k < plugins.len() && (#[trigger] plugins[k]).id@ == ids[i];
        assert(plugins[k].id@ == ids[i]);
        lemma_no_missing(plugins, ids, i + 1);
    }
}

/// Install's first decisions: the inputs (at least one plugin or pack), the
/// plugin ids they name, and the plugins that governance refuses (an
/// experimental tier without `--allow-experimental`, a sunset one without
/// `--allow-sunset`).
pub fn install_decision(manifest: &RegistryManifestV1, args: &Vec<String>) -> (r: Result<InstallDecision, String>)
    ensures
        match install_inputs_spec(args@) {
            Err(e) => r is Err && r->Err_0@ == e,
            Ok((plugins, packs)) => match resolve_ids_spec(*manifest, plugins, packs) {
                Err(e) => r is Err && r->Err_0@ == e,
                Ok(ids) => r is Ok && match r {
                    Ok(d) => {
                    &&& strictly_sorted(views(d.plugin_ids@))
                    &&& views(d.plugin_ids@).to_set() == ids
                    &&& views(d.pack_inputs@) == packs
                    &&& d.dry_run == views(args@).contains("--dry-run"@)
                    &&& d.force == views(args@).contains("--force"@)
                    &&& d.allow_experimental == views(args@).contains("--allow-experimental"@)
                    &&& d.allow_sunset == allow_sunset_spec(args@)
                    &&& first_missing_plugin(manifest.plugins@, views(d.plugin_ids@), 0) is None
                    &&& d.blocked@.map_values(|b: BlockedPlugin| blocked_view(b)) == blocked_spec(
                        manifest.plugins@,
                        views(d.plugin_ids@),
                        d.allow_experimental,
                        d.allow_sunset,
                    )
                    },
                    Err(_) => false,
                },
            },
        },
{
    let (plugins_in, packs) = match install_inputs(args.as_slice()) {
        Ok(x) => x,
        Err(e) => return Err(e),
    };
    let plugin_ids = match resolve_plugin_ids_from_manifest(manifest, plugins_in.as_slice(), packs.as_slice()) {
        Ok(ids) => ids,
        Err(e) => return Err(e),
    };
    proof {
        let plugins = manifest.plugins@;
        let pv = views(plugin_ids@);
        let raws = crate::plugins::expand_packs(manifest.packs@, views(packs@)) + views(plugins_in@);
        lemma_resolved_known(plugins, raws);
        assert forall|j: int| 0 <= j < pv.len() implies crate::plugins::is_plugin_id(plugins, #[trigger] pv[j]) by {
            assert(pv.to_set().contains(pv[j]));
            assert(crate::plugins::resolved_ids(plugins, raws).to_set().contains(pv[j]));
            let k = choose|k: int| 0 <= k < crate::plugins::resolved_ids(plugins, raws).len()
                && crate::plugins::resolved_ids(plugins, raws)[k] == pv[j];
        }
        lemma_no_missing(plugins, pv, 0);
    }
    let dry_run = parse_bool_flag(args.as_slice(), "--dry-run");
    let force = parse_bool_flag(args.as_slice(), "--force");
    let allow_experimental = parse_bool_flag(args.as_slice(), "--allow-experimental");
    let allow_sunset = parse_bool_flag(args.as_slice(), "--allow-sunset") || parse_bool_flag(
        args.as_slice(),
        "--allow-deprecated",
    );
    let blocked = match governance_blocked_plugins(manifest, &plugin_ids, allow_experimental, allow_sunset) {
        Ok(b) => b,
        Err(e) => {
            proof {
                assert(false);
            }
            return Err(e);
        },
    };
    Ok(InstallDecision { plugin_ids, pack_inputs: packs, dry_run, force, allow_experimental, allow_sunset, blocked })
}

} // verus!
