use ai_dx_mcp::archive::{tar_entry_step, TarEntryKind, TarScan};
use ai_dx_mcp::cli::PluginsAction;
use ai_dx_mcp::plugins::{
    dedupe_strings, ensure_admin_lane, extract_base_url, final_lock_packs, final_lock_plugins,
    governance_block_reason, governance_blocked_plugins, install_inputs, managed_paths_for_targets,
    merge_lock_entries, normalize_lockfile, normalize_plugin_inputs, parse_bool_flag, parse_csv_flag,
    parse_string_flag, plan_uninstall_entries, resolve_plugin_ids_from_manifest, safe_relative_path,
    signature_source_for_manifest_source, uninstall_lock_lists, uninstall_targets, unmanaged_plugin_dirs,
    update_installer_args, with_csv_flag, PluginsLockfileEntryV1, PluginsLockfileV1,
};
use ai_dx_mcp::plugin_plans::{
    install_decision, install_preflight, require_uninstall_lockfile, uninstall_preflight, PathProbe,
};
use ai_dx_mcp::registry_manifest::{
    RegistryArchiveV1, RegistryManifestV1, RegistryPackV1, RegistryPluginExtra, RegistryPluginPackageV1,
    RegistryPluginV1,
};

fn s(v: &[&str]) -> Vec<String> {
    v.iter().map(|x| x.to_string()).collect()
}

fn plugin(id: &str, aliases: &[&str], tier: Option<&str>) -> RegistryPluginV1 {
    RegistryPluginV1 {
        id: id.to_string(),
        aliases: s(aliases),
        path: format!("plugins/{id}"),
        status: "community".to_string(),
        owner: "community".to_string(),
        description: "d".to_string(),
        package: RegistryPluginPackageV1 {
            version: "0.1.0".to_string(),
            kind: "k".to_string(),
            maturity: "stable".to_string(),
            runtime: "native".to_string(),
            portable: true,
            languages: vec![],
            entrypoint: "e".to_string(),
            license: "MIT".to_string(),
        },
        tier: tier.map(|t| t.to_string()),
        maintainers: None,
        tags: None,
        extra: RegistryPluginExtra { requires: vec![], runtime_kind: None, cost_class: None, sunset_marker: false },
    }
}

fn manifest() -> RegistryManifestV1 {
    RegistryManifestV1 {
        schema: "compas.registry.manifest.v1".to_string(),
        registry_version: "1".to_string(),
        archive: RegistryArchiveV1 { name: "r.tar.gz".to_string(), sha256: "0".repeat(64) },
        plugins: vec![
            plugin("spec-adr-gate", &["adr"], Some("community")),
            plugin("b-plugin", &["shared"], Some(" Experimental ")),
            plugin("a-plugin", &["shared"], Some("deprecated")),
        ],
        packs: vec![RegistryPackV1 {
            id: "core".to_string(),
            description: "core".to_string(),
            plugins: s(&["a-plugin", "spec-adr-gate"]),
            capabilities: vec![],
            requires: vec![],
            runtime_kind: String::new(),
            cost_class: String::new(),
            recommendation: None,
        }],
    }
}

fn entry(path: &str, sha: &str, owners: &[&str]) -> PluginsLockfileEntryV1 {
    PluginsLockfileEntryV1 { path: path.to_string(), sha256: sha.to_string(), plugin_ids: s(owners) }
}

fn lock() -> PluginsLockfileV1 {
    PluginsLockfileV1 {
        schema: "compas.plugins.lock.v1".to_string(),
        registry_source: "src".to_string(),
        registry_version: "1".to_string(),
        manifest_sha256: None,
        signature_key_id: None,
        plugins: s(&["x", "y", "x"]),
        packs: s(&["core"]),
        files: vec![entry("p/x/a", "h1", &["x"]), entry("p/shared", "h2", &["x", "y", "x"])],
    }
}

#[test]
fn dedupe_keeps_first_occurrences() {
    assert_eq!(dedupe_strings(s(&["b", "a", "b", "c", "a"])), s(&["b", "a", "c"]));
    let once = dedupe_strings(s(&["b", "a", "b"]));
    assert_eq!(dedupe_strings(once.clone()), once);
}

#[test]
fn flags_of_the_installer() {
    let args = s(&["--plugins", "a, b", "--dry-run", "--plugins", "b,c", "--pubkey", "k.pem"]);
    assert_eq!(parse_csv_flag(&args, "--plugins").unwrap(), Some(s(&["a", "b", "c"])));
    assert_eq!(parse_csv_flag(&args, "--packs").unwrap(), None);
    assert!(parse_bool_flag(&args, "--dry-run"));
    assert!(!parse_bool_flag(&args, "--force"));
    assert_eq!(parse_string_flag(&args, "--pubkey").unwrap(), Some("k.pem".to_string()));
    assert_eq!(parse_string_flag(&s(&["--pubkey"]), "--pubkey").unwrap_err(), "--pubkey requires a value");
    assert_eq!(parse_csv_flag(&s(&["--packs", "--x"]), "--packs").unwrap_err(), "--packs requires a value");
    assert_eq!(normalize_plugin_inputs(s(&[" a ", "", "  "])), s(&["a"]));
}

#[test]
fn admin_lane_is_required_for_changes() {
    assert_eq!(
        ensure_admin_lane(PluginsAction::Install, &[]).unwrap_err(),
        "plugins install requires explicit --admin-lane (fail-closed)"
    );
    assert!(ensure_admin_lane(PluginsAction::Install, &s(&["--admin-lane"])).is_ok());
    assert!(ensure_admin_lane(PluginsAction::List, &[]).is_ok());
}

#[test]
fn csv_flag_is_added_once() {
    let mut args = s(&["--json"]);
    with_csv_flag(&mut args, "--plugins", &s(&["a", "b"]));
    assert_eq!(args, s(&["--json", "--plugins", "a,b"]));
    with_csv_flag(&mut args, "--plugins", &s(&["c"]));
    assert_eq!(args, s(&["--json", "--plugins", "a,b"]));
    with_csv_flag(&mut args, "--packs", &[]);
    assert_eq!(args.len(), 3);
}

#[test]
fn relative_paths_and_urls() {
    assert_eq!(safe_relative_path("plugins/x/a.txt").unwrap(), "plugins/x/a.txt");
    assert_eq!(safe_relative_path("").unwrap_err(), "empty relative path in registry payload");
    assert_eq!(safe_relative_path("/etc").unwrap_err(), "absolute paths are forbidden in registry payload: /etc");
    assert_eq!(safe_relative_path("a/../b").unwrap_err(), "unsafe path component in registry payload: a/../b");
    assert_eq!(
        extract_base_url("https://x.org/releases/r.json"),
        Some("https://x.org/releases".to_string())
    );
    assert_eq!(extract_base_url("nourl"), None);
    assert_eq!(signature_source_for_manifest_source("m.json"), "m.json.sig");
}

#[test]
fn plugin_ids_resolve_through_packs_and_aliases() {
    let m = manifest();
    let ids = resolve_plugin_ids_from_manifest(&m, &s(&["adr", "shared"]), &s(&["core"])).unwrap();
    assert_eq!(ids, s(&["a-plugin", "b-plugin", "spec-adr-gate"]));
    assert_eq!(
        resolve_plugin_ids_from_manifest(&m, &s(&["nope", "adr", "also"]), &[]).unwrap_err(),
        "unknown plugins: nope, also"
    );
    assert_eq!(
        resolve_plugin_ids_from_manifest(&m, &s(&["nope"]), &s(&["missing", "core", "gone"])).unwrap_err(),
        "unknown packs: missing, gone"
    );
}

#[test]
fn governance_blocks_by_tier() {
    let m = manifest();
    let (tier, reason) = governance_block_reason(&m.plugins[1], false, false).unwrap();
    assert_eq!(tier, "experimental");
    assert_eq!(reason, "install is blocked: tier=experimental (add --allow-experimental to proceed)");
    assert!(governance_block_reason(&m.plugins[1], true, false).is_none());
    let (tier, _) = governance_block_reason(&m.plugins[2], true, false).unwrap();
    assert_eq!(tier, "deprecated");
    let mut marked = plugin("m", &[], None);
    marked.extra.sunset_marker = true;
    let (tier, reason) = governance_block_reason(&marked, false, false).unwrap();
    assert_eq!(tier, "sunset");
    assert_eq!(reason, "install is blocked: sunset marker metadata present (add --allow-sunset to proceed)");
    assert!(governance_block_reason(&marked, false, true).is_none());
    let blocked = governance_blocked_plugins(&m, &s(&["spec-adr-gate", "b-plugin"]), false, false).unwrap();
    assert_eq!(blocked.len(), 1);
    assert_eq!(blocked[0].id, "b-plugin");
    assert_eq!(
        governance_blocked_plugins(&m, &s(&["zzz"]), false, false).unwrap_err(),
        "plugin not found in manifest: zzz"
    );
}

#[test]
fn install_inputs_need_plugins_or_packs() {
    assert_eq!(install_inputs(&s(&["--dry-run"])).unwrap_err(), "plugins install requires --plugins and/or --packs");
    let (plugins, packs) = install_inputs(&s(&["--packs", "core"])).unwrap();
    assert!(plugins.is_empty());
    assert_eq!(packs, s(&["core"]));
}

#[test]
fn update_takes_lists_from_the_lockfile() {
    let args = update_installer_args(&s(&["--admin-lane"]), &Some(lock())).unwrap();
    assert_eq!(args, s(&["--admin-lane", "--plugins", "x,y,x", "--packs", "core"]));
    let args = update_installer_args(&s(&["--plugins", "z"]), &Some(lock())).unwrap();
    assert_eq!(args, s(&["--plugins", "z"]));
}

#[test]
fn lockfile_is_normalized() {
    let n = normalize_lockfile("plugins.lock.json", lock()).unwrap();
    assert_eq!(n.plugins, s(&["x", "y"]));
    assert_eq!(n.files[1].plugin_ids, s(&["x", "y"]));
    let mut bad = lock();
    bad.schema = "v0".to_string();
    assert_eq!(
        normalize_lockfile("plugins.lock.json", bad).unwrap_err(),
        "unsupported plugins lockfile schema in plugins.lock.json: v0"
    );
}

#[test]
fn lock_entries_merge_by_path() {
    let merged = merge_lock_entries(&vec![
        entry("b", "h", &["y"]),
        entry("a", "h0", &["z", "x"]),
        entry("b", "h", &["x", "y"]),
    ])
    .unwrap();
    assert_eq!(merged.len(), 2);
    assert_eq!(merged[0].path, "a");
    assert_eq!(merged[0].plugin_ids, s(&["x", "z"]));
    assert_eq!(merged[1].plugin_ids, s(&["x", "y"]));
    assert_eq!(
        merge_lock_entries(&vec![entry("b", "h1", &[]), entry("b", "h2", &[])]).unwrap_err(),
        "conflicting hashes for managed path b (h1 vs h2)"
    );
}

#[test]
fn final_lists_are_sorted_and_unique() {
    let plugins = final_lock_plugins(&s(&["y", "new"]), &Some(lock()), &s(&["y"]));
    assert_eq!(plugins, s(&["new", "x", "y"]));
    let packs = final_lock_packs(&s(&["extra", "core"]), &Some(lock()));
    assert_eq!(packs, s(&["core", "extra"]));
}

#[test]
fn uninstall_splits_entries() {
    let (remove, kept) = plan_uninstall_entries(
        vec![entry("z", "h", &["x"]), entry("b", "h", &["x", "y"]), entry("a", "h", &["y"])],
        &s(&["x"]),
    );
    assert_eq!(remove.iter().map(|e| e.path.as_str()).collect::<Vec<_>>(), vec!["z"]);
    assert_eq!(kept.iter().map(|e| e.path.as_str()).collect::<Vec<_>>(), vec!["a", "b"]);
    assert_eq!(kept[1].plugin_ids, s(&["y"]));
    let (plugins, packs) = uninstall_lock_lists(&lock(), true, &s(&["x"]), &s(&["core"]));
    assert_eq!(plugins, s(&["y"]));
    assert!(packs.is_empty());
    assert_eq!(uninstall_targets(&manifest(), &lock(), &vec![], &vec![]).unwrap(), s(&["x", "y", "x"]));
}

#[test]
fn preflight_sets() {
    let l = lock();
    assert_eq!(managed_paths_for_targets(&l, &s(&["y"])), s(&["p/shared"]));
    assert_eq!(unmanaged_plugin_dirs(&s(&["x", ".staging", "q", "a"]), &Some(l)), s(&["a", "q"]));
}

#[test]
fn archive_entries_are_checked_one_by_one() {
    let mut scan = TarScan { root_prefix: None, entries_seen: 0, total_bytes: 0 };
    assert_eq!(tar_entry_step(&mut scan, TarEntryKind::Directory, Ok("reg/".to_string()), Ok(0)), Ok(true));
    assert_eq!(tar_entry_step(&mut scan, TarEntryKind::Regular, Ok("reg/a.txt".to_string()), Ok(5)), Ok(false));
    assert_eq!(scan.total_bytes, 5);
    assert_eq!(
        tar_entry_step(&mut scan, TarEntryKind::Regular, Ok("other/b".to_string()), Ok(1)).unwrap_err(),
        "archive must have single top-level directory; found 'reg' and 'other'"
    );
    assert_eq!(
        tar_entry_step(&mut scan, TarEntryKind::Regular, Ok("reg/../x".to_string()), Ok(1)).unwrap_err(),
        "unsafe tar path component: reg/../x"
    );
    assert_eq!(
        tar_entry_step(&mut scan, TarEntryKind::Regular, Ok("/abs".to_string()), Ok(1)).unwrap_err(),
        "absolute tar path is forbidden: /abs"
    );
    assert_eq!(
        tar_entry_step(&mut scan, TarEntryKind::Other("Symlink".to_string()), Ok("reg/l".to_string()), Ok(0))
            .unwrap_err(),
        "unsupported tar entry type: Symlink"
    );
    assert_eq!(
        tar_entry_step(&mut scan, TarEntryKind::Regular, Ok("reg/big".to_string()), Ok(10_485_761)).unwrap_err(),
        "tar entry too large (> 10485760 bytes): reg/big"
    );
    assert_eq!(
        tar_entry_step(&mut scan, TarEntryKind::Regular, Ok("./reg/x".to_string()), Ok(1)).unwrap_err(),
        "unsafe tar path component: ./reg/x"
    );
}

fn probe(exists: bool, symlink: bool, sha: Option<&str>) -> PathProbe {
    PathProbe { exists, symlink, file_sha256: sha.map(|h| h.to_string()) }
}

#[test]
fn install_refuses_governed_plugins_before_writing() {
    let m = manifest();
    let d = install_decision(&m, &s(&["--plugins", "b-plugin,spec-adr-gate"])).unwrap();
    assert_eq!(d.plugin_ids, s(&["b-plugin", "spec-adr-gate"]));
    assert_eq!(d.blocked.len(), 1);
    assert_eq!(d.blocked[0].tier, "experimental");
    let d = install_decision(&m, &s(&["--plugins", "b-plugin", "--allow-experimental", "--dry-run"])).unwrap();
    assert!(d.blocked.is_empty());
    assert!(d.dry_run);
    let d = install_decision(&m, &s(&["--plugins", "a-plugin", "--allow-deprecated"])).unwrap();
    assert!(d.allow_sunset);
    assert!(d.blocked.is_empty());
    assert_eq!(install_decision(&m, &s(&[])).unwrap_err(), "plugins install requires --plugins and/or --packs");
}

#[test]
fn install_preflight_blocks_on_drift_without_force() {
    let recorded = vec![entry("p/b", "h1", &["x"]), entry("p/a", "h2", &["x"]), entry("p/c", "h3", &["x"])];
    let probes = vec![probe(true, false, Some("zz")), probe(false, false, None), probe(true, true, Some("h3"))];
    let walked = vec![("p/z".to_string(), false), ("p/c".to_string(), true), ("p/b".to_string(), false)];
    let managed = s(&["p/b", "p/c"]);
    let r = install_preflight(vec![], &recorded, &probes, &walked, &managed, false);
    assert_eq!(r.missing_files, s(&["p/a"]));
    assert_eq!(r.modified_files, s(&["p/b"]));
    assert_eq!(r.unknown_files, s(&["p/c", "p/z"]));
    assert!(r.blocked);
    let r = install_preflight(vec![], &recorded, &probes, &walked, &managed, true);
    assert!(!r.blocked);
    let clean = install_preflight(vec![], &vec![], &vec![], &vec![], &managed, false);
    assert!(!clean.blocked);
}

#[test]
fn uninstall_refuses_without_lockfile_or_on_modified_files() {
    assert_eq!(require_uninstall_lockfile(None, "x/plugins.lock.json").unwrap_err(), "plugins uninstall requires lockfile at x/plugins.lock.json");
    assert!(require_uninstall_lockfile(Some(lock()), "x").is_ok());
    let planned = vec![entry("p/b", "h1", &["x"]), entry("p/a", "h2", &["x"]), entry("p/l", "h3", &["x"])];
    let probes = vec![probe(true, false, Some("h1")), probe(false, false, None), probe(true, true, Some("h3"))];
    let r = uninstall_preflight(&planned, &probes, false);
    assert_eq!(r.missing_files, s(&["p/a"]));
    assert_eq!(r.modified_files, s(&["p/l"]));
    assert!(r.blocked);
    assert!(!uninstall_preflight(&planned, &probes, true).blocked);
}
