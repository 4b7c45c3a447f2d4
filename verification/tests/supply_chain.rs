use ai_dx_mcp::config::SupplyChainCheckConfigV2;
use ai_dx_mcp::supply_chain::{run_supply_chain_check, scan_manifests, scan_package_json_prerelease_deps};

fn paths(list: &[&str]) -> Vec<String> {
    list.iter().map(|p| p.to_string()).collect()
}

#[test]
fn manifests_are_sorted_and_lockfiles_noticed() {
    let scan = scan_manifests(&paths(&["b/Cargo.toml", "Cargo.toml", "web/package.json", "web/yarn.lock", "py/setup.py"]));
    assert_eq!(scan.rust_manifest_paths, paths(&["Cargo.toml", "b/Cargo.toml"]));
    assert!(!scan.rust_lock_present);
    assert_eq!(scan.node_manifest_paths, paths(&["web/package.json"]));
    assert!(scan.node_lock_present);
    assert_eq!(scan.python_manifest_paths, paths(&["py/setup.py"]));
    assert!(!scan.python_lock_present);
}

#[test]
fn package_json_prereleases_once_per_name() {
    let raw = r#"{"dependencies": {"b": "1.0.0", "a": "2.0.0-rc.1"}, "devDependencies": {"a": "3.0.0-alpha", "c": 5}}"#;
    assert_eq!(
        scan_package_json_prerelease_deps(raw).unwrap(),
        vec![("a".to_string(), "2.0.0-rc.1".to_string())]
    );
    let err = scan_package_json_prerelease_deps("{").err().unwrap();
    assert!(err.starts_with("failed to parse package.json: "), "{err}");
}

#[test]
fn supply_chain_reports_lockfiles_reads_and_prereleases_in_order() {
    let scan = scan_manifests(&paths(&["b/Cargo.toml", "Cargo.toml", "web/package.json", "web/yarn.lock", "py/setup.py"]));
    let rust = vec![
        Ok("[dependencies]\nfoo = \"1.0.0-beta.1\"\nbar = \"1.0\"\n".to_string()),
        Err("gone".to_string()),
    ];
    let node = vec![Ok(r#"{"dependencies": {"x": "0.1.0-rc.2"}}"#.to_string())];
    let out = run_supply_chain_check(&SupplyChainCheckConfigV2 { id: "sc".to_string() }, &scan, &rust, &node);
    let got: Vec<(&str, &str)> = out.violations.iter().map(|v| (v.code.as_str(), v.message.as_str())).collect();
    assert_eq!(
        got,
        vec![
            ("supply_chain.lockfile_missing", "rust manifests detected but Cargo.lock is missing"),
            ("supply_chain.lockfile_missing", "python manifests detected but lockfile is missing"),
            ("supply_chain.prerelease_dependency", "prerelease rust dependency is forbidden: foo=1.0.0-beta.1"),
            ("supply_chain.read_failed", "failed to read manifest b/Cargo.toml: gone"),
            ("supply_chain.prerelease_dependency", "prerelease node dependency is forbidden: x=0.1.0-rc.2"),
        ]
    );
    let node = vec![Ok("not json".to_string())];
    let scan = scan_manifests(&paths(&["package.json", "bun.lock"]));
    let out = run_supply_chain_check(&SupplyChainCheckConfigV2 { id: "sc".to_string() }, &scan, &vec![], &node);
    assert_eq!(out.violations.len(), 1);
    assert_eq!(out.violations[0].code, "supply_chain.manifest_parse_failed");
}
