use ai_dx_mcp::layer_graph::{cycle_violation, has_cycle};
use ai_dx_mcp::arch_layers::{
    file_layer_edges, forbidden_edge_violations, import_tokens, layer_for_token, layer_of_path, run_arch_layers_check,
};
use ai_dx_mcp::checks::{
    count_non_empty_lines, extract_first_quoted_value, is_probably_code_file, lockfile_violations,
    looks_prerelease_version, manifest_kind, prerelease_violations, run_tool_budget_check,
    scan_cargo_prerelease_deps, should_descend_dir, ManifestKind, ManifestScan, ToolBudgetInput,
};
use ai_dx_mcp::config::{ArchLayerConfigV2, ArchLayerRuleConfigV2, ArchLayersCheckConfigV2, ToolBudgetCheckConfigV2};

#[test]
fn count_non_empty_lines_trims_ws_and_crlf() {
    assert_eq!(count_non_empty_lines(b""), 0);
    assert_eq!(count_non_empty_lines(b"\n\n"), 0);
    assert_eq!(count_non_empty_lines(b"  \n\t\r\nx\r\ny\n"), 2);
}

#[test]
fn code_files_by_extension() {
    assert!(is_probably_code_file("src/lib.rs"));
    assert!(is_probably_code_file("a/b/c.tsx"));
    assert!(!is_probably_code_file("README.md"));
    assert!(!is_probably_code_file("dir/.rs"));
    assert!(!is_probably_code_file("Makefile"));
    assert!(is_probably_code_file("x.y.cpp"));
}

#[test]
fn walk_skips_tool_directories() {
    assert!(!should_descend_dir("node_modules"));
    assert!(!should_descend_dir(".git"));
    assert!(should_descend_dir("src"));
}

#[test]
fn manifest_kinds() {
    assert_eq!(manifest_kind("Cargo.toml"), ManifestKind::RustManifest);
    assert_eq!(manifest_kind("bun.lockb"), ManifestKind::NodeLock);
    assert_eq!(manifest_kind("requirements.txt"), ManifestKind::PythonLock);
    assert_eq!(manifest_kind("main.rs"), ManifestKind::Other);
}

#[test]
fn prerelease_versions() {
    assert!(looks_prerelease_version("1.0.0-ALPHA.1"));
    assert!(looks_prerelease_version("2.0.0-rc1"));
    assert!(!looks_prerelease_version("1.2.3"));
    assert_eq!(extract_first_quoted_value("x = \"1.0\" # \"c\""), Some("1.0".to_string()));
    assert_eq!(extract_first_quoted_value("x = \"open"), None);
}

#[test]
fn cargo_prerelease_scan() {
    let raw = "[package]\nname = \"x\"\nversion = \"0.1.0-alpha\"\n\n[dependencies]\nserde = \"1.0.0-beta.2\"\ntokio = { version = \"2.0.0-rc.1\", features = [\"full\"] }\nanyhow = \"1\"\n# comment = \"9-alpha\"\n\"quoted\" = \"3-ALPHA\"\n[target.'cfg(unix)'.dependencies]\nserde = \"1.0.0-beta.3\"\nlibc = \"0.2-rc\"\n[features]\nx = \"1-alpha\"\n";
    let deps = scan_cargo_prerelease_deps(raw);
    assert_eq!(
        deps,
        vec![
            ("serde".to_string(), "1.0.0-beta.2".to_string()),
            ("tokio".to_string(), "2.0.0-rc.1".to_string()),
            ("quoted".to_string(), "3-ALPHA".to_string()),
            ("libc".to_string(), "0.2-rc".to_string()),
        ]
    );
}

#[test]
fn supply_chain_violations() {
    let scan = ManifestScan {
        rust_manifest_paths: vec!["Cargo.toml".to_string()],
        rust_lock_present: false,
        node_manifest_paths: vec!["web/package.json".to_string()],
        node_lock_present: true,
        python_manifest_paths: vec![],
        python_lock_present: false,
    };
    let v = lockfile_violations(&scan);
    assert_eq!(v.len(), 1);
    assert_eq!(v[0].message, "rust manifests detected but Cargo.lock is missing");
    let p = prerelease_violations("rust", "Cargo.toml", &vec![("serde".to_string(), "1-rc".to_string())]);
    assert_eq!(p[0].message, "prerelease rust dependency is forbidden: serde=1-rc");
    assert_eq!(p[0].code, "supply_chain.prerelease_dependency");
}

#[test]
fn tool_budget_reports_each_overrun() {
    let input = ToolBudgetInput {
        tools_total: 5,
        plugins: vec![("p".to_string(), 4), ("q".to_string(), 1)],
        gate_ci_fast: 3,
        gate_ci: 1,
        gate_flagship: 0,
        checks_total: 9,
    };
    let check = ToolBudgetCheckConfigV2 {
        id: "budget".to_string(),
        max_tools_total: 4,
        max_tools_per_plugin: 2,
        max_gate_tools_per_kind: 2,
        max_checks_total: 8,
    };
    let v = run_tool_budget_check(&input, &check);
    let codes: Vec<&str> = v.iter().map(|v| v.code.as_str()).collect();
    assert_eq!(
        codes,
        vec![
            "tool_budget.max_tools_total_exceeded",
            "tool_budget.max_tools_per_plugin_exceeded",
            "tool_budget.max_gate_tools_exceeded",
            "tool_budget.max_checks_total_exceeded",
        ]
    );
    assert_eq!(v[0].message, "tool count exceeds budget: total=5 > max=4");
    assert_eq!(v[1].path.as_deref(), Some(".agents/mcp/compas/plugins/p/plugin.toml"));
    assert_eq!(v[2].message, "gate ci_fast exceeds budget: total=3 > max=2");
    assert!(v.iter().all(|x| x.tier == ai_dx_mcp::api::ViolationTier::Blocking));
    assert_eq!(ai_dx_mcp::judge::registry::classify("tool_budget.max_tools_total_exceeded").1, ai_dx_mcp::api::ViolationTier::Blocking);
}

#[test]
fn import_tokens_by_language() {
    assert_eq!(import_tokens("use crate::infra::db::Repo;"), vec!["infra"]);
    assert_eq!(import_tokens("  from app.core import x"), vec!["app"]);
    assert_eq!(import_tokens("import os, sys.path"), vec!["os", "sys"]);
    assert_eq!(import_tokens("const x = require('lodash/fp');"), vec!["lodash"]);
    assert!(import_tokens("const y = require(\"./local\");").is_empty());
    assert!(import_tokens("let z = 1;").is_empty());
}

fn layers() -> Vec<ArchLayerConfigV2> {
    vec![
        ArchLayerConfigV2 {
            id: "app".to_string(),
            include_globs: vec!["src/app/**".to_string()],
            module_prefixes: vec!["app".to_string()],
        },
        ArchLayerConfigV2 {
            id: "infra".to_string(),
            include_globs: vec!["src/infra/**".to_string()],
            module_prefixes: vec!["INFRA".to_string()],
        },
    ]
}

#[test]
fn detects_forbidden_edge() {
    let layers = layers();
    assert_eq!(layer_of_path(&layers, "src/app/mod.rs"), Some("app".to_string()));
    assert_eq!(layer_of_path(&layers, "src/other.rs"), None);
    assert_eq!(layer_for_token(&layers, "infra"), Some("infra".to_string()));
    let dsts = file_layer_edges(&layers, "app", "use crate::infra::db::Repo;\nuse crate::app::x;\n");
    assert_eq!(dsts, vec!["infra".to_string()]);
    let edges: Vec<(String, String)> = dsts.into_iter().map(|d| ("app".to_string(), d)).collect();
    let rules = vec![ArchLayerRuleConfigV2 { from_layer: "app".to_string(), deny_to_layers: vec!["infra".to_string()] }];
    let out = forbidden_edge_violations("layers", &edges, &rules);
    assert!(out.iter().any(|v| v.code == "arch_layers.rule_violation"));
    assert_eq!(out[0].message, "forbidden layer edge detected: app -> infra");
}

#[test]
fn layer_cycles_are_found() {
    let e = |a: &str, b: &str| (a.to_string(), b.to_string());
    assert!(has_cycle(&vec![e("app", "infra"), e("infra", "db")]).is_none());
    let cyc = has_cycle(&vec![e("app", "infra"), e("infra", "db"), e("db", "app")]).unwrap();
    assert_eq!(cyc, vec!["app".to_string(), "infra".to_string(), "db".to_string()]);
    let v = cycle_violation("layers", &vec![e("b", "a"), e("a", "b")]).unwrap();
    assert_eq!(v.code, "arch_layers.cycle_detected");
    assert!(cycle_violation("layers", &vec![e("a", "b")]).is_none());
}

#[test]
fn arch_layers_check_reports_forbidden_edges_and_cycles() {
    let cfg = ArchLayersCheckConfigV2 {
        id: "layers".to_string(),
        layers: layers(),
        rules: vec![ArchLayerRuleConfigV2 { from_layer: "app".to_string(), deny_to_layers: vec!["infra".to_string()] }],
    };
    let files = Ok(vec![
        ("src/app/mod.rs".to_string(), Ok("use crate::infra::db::Repo;\nuse crate::infra::x;\n".to_string())),
        ("src/infra/db.rs".to_string(), Ok("use crate::app::api;\n".to_string())),
        ("src/infra/broken.rs".to_string(), Err("denied".to_string())),
        ("src/other.rs".to_string(), Ok("use crate::infra::db;\n".to_string())),
    ]);
    let out = run_arch_layers_check(&cfg, files);
    assert_eq!(out.edges_total, 3);
    let codes: Vec<&str> = out.violations.iter().map(|v| v.code.as_str()).collect();
    assert_eq!(codes, vec!["arch_layers.read_failed", "arch_layers.rule_violation", "arch_layers.cycle_detected"]);
    assert_eq!(out.violations[0].message, "failed to read src/infra/broken.rs: denied");
    assert_eq!(out.violations[1].message, "forbidden layer edge detected: app -> infra");
}

#[test]
fn arch_layers_check_needs_layers() {
    let cfg = ArchLayersCheckConfigV2 { id: "layers".to_string(), layers: vec![], rules: vec![] };
    let out = run_arch_layers_check(&cfg, Ok(vec![]));
    assert_eq!(out.violations.len(), 1);
    assert_eq!(out.violations[0].message, "arch_layers check id=layers has no layers");
    let cfg = ArchLayersCheckConfigV2 { id: "layers".to_string(), layers: layers(), rules: vec![] };
    let out = run_arch_layers_check(&cfg, Err("walk".to_string()));
    assert_eq!(out.violations[0].message, "arch_layers check failed (id=layers): walk");
}
