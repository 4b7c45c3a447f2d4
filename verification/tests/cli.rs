use ai_dx_mcp::api::{GateKind, ValidateMode};
use ai_dx_mcp::cli::{
    default_plugin_registry_source, default_repo_root, is_v1_flag, parse_gate_cli, parse_gate_kind, parse_init_cli,
    parse_plugins_cli, parse_validate_cli, parse_validate_mode, plugins_help_requested, PluginsAction,
};
use ai_dx_mcp::csv::parse_csv;

fn s(v: &[&str]) -> Vec<String> {
    v.iter().map(|x| x.to_string()).collect()
}

#[test]
fn csv_items_are_trimmed_and_non_empty() {
    assert_eq!(parse_csv(" builtin:rust, ,builtin:node ,"), s(&["builtin:rust", "builtin:node"]));
    assert!(parse_csv("").is_empty());
}

#[test]
fn repo_root_defaults() {
    assert_eq!(default_repo_root(Some("r".to_string()), Some("e".to_string())), "r");
    assert_eq!(default_repo_root(None, Some("e".to_string())), "e");
    assert_eq!(default_repo_root(None, Some("  ".to_string())), ".");
    assert_eq!(default_repo_root(Some(" ".to_string()), Some("e".to_string())), ".");
    assert_eq!(default_repo_root(None, None), ".");
}

#[test]
fn modes_kinds_and_v1_flags() {
    assert_eq!(parse_validate_mode("strict"), Some(ValidateMode::Strict));
    assert_eq!(parse_validate_mode("loose"), None);
    assert_eq!(parse_gate_kind("ci-fast"), Some(GateKind::CiFast));
    assert_eq!(parse_gate_kind("ci_fast"), Some(GateKind::CiFast));
    assert_eq!(parse_gate_kind("flagship"), Some(GateKind::Flagship));
    assert!(is_v1_flag("--gate"));
    assert!(!is_v1_flag("gate"));
    assert_eq!(PluginsAction::from_str("doctor"), Some(PluginsAction::Doctor));
    assert!(plugins_help_requested(&s(&["compas", "plugins"])));
    assert!(plugins_help_requested(&s(&["compas", "plugins", "-h"])));
    assert!(!plugins_help_requested(&s(&["compas", "plugins", "list"])));
}

#[test]
fn validate_cli() {
    let (mode, wb, root, bm) = parse_validate_cli(
        &s(&["strict", "--write-baseline", "--baseline-reason", "why", "--baseline-owner", "me", "--repo-root", "x"]),
        None,
    )
    .unwrap();
    assert_eq!(mode, ValidateMode::Strict);
    assert!(wb);
    assert_eq!(root, "x");
    let bm = bm.unwrap();
    assert_eq!((bm.reason.as_str(), bm.owner.as_str()), ("why", "me"));
    assert_eq!(parse_validate_cli(&s(&["bogus"]), None).unwrap_err(), "unknown validate mode: bogus");
    assert_eq!(parse_validate_cli(&s(&["warn", "strict"]), None).unwrap_err(), "unknown argument: strict");
    assert_eq!(parse_validate_cli(&s(&["--repo-root"]), None).unwrap_err(), "--repo-root requires a value");
    assert_eq!(
        parse_validate_cli(&s(&["--baseline-reason", "r"]), None).unwrap_err(),
        "--baseline-owner is required when --baseline-reason is provided"
    );
    let (mode, _, root, bm) = parse_validate_cli(&[], Some("/env".to_string())).unwrap();
    assert_eq!(mode, ValidateMode::Ratchet);
    assert_eq!(root, "/env");
    assert!(bm.is_none());
}

#[test]
fn gate_cli() {
    let (kind, dry, ww, root) = parse_gate_cli(&s(&["ci", "--dry-run"]), None, Some("TRUE".to_string())).unwrap();
    assert_eq!(kind, GateKind::Ci);
    assert!(dry);
    assert!(ww);
    assert_eq!(root, ".");
    let (kind, _, ww, _) = parse_gate_cli(&[], None, Some("yes".to_string())).unwrap();
    assert_eq!(kind, GateKind::CiFast);
    assert!(!ww);
    assert_eq!(parse_gate_cli(&s(&["nightly"]), None, None).unwrap_err(), "unknown gate kind: nightly");
}

#[test]
fn init_cli() {
    let (req, root) = parse_init_cli(
        &s(&["--apply", "--packs", "builtin:rust, builtin:node", "--packs", "x", "--profile", "ai_first"]),
        Some("repo".to_string()),
    )
    .unwrap();
    assert_eq!(root, "repo");
    assert_eq!(req.repo_root.as_deref(), Some("repo"));
    assert_eq!(req.apply, Some(true));
    assert_eq!(req.profile.as_deref(), Some("ai_first"));
    assert_eq!(req.packs, Some(s(&["builtin:rust", "builtin:node", "x"])));
    let (req, _) = parse_init_cli(&[], None).unwrap();
    assert!(req.packs.is_none());
    assert_eq!(
        parse_init_cli(&s(&["--packs"]), None).unwrap_err(),
        "--packs requires a value (e.g. builtin:rust,builtin:node)"
    );
}

#[test]
fn plugins_cli() {
    let p = parse_plugins_cli(&s(&["install", "--plugins", "a", "--", "--registry", "x"]), None, None).unwrap();
    assert_eq!(p.action, PluginsAction::Install);
    assert_eq!(p.registry_source, default_plugin_registry_source());
    assert_eq!(p.installer_args, s(&["--plugins", "a", "--registry", "x"]));
    let p = parse_plugins_cli(&s(&["list", "--registry", "r.json"]), Some("env.json".to_string()), None).unwrap();
    assert_eq!(p.registry_source, "r.json");
    let p = parse_plugins_cli(&s(&["list"]), Some("env.json".to_string()), None).unwrap();
    assert_eq!(p.registry_source, "env.json");
    assert_eq!(
        parse_plugins_cli(&[], None, None).unwrap_err(),
        "plugins requires subcommand: install|update|uninstall|list|packs|info|doctor"
    );
    assert_eq!(parse_plugins_cli(&s(&["zap"]), None, None).unwrap_err(), "unknown plugins command: zap");
}
