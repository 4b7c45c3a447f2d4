use ai_dx_mcp::api::{ApiError, InitPlan, InitRequest, InitWriteFile};
use ai_dx_mcp::init::recommendations::{effective_pack_metadata, recommendations_for_manifest_languages};
use ai_dx_mcp::init::{allow_network_for_init, compas_init, ensure_allowed_scope, normalize_rel_path};
use ai_dx_mcp::registry_manifest::{
    validate_manifest_v1, RegistryArchiveV1, RegistryManifestV1, RegistryPackRecommendationV1, RegistryPackV1,
    RegistryPluginExtra, RegistryPluginPackageV1, RegistryPluginV1,
};

fn plugin(id: &str) -> RegistryPluginV1 {
    RegistryPluginV1 {
        id: id.to_string(),
        aliases: vec![],
        path: format!("plugins/{id}"),
        status: "community".to_string(),
        owner: "community".to_string(),
        description: format!("Plugin description for {id}"),
        package: RegistryPluginPackageV1 {
            version: "0.1.0".to_string(),
            kind: "tool-backed".to_string(),
            maturity: "stable".to_string(),
            runtime: "native".to_string(),
            portable: true,
            languages: vec!["rust".to_string()],
            entrypoint: "entry.sh".to_string(),
            license: "MIT".to_string(),
        },
        tier: Some("community".to_string()),
        maintainers: None,
        tags: None,
        extra: RegistryPluginExtra {
            requires: vec![],
            runtime_kind: Some("tool-backed".to_string()),
            cost_class: Some("medium".to_string()),
            sunset_marker: false,
        },
    }
}

fn manifest(packs: Vec<RegistryPackV1>) -> RegistryManifestV1 {
    RegistryManifestV1 {
        schema: "compas.registry.manifest.v1".to_string(),
        registry_version: "test".to_string(),
        archive: RegistryArchiveV1 { name: "registry.tar.gz".to_string(), sha256: "0".repeat(64) },
        plugins: vec![plugin("p1"), plugin("p2"), plugin("p3")],
        packs,
    }
}

fn rec(priority: u32, why: &str) -> RegistryPackRecommendationV1 {
    RegistryPackRecommendationV1 {
        priority,
        why: why.to_string(),
        languages_any: vec![],
        languages_all: vec![],
        signals_any: vec![],
        signals_all: vec![],
        when_no_languages: false,
    }
}

fn pack(id: &str, plugin: &str, recommendation: Option<RegistryPackRecommendationV1>) -> RegistryPackV1 {
    RegistryPackV1 {
        id: id.to_string(),
        description: format!("{id} description"),
        plugins: vec![plugin.to_string()],
        capabilities: vec!["guard".to_string(), "lint".to_string()],
        requires: vec![],
        runtime_kind: "tool-backed".to_string(),
        cost_class: "medium".to_string(),
        recommendation,
    }
}

#[test]
fn init_can_acquire_network_capability_token() {
    let _token = allow_network_for_init();
}

#[test]
fn recommendations_are_priority_sorted_then_pack_id() {
    let mut beta = rec(90, "Beta matches detected code languages.");
    beta.languages_any = vec!["rust".to_string()];
    let mut alpha = rec(90, "Alpha matches detected code languages.");
    alpha.languages_any = vec!["rust".to_string()];
    let mut zeta = rec(100, "Zeta matches detected code languages.");
    zeta.languages_any = vec!["rust".to_string()];
    let manifest = manifest(vec![
        pack("beta", "p1", Some(beta)),
        pack("alpha", "p2", Some(alpha)),
        pack("zeta", "p3", Some(zeta)),
    ]);
    let recommendations = recommendations_for_manifest_languages(&manifest, &[String::from("rust")], &[]);
    assert_eq!(
        recommendations.iter().map(|item| item.pack_id.as_str()).collect::<Vec<_>>(),
        vec!["zeta", "alpha", "beta"]
    );
}

#[test]
fn recommendations_use_no_language_fallback_only_for_empty_language_set() {
    let mut r = rec(95, "Safe default bundle when no supported language is detected.");
    r.when_no_languages = true;
    let manifest = manifest(vec![pack("starter-safe", "p1", Some(r))]);
    let no_languages = recommendations_for_manifest_languages(&manifest, &[], &[]);
    assert_eq!(no_languages.len(), 1);
    let rust_languages = recommendations_for_manifest_languages(&manifest, &[String::from("rust")], &[]);
    assert!(rust_languages.is_empty());
}

#[test]
fn recommendations_derive_pack_metadata_when_aggregate_fields_are_absent() {
    let mut derived = plugin("p1");
    derived.extra.requires = vec!["bootable".to_string()];
    derived.extra.runtime_kind = Some("hybrid".to_string());
    derived.extra.cost_class = Some("high".to_string());
    let mut r = rec(90, "Quality rails fit detected code languages.");
    r.languages_any = vec!["rust".to_string()];
    let manifest = RegistryManifestV1 {
        schema: "compas.registry.manifest.v1".to_string(),
        registry_version: "test".to_string(),
        archive: RegistryArchiveV1 { name: "registry.tar.gz".to_string(), sha256: "0".repeat(64) },
        plugins: vec![derived],
        packs: vec![RegistryPackV1 {
            id: "quality".to_string(),
            description: "quality description".to_string(),
            plugins: vec!["p1".to_string()],
            capabilities: vec![],
            requires: vec![],
            runtime_kind: String::new(),
            cost_class: String::new(),
            recommendation: Some(r),
        }],
    };
    let recommendations = recommendations_for_manifest_languages(&manifest, &[String::from("rust")], &[]);
    assert_eq!(recommendations.len(), 1);
    assert_eq!(recommendations[0].requires, vec!["bootable"]);
    assert_eq!(recommendations[0].runtime_kind, "hybrid");
    assert_eq!(recommendations[0].cost_class, "high");
}

#[test]
fn recommendations_match_repo_signals_and_report_which_matched() {
    let mut r = rec(100, "Proof kernel rails fit AI-first repos.");
    r.signals_any = vec!["ai_first_scaffold".to_string()];
    let manifest = manifest(vec![pack("ai-proof-core", "p1", Some(r))]);
    let recommendations = recommendations_for_manifest_languages(
        &manifest,
        &[String::from("rust")],
        &[String::from("ai_first_scaffold")],
    );
    assert_eq!(recommendations.len(), 1);
    assert_eq!(recommendations[0].matched_signals, ["ai_first_scaffold"]);
}

#[test]
fn manifest_validation_fails_closed_on_malformed_pack_recommendation() {
    let manifest = manifest(vec![pack("broken", "p1", Some(rec(10, "Broken recommendation is missing selectors.")))]);
    let err = validate_manifest_v1(&manifest).unwrap_err();
    assert!(err.contains("must define at least one selector"), "unexpected error: {err}");
}

#[test]
fn manifest_validation_allows_prior_pack_shape_without_aggregate_metadata() {
    let mut p = pack("prior", "p1", None);
    p.capabilities = vec![];
    p.runtime_kind = String::new();
    p.cost_class = String::new();
    let manifest = manifest(vec![p]);
    validate_manifest_v1(&manifest).expect("older manifest shape should stay compatible");
}

#[test]
fn manifest_validation_allows_signal_selectors() {
    let mut r = rec(50, "Signal selectors are valid for AI-first repos.");
    r.signals_any = vec!["ai_first_scaffold".to_string()];
    let manifest = manifest(vec![pack("proof", "p1", Some(r))]);
    validate_manifest_v1(&manifest).expect("signal selectors should validate");
}

#[test]
fn signals_all_must_all_be_present() {
    let mut r = rec(10, "needs both");
    r.signals_all = vec!["a".to_string(), "b".to_string()];
    let manifest = manifest(vec![pack("both", "p1", Some(r))]);
    assert!(recommendations_for_manifest_languages(&manifest, &[], &["a".to_string()]).is_empty());
    let got = recommendations_for_manifest_languages(&manifest, &[], &["b".to_string(), "a".to_string()]);
    assert_eq!(got.len(), 1);
    assert_eq!(got[0].matched_signals, vec!["b".to_string(), "a".to_string()]);
}

#[test]
fn derived_metadata_mixes_runtime_kinds_and_takes_costliest_class() {
    let mut a = plugin("p1");
    a.extra.runtime_kind = Some("native".to_string());
    a.extra.cost_class = Some("low".to_string());
    a.extra.requires = vec!["z".to_string(), "a".to_string()];
    let mut b = plugin("p2");
    b.extra.runtime_kind = Some("wasm".to_string());
    b.extra.cost_class = Some("medium".to_string());
    b.extra.requires = vec!["a".to_string()];
    let mut m = manifest(vec![]);
    m.plugins = vec![a, b];
    let mut p = pack("mix", "p1", None);
    p.plugins = vec!["p1".to_string(), "p2".to_string(), "missing".to_string()];
    p.runtime_kind = " ".to_string();
    let (requires, runtime_kind, cost_class) = effective_pack_metadata(&m, &p);
    assert_eq!(requires, vec!["a".to_string(), "z".to_string()]);
    assert_eq!(runtime_kind, "mixed");
    assert_eq!(cost_class, "medium");
}

#[test]
fn plan_paths_are_normalized_and_scoped() {
    assert_eq!(normalize_rel_path("  tools/custom/x/tool.toml ").unwrap(), "tools/custom/x/tool.toml");
    assert_eq!(normalize_rel_path("   ").unwrap_err().code, "init.plan_path_empty");
    let e = normalize_rel_path("a\\b").unwrap_err();
    assert_eq!(e.code, "init.plan_path_invalid");
    assert_eq!(e.message, "backslashes are not allowed in plan paths: \"a\\\\b\"");
    assert_eq!(
        normalize_rel_path("/etc/passwd").unwrap_err().message,
        "absolute paths are forbidden in plan: \"/etc/passwd\""
    );
    assert_eq!(
        normalize_rel_path("tools/../x").unwrap_err().message,
        "unsafe path in plan (.. or root): \"tools/../x\""
    );
    assert!(normalize_rel_path("tools/..x/y").is_ok());
    assert!(ensure_allowed_scope(".agents/mcp/compas/plugins/x.toml").is_ok());
    assert_eq!(ensure_allowed_scope("README.md").unwrap_err().code, "init.plan_path_forbidden");
}

fn req(apply: Option<bool>) -> InitRequest {
    InitRequest {
        repo_root: None,
        apply,
        profile: None,
        registry_source: None,
        packs: None,
        external_packs: None,
    }
}

fn plan() -> InitPlan {
    InitPlan {
        writes: vec![InitWriteFile { path: "tools/custom/x/tool.toml".to_string(), content_utf8: "hello".to_string() }],
        deletes: vec!["tools/custom/old".to_string()],
    }
}

#[test]
fn compas_init_shapes_output() {
    let dry = compas_init(".", req(None), Ok(plan()), None);
    assert!(dry.ok && !dry.applied);
    assert_eq!(dry.plan.as_ref().unwrap().writes[0].content_utf8, "hello");

    let applied = compas_init(".", req(Some(true)), Ok(plan()), None);
    assert!(applied.ok && applied.applied);
    let p = applied.plan.unwrap();
    assert_eq!(p.writes[0].path, "tools/custom/x/tool.toml");
    assert_eq!(
        p.writes[0].content_utf8,
        "[omitted by compas.init apply; run compas.init/apply=false to preview]"
    );
    assert_eq!(p.deletes, vec!["tools/custom/old".to_string()]);

    let failed_apply = compas_init(
        ".",
        req(Some(true)),
        Ok(plan()),
        Some(ApiError { code: "init.write_conflict".to_string(), message: "x".to_string() }),
    );
    assert!(!failed_apply.ok && !failed_apply.applied);
    assert_eq!(failed_apply.error.unwrap().code, "init.write_conflict");

    let failed_plan = compas_init(
        "/repo",
        req(Some(true)),
        Err(ApiError { code: "init.plan_failed".to_string(), message: "y".to_string() }),
        None,
    );
    assert!(!failed_plan.ok && failed_plan.plan.is_none());
    assert_eq!(failed_plan.repo_root, "/repo");
}

fn write(path: &str, content: &str) -> ai_dx_mcp::api::InitWriteFile {
    ai_dx_mcp::api::InitWriteFile { path: path.to_string(), content_utf8: content.to_string() }
}

fn absent(dest: &str) -> ai_dx_mcp::init_apply::WriteProbe {
    ai_dx_mcp::init_apply::WriteProbe {
        symlink_error: None,
        dest_debug: format!("{:?}", dest),
        existing: ai_dx_mcp::init_apply::Existing::Absent,
    }
}

#[test]
fn apply_plan_allows_ai_first_scaffold_files() {
    let plan = ai_dx_mcp::api::InitPlan {
        writes: vec![write("AGENTS.md", "router"), write("docs/index.md", "docs")],
        deletes: vec![],
    };
    let checked = ai_dx_mcp::init_apply::check_plan(&plan, &vec![absent("AGENTS.md"), absent("docs/index.md")], &vec![])
        .expect("apply ok");
    assert!(checked.skips.is_empty());
    assert!(ensure_allowed_scope("AGENTS.md").is_ok());
    assert!(ensure_allowed_scope("docs/index.md").is_ok());
    assert!(ensure_allowed_scope("docs/other.md").is_err());
}

#[test]
fn apply_plan_rejects_conflicting_ai_first_scaffold_file() {
    let plan = ai_dx_mcp::api::InitPlan { writes: vec![write("AGENTS.md", "router")], deletes: vec![] };
    let mut probe = absent("/repo/AGENTS.md");
    probe.existing = ai_dx_mcp::init_apply::Existing::File(Some("existing\n".to_string()));
    let err = ai_dx_mcp::init_apply::check_plan(&plan, &vec![probe.clone()], &vec![]).unwrap_err();
    assert_eq!(err.code, "init.write_conflict");
    probe.existing = ai_dx_mcp::init_apply::Existing::File(Some("router".to_string()));
    let checked = ai_dx_mcp::init_apply::check_plan(&plan, &vec![probe], &vec![]).unwrap();
    assert_eq!(checked.skips, vec!["AGENTS.md".to_string()]);
}

#[test]
fn tests_apply_plan_writes_files_under_allowlist() {
    let plan = ai_dx_mcp::api::InitPlan { writes: vec![write("tools/custom/x/tool.toml", "hello")], deletes: vec![] };
    assert!(ai_dx_mcp::init_apply::check_plan(&plan, &vec![absent("tools/custom/x/tool.toml")], &vec![]).is_ok());
}

#[test]
fn tests_apply_plan_rejects_paths_outside_allowlist() {
    let plan = ai_dx_mcp::api::InitPlan { writes: vec![write("README.md", "nope")], deletes: vec![] };
    let err = ai_dx_mcp::init_apply::check_plan(&plan, &vec![absent("README.md")], &vec![]).unwrap_err();
    assert_eq!(err.code, "init.plan_path_forbidden");
}

#[test]
fn apply_plan_refuses_duplicates_and_symlinks() {
    let plan = ai_dx_mcp::api::InitPlan {
        writes: vec![write("tools/custom/a", "1"), write(" tools/custom/a ", "2")],
        deletes: vec![],
    };
    let err = ai_dx_mcp::init_apply::check_plan(&plan, &vec![absent("a"), absent("a")], &vec![]).unwrap_err();
    assert_eq!(err.code, "init.plan_duplicate_path");
    assert_eq!(err.message, "duplicate write path in plan: \"tools/custom/a\"");
    let plan = ai_dx_mcp::api::InitPlan { writes: vec![], deletes: vec!["tools/custom/x".to_string()] };
    let link = ai_dx_mcp::api::ApiError { code: "init.plan_path_symlink".to_string(), message: "link".to_string() };
    let err = ai_dx_mcp::init_apply::check_plan(&plan, &vec![], &vec![Some(link)]).unwrap_err();
    assert_eq!(err.code, "init.plan_path_symlink");
    let ok = ai_dx_mcp::init_apply::check_plan(&plan, &vec![], &vec![None]).unwrap();
    assert_eq!(ok.deletes, vec!["tools/custom/x".to_string()]);
}
