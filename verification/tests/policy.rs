use ai_dx_mcp::api::{BaselineMaintenance, DecisionStatus, ValidateMode, Violation, ViolationTier};
use ai_dx_mcp::config::{ChecksConfigV2, LocCheckConfigV2, ProjectTool};
use ai_dx_mcp::env_registry::{
    collect_tool_env_usage, env_registry_failure, env_registry_result, is_valid_env_name, normalize_env_specs,
    redact_value, EnvValue, EnvVarSpec,
};
use ai_dx_mcp::failure_modes::{default_failure_mode_catalog, validate_catalog};
use ai_dx_mcp::validate_policy::{
    allow_any_violations, baseline_write_precheck, collect_suppressed_codes, config_hash_violation,
    exception_count_violation, failure_mode_violations, mandatory_check_violations, quality_contract_missing_violation,
    validate_ok,
};
use ai_dx_mcp::api::EffectiveConfigSource;

fn s(v: &[&str]) -> Vec<String> {
    v.iter().map(|x| x.to_string()).collect()
}

fn empty_checks() -> ChecksConfigV2 {
    ChecksConfigV2 {
        loc: vec![],
        env_registry: vec![],
        boundary: vec![],
        surface: vec![],
        duplicates: vec![],
        supply_chain: vec![],
        tool_budget: vec![],
        reuse_first: vec![],
        arch_layers: vec![],
        dead_code: vec![],
        orphan_api: vec![],
        complexity_budget: vec![],
        contract_break: vec![],
    }
}

#[test]
fn baseline_writes_need_maintenance() {
    assert!(baseline_write_precheck(ValidateMode::Strict, true, None).is_none());
    assert_eq!(
        baseline_write_precheck(ValidateMode::Ratchet, true, None).unwrap().code,
        "config.baseline_write_requires_maintenance"
    );
    let short = BaselineMaintenance { reason: "short".to_string(), owner: "o".to_string() };
    let e = baseline_write_precheck(ValidateMode::Ratchet, true, Some(&short)).unwrap();
    assert_eq!(e.code, "config.baseline_maintenance_reason_too_short");
    assert_eq!(e.message, "baseline_maintenance.reason must be >=20 chars (got 5)");
}

#[test]
fn policy_violations() {
    let v = allow_any_violations(&s(&["p1"]));
    assert_eq!(v[0].message, "plugin p1 uses allow_any tool policy; this bypasses execution safety rails");
    let mut checks = empty_checks();
    checks.loc.push(LocCheckConfigV2 {
        id: "loc".to_string(),
        max_loc: 10,
        include_globs: vec![],
        exclude_globs: vec![],
        baseline_path: "b".to_string(),
    });
    let m = mandatory_check_violations(&checks, &s(&["loc", "boundary"]));
    assert_eq!(m.len(), 1);
    assert_eq!(m[0].message, "mandatory check 'boundary' is not configured");
    assert_eq!(quality_contract_missing_violation(ValidateMode::Warn).tier, ViolationTier::Observation);
    assert_eq!(quality_contract_missing_violation(ValidateMode::Strict).tier, ViolationTier::Blocking);
    let f = failure_mode_violations(&s(&["a", "b"]), &s(&["b", "c"]), 3);
    assert_eq!(f.len(), 2);
    assert_eq!(f[0].message, "mandatory failure mode 'c' not in catalog");
    assert_eq!(f[1].message, "failure mode catalog has 2 modes, minimum is 3");
    assert_eq!(
        exception_count_violation(11, 10).unwrap().message,
        "suppressed violations (11) exceed max_exceptions (10)"
    );
    assert!(exception_count_violation(10, 10).is_none());
    assert!(config_hash_violation(&Some("h".to_string()), "h").is_none());
    assert_eq!(config_hash_violation(&Some("h".to_string()), "g").unwrap().code, "config.threshold_weakened");
    assert!(validate_ok(ValidateMode::Warn, DecisionStatus::Blocked));
    assert!(!validate_ok(ValidateMode::Ratchet, DecisionStatus::Retryable));
    let codes = collect_suppressed_codes(&vec![
        Violation::blocking("b".to_string(), "m".to_string(), None, None),
        Violation::blocking("a".to_string(), "m".to_string(), None, None),
        Violation::blocking("b".to_string(), "m".to_string(), None, None),
    ]);
    assert_eq!(codes, s(&["a", "b"]));
}

#[test]
fn failure_mode_catalog_rules() {
    assert_eq!(default_failure_mode_catalog().len(), 10);
    assert_eq!(
        validate_catalog(s(&[" policy_theater", "unplugged_iron", "fail_open"])).unwrap(),
        s(&["policy_theater", "unplugged_iron", "fail_open"])
    );
    assert_eq!(
        validate_catalog(s(&["policy_theater", "policy_theater"])).unwrap_err(),
        "duplicate failure mode id 'policy_theater'"
    );
    assert_eq!(validate_catalog(vec![]).unwrap_err(), "failure mode catalog must not be empty");
    assert_eq!(validate_catalog(s(&["Bad"])).unwrap_err(), "invalid failure mode id 'Bad'");
    assert_eq!(validate_catalog(s(&[" "])).unwrap_err(), "failure mode catalog contains empty id");
}

fn tool(id: &str, env: &[&str]) -> ProjectTool {
    ProjectTool {
        id: id.to_string(),
        description: "d".to_string(),
        command: "c".to_string(),
        args: vec![],
        cwd: None,
        timeout_ms: None,
        max_stdout_bytes: None,
        max_stderr_bytes: None,
        receipt_contract: None,
        env: env.iter().map(|e| (e.to_string(), "v".to_string())).collect(),
    }
}

fn spec(name: &str, required: bool, default: Option<&str>, sensitive: bool) -> EnvVarSpec {
    EnvVarSpec {
        name: name.to_string(),
        description: Some(" about ".to_string()),
        required,
        default: default.map(|d| d.to_string()),
        sensitive,
    }
}

#[test]
fn env_registry_rules() {
    assert!(is_valid_env_name("API_KEY2"));
    assert!(!is_valid_env_name("api_key"));
    assert!(!is_valid_env_name("1ABC"));
    assert_eq!(redact_value("secret".to_string(), true), "<redacted>");
    assert_eq!(redact_value("plain".to_string(), false), "plain");

    let tools = vec![tool("t2", &["B", "A"]), tool("t1", &["A"])];
    let usage = collect_tool_env_usage(&tools);
    assert_eq!(usage, vec![("A".to_string(), s(&["t1", "t2"])), ("B".to_string(), s(&["t2"]))]);

    let specs = normalize_env_specs(
        "env.toml",
        vec![spec(" TOKEN ", true, None, true), spec("A", false, Some("1"), false)],
    )
    .unwrap();
    assert_eq!(specs[0].name, "A");
    assert_eq!(specs[1].name, "TOKEN");
    assert_eq!(specs[1].description.as_deref(), Some("about"));

    let dup = normalize_env_specs("env.toml", vec![spec("A", false, None, false), spec("A ", false, None, false)]);
    assert_eq!(dup.unwrap_err().message, "duplicate env var in registry: A");
    let bad = normalize_env_specs("env.toml", vec![spec("lower", false, None, false)]);
    assert_eq!(bad.unwrap_err().message, "invalid env var name in registry: lower");

    let values = vec![EnvValue::Unset, EnvValue::Utf8("s3cr3t".to_string())];
    let r = env_registry_result("env.toml", &usage, &specs, &values);
    let codes: Vec<&str> = r.violations.iter().map(|v| v.code.as_str()).collect();
    assert_eq!(codes, vec!["env.unregistered_usage"]);
    assert_eq!(r.violations[0].message, "env var B is used by tools but missing in registry env.toml");
    assert_eq!(r.summary.entries[0].source, EffectiveConfigSource::Default);
    assert_eq!(r.summary.entries[0].value.as_deref(), Some("1"));
    assert_eq!(r.summary.entries[0].used_by_tools, s(&["t1", "t2"]));
    assert_eq!(r.summary.entries[1].value.as_deref(), Some("<redacted>"));
    assert_eq!(r.summary.registered_vars, 2);
    assert_eq!(r.summary.used_vars, s(&["A", "B"]));

    let missing = env_registry_result("env.toml", &vec![], &vec![spec("R", true, None, false)], &vec![EnvValue::Unset]);
    assert_eq!(missing.violations[0].code, "env.required_missing");
    assert_eq!(missing.violations[0].message, "required env var R is missing and has no default");

    let f = env_registry_failure("env.toml", &usage, "env.registry_missing", "gone".to_string());
    assert_eq!(f.violations.len(), 1);
    assert_eq!(f.violations[0].tier, ViolationTier::Observation);
    assert!(f.summary.entries.is_empty());
}
