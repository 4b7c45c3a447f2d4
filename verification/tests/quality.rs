use ai_dx_mcp::api::{BaselineMaintenance, Violation};
use ai_dx_mcp::config::QualityContractConfig;
use ai_dx_mcp::quality_delta::{
    check_baseline_write, check_snapshot_version, compare, prior_baseline_snapshot, quality_delta_violations,
    DuplicateGroup, DuplicatesBaseline, FileUniverse, LocBaseline, QualitySnapshot, SurfaceBaseline,
    SNAPSHOT_VERSION,
};

fn default_contract() -> QualityContractConfig {
    QualityContractConfig::default()
}

fn sample_snapshot() -> QualitySnapshot {
    QualitySnapshot {
        version: SNAPSHOT_VERSION,
        trust_score: 85,
        coverage_covered: 8,
        coverage_total: 10,
        weighted_risk: 12,
        findings_total: 3,
        risk_by_severity: vec![("high".to_string(), 1), ("medium".to_string(), 2)],
        loc_per_file: vec![("src/main.rs".to_string(), 100)],
        surface_items: vec!["src/api.rs::pub_fn:validate".to_string()],
        duplicate_groups: vec![],
        file_universe: FileUniverse {
            loc_universe: 50,
            loc_scanned: 45,
            surface_universe: 50,
            surface_scanned: 45,
            boundary_universe: 50,
            boundary_scanned: 50,
            duplicates_universe: 50,
            duplicates_scanned: 50,
        },
        written_at: "2026-02-17T12:00:00Z".to_string(),
        written_by: None,
        config_hash: "sha256:abc".to_string(),
    }
}

fn run(baseline: &QualitySnapshot, current: &QualitySnapshot) -> Vec<Violation> {
    compare(baseline, current, &default_contract(), vec![], vec![])
}

#[test]
fn trust_regression_detected() {
    let baseline = sample_snapshot();
    let mut current = sample_snapshot();
    current.trust_score = baseline.trust_score - 1;
    let violations = run(&baseline, &current);
    assert!(violations.iter().any(|v| v.code == "quality_delta.trust_regression"));
}

#[test]
fn trust_below_minimum_detected() {
    let baseline = sample_snapshot();
    let mut current = sample_snapshot();
    current.trust_score = 30;
    let violations = run(&baseline, &current);
    assert!(violations.iter().any(|v| v.code == "quality_delta.trust_below_minimum"));
}

#[test]
fn coverage_regression_detected() {
    let baseline = sample_snapshot();
    let mut current = sample_snapshot();
    current.coverage_covered = baseline.coverage_covered - 1;
    let violations = run(&baseline, &current);
    assert!(violations.iter().any(|v| v.code == "quality_delta.coverage_regression"));
}

#[test]
fn risk_profile_regression_detected() {
    let baseline = sample_snapshot();
    let mut current = sample_snapshot();
    current.weighted_risk = baseline.weighted_risk + 1;
    let violations = run(&baseline, &current);
    assert!(violations.iter().any(|v| v.code == "quality_delta.risk_profile_regression"));
}

#[test]
fn loc_regression_detected() {
    let baseline = sample_snapshot();
    let mut current = sample_snapshot();
    current.loc_per_file = vec![("src/main.rs".to_string(), 200)];
    let violations = run(&baseline, &current);
    assert!(violations.iter().any(|v| v.code == "quality_delta.loc_regression"));
}

#[test]
fn surface_regression_detected() {
    let baseline = sample_snapshot();
    let mut current = sample_snapshot();
    current.surface_items.push("src/api.rs::pub_fn:new_thing".to_string());
    let violations = run(&baseline, &current);
    assert!(violations.iter().any(|v| v.code == "quality_delta.surface_regression"));
}

#[test]
fn config_changed_detected() {
    let baseline = sample_snapshot();
    let mut current = sample_snapshot();
    current.config_hash = "sha256:different".to_string();
    let violations = run(&baseline, &current);
    assert!(violations.iter().any(|v| v.code == "quality_delta.config_changed"));
}

#[test]
fn no_regressions_yields_empty() {
    let baseline = sample_snapshot();
    let current = sample_snapshot();
    let violations = run(&baseline, &current);
    assert!(violations.is_empty(), "{violations:#?}");
}

#[test]
fn regression_messages_and_order() {
    let baseline = sample_snapshot();
    let mut current = sample_snapshot();
    current.trust_score = 50;
    current.weighted_risk = 20;
    current.duplicate_groups = vec![vec!["a".to_string(), "b".to_string()]];
    current.config_hash = "sha256:new".to_string();
    let v = run(&baseline, &current);
    let codes: Vec<&str> = v.iter().map(|v| v.code.as_str()).collect();
    assert_eq!(
        codes,
        vec![
            "quality_delta.trust_regression",
            "quality_delta.trust_below_minimum",
            "quality_delta.risk_profile_regression",
            "quality_delta.duplicates_regression",
            "quality_delta.config_changed",
        ]
    );
    assert_eq!(v[0].message, "trust score regressed: baseline=85, current=50");
    assert_eq!(v[1].message, "trust score 50 below minimum 60");
    assert_eq!(v[2].message, "weighted risk increased: baseline=12, current=20, increase=8, max_allowed=0");
    assert_eq!(v[3].message, "new duplicate groups: 1 added");
}

#[test]
fn without_baseline_only_minimums_apply() {
    let mut current = sample_snapshot();
    current.trust_score = 10;
    let v = quality_delta_violations(None, &current, &default_contract(), true, false, vec![], vec![]);
    assert_eq!(v.len(), 1);
    assert_eq!(v[0].code, "quality_delta.trust_below_minimum");
    let none = quality_delta_violations(None, &current, &default_contract(), true, true, vec![], vec![]);
    assert!(none.is_empty());
}

#[test]
fn snapshot_version_is_bounded() {
    let mut snap = sample_snapshot();
    assert!(check_snapshot_version(&snap).is_ok());
    snap.version = 999;
    assert_eq!(check_snapshot_version(&snap).unwrap_err(), "quality snapshot version 999 > supported max 1");
}

#[test]
fn baseline_rewrite_needs_a_reason() {
    assert!(check_baseline_write(false, None).is_ok());
    assert_eq!(
        check_baseline_write(true, None).unwrap_err(),
        "write_baseline=true in ratchet mode requires baseline_maintenance"
    );
    let short = BaselineMaintenance { reason: "  too short ".to_string(), owner: "me".to_string() };
    assert_eq!(
        check_baseline_write(true, Some(&short)).unwrap_err(),
        "baseline_maintenance.reason must be >=20 chars (got 9)"
    );
    let ok = BaselineMaintenance {
        reason: "Quarterly baseline refresh after policy change".to_string(),
        owner: "lead".to_string(),
    };
    assert!(check_baseline_write(true, Some(&ok)).is_ok());
}

#[test]
fn prior_baselines_become_a_snapshot() {
    let loc = LocBaseline { files: vec![("a.rs".to_string(), 3)] };
    let surface = SurfaceBaseline { items: vec!["x".to_string()] };
    let dups = DuplicatesBaseline {
        groups: vec![DuplicateGroup { sha256: "s".to_string(), paths: vec!["z".to_string(), "b".to_string()] }],
    };
    let s = prior_baseline_snapshot(70, 1, 2, 3, "sha256:h", "t".to_string(), Some(&loc), Some(&surface), Some(&dups));
    assert_eq!(s.loc_per_file, vec![("a.rs".to_string(), 3)]);
    assert_eq!(s.surface_items, vec!["x".to_string()]);
    assert_eq!(s.duplicate_groups, vec![vec!["b".to_string(), "z".to_string()]]);
    assert_eq!(s.findings_total, 0);
    assert_eq!(s.config_hash, "sha256:h");
}
