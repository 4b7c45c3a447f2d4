use ai_dx_mcp::api::{DecisionReason, DecisionStatus, ErrorClass, ValidateMode, Violation, ViolationTier};
use ai_dx_mcp::judge::registry::classify;
use ai_dx_mcp::judge::{decide_gate, decide_validate, judge_gate, judge_validate};

fn severity_ord(s: DecisionStatus) -> u8 {
    match s {
        DecisionStatus::Pass => 0,
        DecisionStatus::Retryable => 1,
        DecisionStatus::Blocked => 2,
    }
}

fn reason(code: &str, class: ErrorClass, tier: ViolationTier) -> DecisionReason {
    DecisionReason { code: code.to_string(), class, tier }
}

#[test]
fn no_blocking_yields_pass() {
    let reasons = vec![reason("loc.max_exceeded", ErrorClass::ContractBreak, ViolationTier::Observation)];
    assert_eq!(decide_gate(&reasons), DecisionStatus::Pass);
}

#[test]
fn transient_only_yields_retryable() {
    let reasons = vec![reason("gate.run_failed", ErrorClass::TransientTool, ViolationTier::Blocking)];
    assert_eq!(decide_gate(&reasons), DecisionStatus::Retryable);
}

#[test]
fn any_hard_block_yields_blocked() {
    let reasons = vec![
        reason("gate.run_failed", ErrorClass::TransientTool, ViolationTier::Blocking),
        reason("boundary.rule_violation", ErrorClass::ContractBreak, ViolationTier::Blocking),
    ];
    assert_eq!(decide_gate(&reasons), DecisionStatus::Blocked);
}

#[test]
fn monotonicity_adding_reason_never_softens() {
    let base = vec![reason("boundary.rule_violation", ErrorClass::ContractBreak, ViolationTier::Blocking)];
    let status_before = decide_gate(&base);
    let mut extended = base.clone();
    extended.push(reason("loc.max_exceeded", ErrorClass::ContractBreak, ViolationTier::Observation));
    let status_after = decide_gate(&extended);
    assert!(severity_ord(status_after) >= severity_ord(status_before));
}

#[test]
fn validate_mode_warn_never_returns_retryable() {
    let reasons = vec![reason("boundary.rule_violation", ErrorClass::ContractBreak, ViolationTier::Blocking)];
    assert_eq!(decide_validate(&reasons, ValidateMode::Warn), DecisionStatus::Pass);
    assert_eq!(decide_validate(&reasons, ValidateMode::Ratchet), DecisionStatus::Blocked);
}

#[test]
fn judge_validate_sets_default_verdict_metadata() {
    let violations = vec![Violation::blocking(
        "boundary.rule_violation".to_string(),
        "blocked".to_string(),
        None,
        None,
    )];
    let verdict = judge_validate(&violations, ValidateMode::Ratchet);
    assert!(verdict.quality_posture.is_none());
    assert_eq!(verdict.suppressed_count, 0);
    assert!(verdict.suppressed_codes.is_empty());
}

#[test]
fn judge_gate_sets_default_verdict_metadata() {
    let validate_violations = vec![Violation::observation(
        "loc.max_exceeded".to_string(),
        "obs".to_string(),
        None,
        None,
    )];
    let verdict = judge_gate(&validate_violations, &[], &[]);
    assert!(verdict.quality_posture.is_none());
    assert_eq!(verdict.suppressed_count, 0);
    assert!(verdict.suppressed_codes.is_empty());
}

#[test]
fn unknown_code_is_unknown_blocking() {
    let (class, tier) = classify("something.never.seen");
    assert_eq!(class, ErrorClass::Unknown);
    assert_eq!(tier, ViolationTier::Blocking);
}

#[test]
fn suffix_has_priority_over_prefix() {
    let (class, tier) = classify("loc.read_failed");
    assert_eq!(class, ErrorClass::RuntimeRisk);
    assert_eq!(tier, ViolationTier::Blocking);
}

#[test]
fn observation_tier_for_loc_surface_duplicates() {
    for code in ["loc.max_exceeded", "surface.max_exceeded", "duplicates.found", "gate.observation.trace"] {
        let (_class, tier) = classify(code);
        assert_eq!(tier, ViolationTier::Observation, "{code}");
    }
}

#[test]
fn quality_delta_is_blocking() {
    let (class, tier) = classify("quality_delta.trust_regression");
    assert_eq!(class, ErrorClass::QualityRegression);
    assert_eq!(tier, ViolationTier::Blocking);
}

#[test]
fn gate_run_failed_transient_is_retryable_class() {
    let (class, tier) = classify("gate.run_failed_transient");
    assert_eq!(class, ErrorClass::TransientTool);
    assert_eq!(tier, ViolationTier::Blocking);
}

#[test]
fn gate_run_failed_non_transient_is_runtime_risk() {
    let (class, tier) = classify("gate.run_failed");
    assert_eq!(class, ErrorClass::RuntimeRisk);
    assert_eq!(tier, ViolationTier::Blocking);
}

#[test]
fn exception_window_exceeded_is_contract_break_blocking() {
    let (class, tier) = classify("exception.window_exceeded");
    assert_eq!(class, ErrorClass::ContractBreak);
    assert_eq!(tier, ViolationTier::Blocking);
}

#[test]
fn gate_decision_of_validate_and_receipt_violations() {
    // A blocking validate violation blocks the run even when tools pass.
    let validate = vec![Violation::blocking("boundary.rule_violation".to_string(), "x".to_string(), None, None)];
    let verdict = judge_gate(&validate, &[], &[]);
    assert_eq!(verdict.decision.status, DecisionStatus::Blocked);
    assert_eq!(verdict.decision.blocking_count, 1);
    assert_eq!(verdict.decision.observation_count, 0);
}

#[test]
fn observations_alone_never_block_validate() {
    let violations = vec![Violation::observation("loc.max_exceeded".to_string(), "x".to_string(), None, None)];
    let verdict = judge_validate(&violations, ValidateMode::Strict);
    assert_eq!(verdict.decision.status, DecisionStatus::Pass);
}
