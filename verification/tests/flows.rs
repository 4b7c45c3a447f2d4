use ai_dx_mcp::api::{BaselineMaintenance, DecisionStatus, GateKind, Receipt, ValidateMode, Violation, ViolationTier};
use ai_dx_mcp::exceptions::{apply_allowlist_entries, ExceptionEntry};
use ai_dx_mcp::gate_flow::{gate_start, gate_step, GateAction, GateEvent, GatePhase};
use ai_dx_mcp::gate_runner::IoErrorKind;
use ai_dx_mcp::validate_flow::validate_outcome;
use chrono::{Datelike, NaiveDate};

fn blocking(code: &str, path: &str) -> Violation {
    Violation::blocking(code.to_string(), "m".to_string(), Some(path.to_string()), None)
}

fn entry(path: &str, expires: &str) -> ExceptionEntry {
    ExceptionEntry {
        id: "ex-1".to_string(),
        rule: "loc.max_exceeded".to_string(),
        path: path.to_string(),
        owner: "team".to_string(),
        reason: "temporary".to_string(),
        expires_at: Some(expires.to_string()),
    }
}

fn today() -> i32 {
    NaiveDate::from_ymd_opt(2026, 1, 1).unwrap().num_days_from_ce()
}

fn receipt(tool: &str, success: bool) -> Receipt {
    Receipt {
        tool_id: tool.to_string(),
        success,
        exit_code: Some(if success { 0 } else { 1 }),
        timed_out: false,
        duration_ms: 10,
        command: "cmd".to_string(),
        args: vec![],
        stdout_tail: String::new(),
        stderr_tail: String::new(),
        stdout_bytes: 0,
        stderr_bytes: 0,
        stdout_sha256: "a".repeat(64),
        stderr_sha256: "b".repeat(64),
        structured_report: None,
    }
}

fn ids(xs: &[&str]) -> Vec<String> {
    xs.iter().map(|s| s.to_string()).collect()
}

#[test]
fn validate_refuses_baseline_write_without_maintenance() {
    let out = validate_outcome(ValidateMode::Ratchet, true, None, vec![], &[], today(), None, vec![], None, vec![]);
    assert!(!out.ok);
    assert_eq!(out.error.unwrap().code, "config.baseline_write_requires_maintenance");
    assert!(out.verdict.is_none());
    let short = BaselineMaintenance { reason: "too short".to_string(), owner: "me".to_string() };
    let out = validate_outcome(ValidateMode::Ratchet, true, Some(&short), vec![], &[], today(), None, vec![], None, vec![]);
    assert_eq!(out.error.unwrap().code, "config.baseline_maintenance_reason_too_short");
}

#[test]
fn validate_suppresses_then_appends_policy() {
    let checks = vec![blocking("loc.max_exceeded", "a.rs"), blocking("boundary.rule_violation", "b.rs")];
    let entries = [entry("a.rs", "2999-01-01")];
    let expected = apply_allowlist_entries(checks.clone(), &entries, today(), None);
    let policy = vec![blocking("failure_modes.catalog_too_small", "f.toml")];
    let later = vec![blocking("config.threshold_weakened", "q.toml")];
    let out = validate_outcome(ValidateMode::Ratchet, false, None, checks, &entries, today(), None, policy, Some(0), later);
    assert!(out.error.is_none());
    assert_eq!(out.suppressed.len(), expected.suppressed.len());
    let codes: Vec<&str> = out.violations.iter().map(|v| v.code.as_str()).collect();
    assert_eq!(
        codes,
        vec!["boundary.rule_violation", "failure_modes.catalog_too_small", "exception.budget_exceeded", "config.threshold_weakened"]
    );
    assert_eq!(out.violations[2].message, "suppressed violations (1) exceed max_exceptions (0)");
    let verdict = out.verdict.unwrap();
    assert_eq!(verdict.suppressed_count, 1);
    assert_eq!(verdict.decision.status, DecisionStatus::Blocked);
    assert!(!out.ok);
}

#[test]
fn validate_warn_mode_is_ok() {
    let out = validate_outcome(ValidateMode::Warn, false, None, vec![blocking("boundary.rule_violation", "b.rs")], &[], today(), None, vec![], None, vec![]);
    assert!(out.ok);
    let out = validate_outcome(ValidateMode::Strict, false, None, vec![], &[], today(), None, vec![], Some(3), vec![]);
    assert!(out.ok);
    assert!(out.violations.is_empty());
}

fn validated(tool_ids: Vec<String>) -> GateEvent {
    GateEvent::Validated { ok: true, violations: vec![], suppressed: vec![], quality_posture: None, tool_ids, impact: vec![] }
}

#[test]
fn gate_refuses_bad_sequences_before_running() {
    let (s, a) = gate_step(gate_start(GateKind::Ci, false), validated(vec![]));
    assert_eq!(s.phase, GatePhase::Done);
    match a {
        GateAction::Finish(f) => {
            assert!(!f.ok);
            assert_eq!(f.error.unwrap().code, "gate.empty_sequence");
        }
        _ => panic!("expected finish"),
    }
    let (_, a) = gate_step(gate_start(GateKind::Ci, false), validated(ids(&["a", "b", "a"])));
    match a {
        GateAction::Finish(f) => assert_eq!(f.error.unwrap().message, "gate kind=Ci contains duplicate tool_id=a"),
        _ => panic!("expected finish"),
    }
    let (_, a) = gate_step(
        gate_start(GateKind::Ci, false),
        GateEvent::Validated {
            ok: false,
            violations: vec![],
            suppressed: vec![],
            quality_posture: None,
            tool_ids: ids(&["a"]),
            impact: vec![],
        },
    );
    match a {
        GateAction::Finish(f) => assert_eq!(f.error.unwrap().code, "gate.validate_failed"),
        _ => panic!("expected finish"),
    }
}

#[test]
fn gate_runs_tools_in_order_and_passes() {
    let (s, a) = gate_step(gate_start(GateKind::CiFast, false), validated(ids(&["a", "b"])));
    assert!(matches!(a, GateAction::RunTool(ref t) if t == "a"));
    let ev = GateEvent::ToolFinished { receipt: receipt("a", true), contract: None, report_violations: vec![] };
    let (s, a) = gate_step(s, ev);
    assert!(matches!(a, GateAction::RunTool(ref t) if t == "b"));
    let ev = GateEvent::ToolFinished { receipt: receipt("b", true), contract: None, report_violations: vec![] };
    let (s, a) = gate_step(s, ev);
    assert_eq!(s.receipts.len(), 2);
    match a {
        GateAction::Finish(f) => {
            assert!(f.ok);
            assert!(f.error.is_none());
        }
        _ => panic!("expected finish"),
    }
}

#[test]
fn gate_stops_on_failed_tool_and_spent_budget() {
    let (s, _) = gate_step(gate_start(GateKind::Ci, false), validated(ids(&["a", "b"])));
    let ev = GateEvent::ToolFinished { receipt: receipt("a", false), contract: None, report_violations: vec![] };
    let (s2, a) = gate_step(s, ev);
    assert_eq!(s2.phase, GatePhase::Done);
    match a {
        GateAction::Finish(f) => assert_eq!(f.error.unwrap().code, "gate.blocked"),
        _ => panic!("expected finish"),
    }

    let (s, _) = gate_step(gate_start(GateKind::Ci, false), validated(ids(&["a"])));
    let (s, a) = gate_step(s, GateEvent::BudgetSpent { budget_ms: 500 });
    assert_eq!(s.violations.last().unwrap().message, "gate call budget exhausted before tool_id=a");
    match a {
        GateAction::Finish(f) => {
            assert_eq!(f.verdict.decision.status, DecisionStatus::Retryable);
            assert_eq!(f.error.unwrap().code, "gate.retryable");
        }
        _ => panic!("expected finish"),
    }

    let (s, _) = gate_step(gate_start(GateKind::Ci, false), validated(ids(&["a"])));
    let (s, _) = gate_step(s, GateEvent::ToolNotRun { kind: IoErrorKind::NotFound, message: "no such file".to_string() });
    let last = s.violations.last().unwrap();
    assert_eq!(last.message, "tool_id=a: no such file");
    assert_eq!(last.tier, ViolationTier::Blocking);
}

#[test]
fn gate_rejects_receipt_without_hashes() {
    let (s, _) = gate_step(gate_start(GateKind::Ci, false), validated(ids(&["a", "b"])));
    let mut r = receipt("a", true);
    r.stdout_sha256 = " ".to_string();
    let (s, a) = gate_step(s, GateEvent::ToolFinished { receipt: r, contract: None, report_violations: vec![] });
    assert!(s.receipts.is_empty());
    match a {
        GateAction::Finish(f) => assert_eq!(f.error.unwrap().code, "gate.receipt_invariant_failed"),
        _ => panic!("expected finish"),
    }
}

#[test]
fn gate_verdict_carries_validate_suppression() {
    let sup = vec![blocking("loc.max_exceeded", "a.rs"), blocking("boundary.rule_violation", "b.rs"), blocking("loc.max_exceeded", "c.rs")];
    let ev = GateEvent::Validated { ok: true, violations: vec![], suppressed: sup, quality_posture: None, tool_ids: ids(&["a"]), impact: vec![] };
    let (s, _) = gate_step(gate_start(GateKind::Ci, false), ev);
    let (s, a) = gate_step(s, GateEvent::BudgetSpent { budget_ms: 0 });
    assert!(s.receipts.is_empty());
    match a {
        GateAction::Finish(f) => {
            assert!(!f.ok);
            assert_eq!(f.error.unwrap().code, "gate.retryable");
            assert_eq!(f.verdict.suppressed_count, 3);
            assert_eq!(f.verdict.suppressed_codes, ids(&["boundary.rule_violation", "loc.max_exceeded"]));
        }
        _ => panic!("expected finish"),
    }
}

#[test]
fn validate_verdict_lists_suppressed_codes() {
    let checks = vec![blocking("loc.max_exceeded", "a.rs")];
    let entries = [entry("a.rs", "2999-01-01")];
    let out = validate_outcome(ValidateMode::Ratchet, false, None, checks, &entries, today(), None, vec![], None, vec![]);
    let v = out.verdict.unwrap();
    assert_eq!(v.suppressed_codes, ids(&["loc.max_exceeded"]));
    assert!(out.ok);
}
