use ai_dx_mcp::api::{ApiError, DecisionStatus, GateKind, Violation};
use ai_dx_mcp::evidence::{
    build_exec_envelope, build_gate_envelope, simple_cost_class, ExecEvidenceInput, ExecReceiptEvidence,
    GateEvidenceInput, ReceiptEvidence, ReportEvidence, ReportFinding, ReportRemediation,
};

fn lint_report() -> ReportEvidence {
    ReportEvidence {
        findings: vec![ReportFinding {
            code: Some("lint.example".to_string()),
            message: Some("Fix me".to_string()),
            path: Some("src/lib.rs".to_string()),
            severity: Some("high".to_string()),
        }],
        report_path: Some("reports/custom.json".to_string()),
        report_sha256: Some("c".repeat(64)),
        summary_compact: Some("lint findings present".to_string()),
        summary_top_findings: vec!["lint.example".to_string()],
        remediation: vec![ReportRemediation::Steps(
            Some("Clean up lint".to_string()),
            vec!["Remove unused import".to_string(), "Rerun lint".to_string()],
        )],
    }
}

#[test]
fn build_exec_envelope_prefers_structured_report_summary_and_remediation() {
    let out = ExecEvidenceInput {
        ok: false,
        repo_root: ".".to_string(),
        error: Some(ApiError {
            code: "tools.structured_report.blocking_findings".to_string(),
            message: "blocking findings".to_string(),
        }),
        receipt: Some(ExecReceiptEvidence {
            tool_id: "structured".to_string(),
            success: true,
            duration_ms: 10,
            report: Some(lint_report()),
        }),
    };
    let envelope = build_exec_envelope(&out);
    assert_eq!(envelope.summary.compact, "lint findings present");
    assert_eq!(envelope.summary.top_findings, vec!["lint.example".to_string()]);
    assert_eq!(envelope.remediation, vec!["Clean up lint: Remove unused import; Rerun lint".to_string()]);
}

#[test]
fn build_exec_envelope_keeps_deterministic_fallback_for_legacy_reports() {
    let report = ReportEvidence {
        findings: vec![ReportFinding {
            code: Some("legacy.warn".to_string()),
            message: Some("Legacy warning".to_string()),
            path: None,
            severity: Some("medium".to_string()),
        }],
        report_path: Some("reports/legacy.json".to_string()),
        report_sha256: Some("d".repeat(64)),
        summary_compact: None,
        summary_top_findings: vec![],
        remediation: vec![],
    };
    let out = ExecEvidenceInput {
        ok: false,
        repo_root: ".".to_string(),
        error: None,
        receipt: Some(ExecReceiptEvidence {
            tool_id: "structured".to_string(),
            success: true,
            duration_ms: 10,
            report: Some(report),
        }),
    };
    let envelope = build_exec_envelope(&out);
    assert_eq!(envelope.summary.compact, "exec status=blocked; tool_id=structured; success=true; duration_ms=10");
    assert_eq!(envelope.summary.top_findings, vec!["legacy.warn".to_string()]);
    assert_eq!(
        envelope.remediation,
        vec!["inspect receipt stderr_tail and structured_report, then rerun compas.exec.".to_string()]
    );
}

#[test]
fn build_gate_envelope_surfaces_structured_report_context() {
    let out = GateEvidenceInput {
        ok: false,
        repo_root: ".".to_string(),
        kind: GateKind::CiFast,
        validate_violations: vec![],
        receipts: vec![ReceiptEvidence { tool_id: "structured".to_string(), success: true, report: Some(lint_report()) }],
        witness: None,
        witness_path: None,
        verdict_status: None,
        digest_fix_steps: None,
    };
    let envelope = build_gate_envelope(&out);
    assert_eq!(envelope.summary.compact, "gate kind=ci_fast; validate_violations=0; report=lint findings present");
    assert_eq!(envelope.summary.top_findings, vec!["lint.example".to_string()]);
    assert_eq!(envelope.remediation, vec!["Clean up lint: Remove unused import; Rerun lint".to_string()]);
}

#[test]
fn gate_envelope_without_reports() {
    let out = GateEvidenceInput {
        ok: true,
        repo_root: "/r".to_string(),
        kind: GateKind::Flagship,
        validate_violations: vec![Violation::observation("loc.max_exceeded".to_string(), "m".to_string(), None, None)],
        receipts: vec![ReceiptEvidence { tool_id: "t".to_string(), success: false, report: None }],
        witness: Some(("w.json".to_string(), "sha".to_string())),
        witness_path: None,
        verdict_status: Some(DecisionStatus::Retryable),
        digest_fix_steps: None,
    };
    let e = build_gate_envelope(&out);
    assert_eq!(e.status, "retryable");
    assert!(e.blocking);
    assert_eq!(e.findings.len(), 2);
    assert_eq!(e.findings[1].message, "tool t failed inside gate");
    assert_eq!(e.summary.compact, "gate status=retryable; kind=flagship; receipts=1; validate_violations=1");
    assert_eq!(e.summary.top_findings, vec!["loc.max_exceeded".to_string(), "gate.tool_failed".to_string()]);
    assert_eq!(e.remediation, vec!["fix blocking findings and rerun compas.gate kind=ci_fast.".to_string()]);
    assert_eq!(e.artifacts.len(), 1);
    assert_eq!(e.cost_class, "high");
    assert_eq!(e.evidence_ref, "gate:flagship:sha");
}

#[test]
fn cost_classes() {
    assert_eq!(simple_cost_class(false, 0, 0), "low");
    assert_eq!(simple_cost_class(false, 1, 0), "medium");
    assert_eq!(simple_cost_class(false, 12, 0), "high");
    assert_eq!(simple_cost_class(true, 0, 0), "high");
}
