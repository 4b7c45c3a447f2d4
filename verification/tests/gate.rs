use ai_dx_mcp::api::{DecisionStatus, GateKind, Receipt, ViolationTier};
use ai_dx_mcp::config::{GateConfig, ImpactRule, ImpactUnmappedPathPolicy, QualityContractConfig, ToolReceiptContract};
use ai_dx_mcp::gate_runner::{
    check_receipt_contract, classify_run_failed, effective_receipt_contract, effective_write_witness,
    ensure_gate_sequence_invariants, ensure_receipt_invariants, gate_error_for_status, gate_tool_ids,
    merge_base_candidates, remaining_budget_ms, required_tool_violations, required_tools_for_changes,
    unmapped_path_violations, IoErrorKind,
};

fn mk_receipt(stdout_tail: &str, stderr_tail: &str) -> Receipt {
    Receipt {
        tool_id: "tool-x".to_string(),
        success: true,
        exit_code: Some(0),
        timed_out: false,
        duration_ms: 1_500,
        command: "cmd".to_string(),
        args: vec![],
        stdout_tail: stdout_tail.to_string(),
        stderr_tail: stderr_tail.to_string(),
        stdout_bytes: 128,
        stderr_bytes: 64,
        stdout_sha256: "a".repeat(64),
        stderr_sha256: "b".repeat(64),
        structured_report: None,
    }
}

#[test]
fn effective_receipt_contract_prefers_tool_contract() {
    let tool = ToolReceiptContract {
        min_duration_ms: Some(111),
        min_stdout_bytes: Some(222),
        expect_stdout_pattern: Some("ok".to_string()),
        expect_exit_codes: Some(vec![0]),
    };
    let qc = QualityContractConfig::default();
    let got = effective_receipt_contract(Some(&tool), Some(&qc)).expect("contract");
    assert_eq!(got.min_duration_ms, Some(111));
    assert_eq!(got.min_stdout_bytes, Some(222));
    assert_eq!(got.expect_stdout_pattern.as_deref(), Some("ok"));
    assert_eq!(got.expect_exit_codes, Some(vec![0]));
}

#[test]
fn effective_receipt_contract_falls_back_to_quality_defaults() {
    let qc = QualityContractConfig::default();
    let got = effective_receipt_contract(None, Some(&qc)).expect("fallback contract");
    assert_eq!(got.min_duration_ms, Some(qc.receipt_defaults.min_duration_ms));
    assert_eq!(got.min_stdout_bytes, Some(qc.receipt_defaults.min_stdout_bytes));
    assert!(got.expect_stdout_pattern.is_none());
    assert!(got.expect_exit_codes.is_none());
}

#[test]
fn effective_receipt_contract_none_without_tool_and_quality() {
    assert!(effective_receipt_contract(None, None).is_none());
}

#[test]
fn classify_run_failed_marks_not_found_as_non_transient() {
    assert_eq!(classify_run_failed(IoErrorKind::NotFound), "gate.run_failed");
}

#[test]
fn classify_run_failed_marks_timeout_as_transient() {
    assert_eq!(classify_run_failed(IoErrorKind::TimedOut), "gate.run_failed_transient");
}

#[test]
fn required_tools_for_changes_maps_by_glob() {
    let mut qc = QualityContractConfig::default();
    qc.impact.rules = vec![ImpactRule {
        id: "src".to_string(),
        path_globs: vec!["src/**".to_string()],
        required_tools: vec!["cargo-test".to_string()],
    }];
    let (required, unmatched) =
        required_tools_for_changes(&qc, &["src/lib.rs".to_string(), "README.md".to_string()]).expect("map");
    assert!(required.iter().any(|t| t == "cargo-test"));
    assert_eq!(unmatched, vec!["README.md".to_string()]);
}

#[test]
fn required_tools_for_changes_reports_invalid_glob() {
    let mut qc = QualityContractConfig::default();
    qc.impact.rules = vec![ImpactRule {
        id: "bad".to_string(),
        path_globs: vec!["src/{a".to_string()],
        required_tools: vec!["t".to_string()],
    }];
    let err = required_tools_for_changes(&qc, &["src/lib.rs".to_string()]).unwrap_err();
    assert!(err.starts_with("invalid change_impact glob \"src/{a\": "), "{err}");
    // Without changed files nothing is compiled.
    assert!(required_tools_for_changes(&qc, &[]).is_ok());
}

#[test]
fn receipt_contract_pattern_matches_stderr_tail() {
    let contract = ToolReceiptContract {
        min_duration_ms: None,
        min_stdout_bytes: None,
        expect_stdout_pattern: Some("READY".to_string()),
        expect_exit_codes: None,
    };
    let receipt = mk_receipt("no-match", "stderr says READY");
    let res = check_receipt_contract(&receipt, &contract);
    assert!(res.is_ok());
}

#[test]
fn receipt_contract_pattern_mismatch_reports_tail_lengths_and_bytes() {
    let contract = ToolReceiptContract {
        min_duration_ms: None,
        min_stdout_bytes: None,
        expect_stdout_pattern: Some("never-match".to_string()),
        expect_exit_codes: None,
    };
    let mut receipt = mk_receipt("alpha", "beta");
    receipt.stdout_bytes = 321;
    receipt.stderr_bytes = 654;
    let violation = check_receipt_contract(&receipt, &contract).expect_err("must fail");
    assert_eq!(violation.code, "gate.receipt_contract_violated");
    assert!(violation.message.contains("stdout_tail_len_bytes=5"));
    assert!(violation.message.contains("stderr_tail_len_bytes=4"));
    assert!(violation.message.contains("stdout_bytes=321"));
    assert!(violation.message.contains("stderr_bytes=654"));
}

#[test]
fn receipt_contract_checks_duration_output_and_exit_codes() {
    let mut contract = ToolReceiptContract {
        min_duration_ms: Some(2_000),
        min_stdout_bytes: None,
        expect_stdout_pattern: None,
        expect_exit_codes: None,
    };
    let receipt = mk_receipt("", "");
    assert_eq!(
        check_receipt_contract(&receipt, &contract).unwrap_err().message,
        "tool tool-x ran too fast: 1500ms < min 2000ms"
    );
    contract.min_duration_ms = None;
    contract.min_stdout_bytes = Some(200);
    assert_eq!(
        check_receipt_contract(&receipt, &contract).unwrap_err().message,
        "tool tool-x produced too little output: 128 bytes < min 200 bytes"
    );
    contract.min_stdout_bytes = None;
    contract.expect_exit_codes = Some(vec![2, 3]);
    assert_eq!(
        check_receipt_contract(&receipt, &contract).unwrap_err().message,
        "tool tool-x exit code Some(0) not in expected [2, 3]"
    );
    contract.expect_exit_codes = Some(vec![0]);
    assert!(check_receipt_contract(&receipt, &contract).is_ok());
}

#[test]
fn receipt_contract_reports_invalid_pattern() {
    let contract = ToolReceiptContract {
        min_duration_ms: None,
        min_stdout_bytes: None,
        expect_stdout_pattern: Some("(".to_string()),
        expect_exit_codes: None,
    };
    let v = check_receipt_contract(&mk_receipt("a", "b"), &contract).unwrap_err();
    assert!(v.message.starts_with("invalid expect_stdout_pattern regex for tool-x: "), "{}", v.message);
}

#[test]
fn receipt_contract_pattern_can_span_both_tails() {
    let contract = ToolReceiptContract {
        min_duration_ms: None,
        min_stdout_bytes: None,
        expect_stdout_pattern: Some("out\\nerr".to_string()),
        expect_exit_codes: None,
    };
    assert!(check_receipt_contract(&mk_receipt("out", "err"), &contract).is_ok());
}

#[test]
fn unmapped_path_violations_respect_policy() {
    let unmatched = vec!["README.md".to_string()];
    let block = unmapped_path_violations(ImpactUnmappedPathPolicy::Block, &unmatched);
    assert_eq!(block.len(), 1);
    assert_eq!(block[0].tier, ViolationTier::Blocking);
    let observe = unmapped_path_violations(ImpactUnmappedPathPolicy::Observe, &unmatched);
    assert_eq!(observe.len(), 1);
    assert_eq!(observe[0].tier, ViolationTier::Observation);
    let ignore = unmapped_path_violations(ImpactUnmappedPathPolicy::Ignore, &unmatched);
    assert!(ignore.is_empty());
}

#[test]
fn gate_sequence_must_be_non_empty_and_distinct() {
    let e = ensure_gate_sequence_invariants(GateKind::CiFast, &[]).unwrap_err();
    assert_eq!(e.code, "gate.empty_sequence");
    assert_eq!(e.message, "gate kind=CiFast has empty tool sequence");
    let e = ensure_gate_sequence_invariants(GateKind::Ci, &["a".to_string(), "b".to_string(), "a".to_string()])
        .unwrap_err();
    assert_eq!(e.code, "gate.duplicate_tool_id");
    assert_eq!(e.message, "gate kind=Ci contains duplicate tool_id=a");
    assert!(ensure_gate_sequence_invariants(GateKind::Flagship, &["a".to_string()]).is_ok());
}

#[test]
fn receipt_invariants_need_failure_context_and_hashes() {
    let mut r = mk_receipt("", "");
    r.success = false;
    r.exit_code = None;
    assert_eq!(
        ensure_receipt_invariants(&r).unwrap_err().message,
        "tool receipt missing failure context: tool_id=tool-x"
    );
    r.timed_out = true;
    r.stdout_sha256 = "  ".to_string();
    assert_eq!(ensure_receipt_invariants(&r).unwrap_err().message, "tool receipt missing stream hash: tool_id=tool-x");
    assert!(ensure_receipt_invariants(&mk_receipt("", "")).is_ok());
}

#[test]
fn gate_errors_follow_the_verdict() {
    assert!(gate_error_for_status(DecisionStatus::Pass).is_none());
    assert_eq!(gate_error_for_status(DecisionStatus::Retryable).unwrap().code, "gate.retryable");
    assert_eq!(gate_error_for_status(DecisionStatus::Blocked).unwrap().code, "gate.blocked");
}

#[test]
fn gate_helpers() {
    let gate = GateConfig { ci_fast: vec!["a".to_string()], ci: vec!["b".to_string()], flagship: vec![] };
    assert_eq!(gate_tool_ids(&gate, GateKind::Ci), vec!["b".to_string()]);
    assert_eq!(remaining_budget_ms(300, 1_000), 700);
    assert_eq!(remaining_budget_ms(3_000, 1_000), 0);
    let qc = QualityContractConfig::default();
    assert!(effective_write_witness(false, false, Some(&qc)));
    assert!(!effective_write_witness(true, false, Some(&qc)));
    let v = required_tool_violations(&["t1".to_string(), "t2".to_string()], &vec!["t2".to_string()], GateKind::CiFast);
    assert_eq!(v.len(), 1);
    assert_eq!(v[0].message, "changed files require tool 't1', but it is not in selected gate CiFast");
}

#[test]
fn merge_base_candidates_cover_main_branches() {
    let (target, c) = merge_base_candidates("merge-base:origin/main").unwrap();
    assert_eq!(target, "origin/main");
    assert_eq!(c, vec!["origin/main", "origin/master", "main", "master"]);
    let (_, c) = merge_base_candidates("merge-base: AUTO ").unwrap();
    assert_eq!(c, vec!["origin/main", "origin/master", "main", "master"]);
    let (_, c) = merge_base_candidates("merge-base:develop").unwrap();
    assert_eq!(c, vec!["develop"]);
    assert!(merge_base_candidates("HEAD~3").is_none());
}
