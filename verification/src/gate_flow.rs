//! The decisions of a gate run, as a state machine: the caller validates,
//! runs each tool the machine asks for and reports what happened; the
//! machine checks the tool sequence and every receipt, stops on the first
//! failure, keeps to the time budget, and finishes with the verdict.

use crate::api::{
    violation_view, ApiError, DecisionStatus, QualityPosture, DetailValue, DetailValueView, Details, GateKind, Receipt, Verdict,
    Violation, ViolationTier, ViolationView,
};
use crate::config::ToolReceiptContract;
use crate::csv::views;
use crate::gate_jobs::error_pair;
use crate::gate_runner::{
    api_error_is, check_receipt_contract, classify_run_failed, ensure_gate_sequence_invariants,
    ensure_receipt_invariants, first_repeat, gate_error_for_status, gate_kind_debug, receipt_contract_spec,
    run_failed_code, IoErrorKind,
};
use crate::judge::{count_tier, failed_receipt_reasons, gate_status_spec, judge_gate, reason_of};
use crate::text::{concat, trim_spec, u64_to_string};
use vstd::prelude::*;
use vstd::string::*;

verus! {

/// Where a gate run stands.
#[derive(Debug, Clone, Copy, PartialEq, Eq, Structural)]
pub enum GatePhase {
    /// Waiting for validate(ratchet).
    Validating,
    /// Running the tool at `next`.
    Running,
    /// Finished: no tool runs any more.
    Done,
}

/// The state of a gate run.
#[derive(Debug)]
pub struct GateState {
    pub kind: GateKind,
    pub dry_run: bool,
    pub phase: GatePhase,
    /// The violations of validate(ratchet).
    pub validate_violations: Vec<Violation>,
    /// The violations that validate(ratchet) suppressed.
    pub validate_suppressed: Vec<Violation>,
    /// The quality posture that validate(ratchet) reported.
    pub quality_posture: Option<QualityPosture>,
    /// The tool sequence to run, in order.
    pub tool_ids: Vec<String>,
    /// The index of the tool that runs next.
    pub next: usize,
    pub receipts: Vec<Receipt>,
    /// The violations of the run (change impact, receipts, failures).
    pub violations: Vec<Violation>,
}

/// What the caller reports.
#[derive(Debug)]
pub enum GateEvent {
    /// validate(ratchet) ran: whether it passed, its violations, what it
    /// suppressed and its quality posture; the tool sequence; the
    /// change-impact violations.
    Validated {
        ok: bool,
        violations: Vec<Violation>,
        suppressed: Vec<Violation>,
        quality_posture: Option<QualityPosture>,
        tool_ids: Vec<String>,
        impact: Vec<Violation>,
    },
    /// The time budget was spent before the next tool could start.
    BudgetSpent { budget_ms: u64 },
    /// The next tool is not configured.
    UnknownTool,
    /// The next tool could not be started.
    ToolNotRun { kind: IoErrorKind, message: String },
    /// The next tool ran: its receipt, the receipt contract that applies
    /// (none in a dry run), and the violations of its structured report.
    ToolFinished { receipt: Receipt, contract: Option<ToolReceiptContract>, report_violations: Vec<Violation> },
}

/// How a gate run ends.
#[derive(Debug)]
pub struct GateFinish {
    pub ok: bool,
    pub error: Option<ApiError>,
    pub verdict: Verdict,
}

/// What the caller does next.
#[derive(Debug)]
pub enum GateAction {
    /// Run this tool (after checking the time budget).
    RunTool(String),
    Finish(GateFinish),
}

/// A new gate run of `kind`.
pub fn gate_start(kind: GateKind, dry_run: bool) -> (s: GateState)
    ensures
        s.kind == kind,
        s.dry_run == dry_run,
        s.phase == GatePhase::Validating,
        s.receipts@.len() == 0,
        s.violations@.len() == 0,
{
    GateState {
        kind,
        dry_run,
        phase: GatePhase::Validating,
        validate_violations: Vec::new(),
        validate_suppressed: Vec::new(),
        quality_posture: None,
        tool_ids: Vec::new(),
        next: 0,
        receipts: Vec::new(),
        violations: Vec::new(),
    }
}

/// `v` is what `judge_gate` decides on these violations and receipts.
/// `v` carries what validate(ratchet) suppressed and its quality posture.
pub open spec fn gate_overlay(v: Verdict, suppressed: Seq<Violation>, posture: Option<QualityPosture>) -> bool {
    &&& v.suppressed_count == suppressed.len()
    &&& crate::validate_flow::suppressed_codes_of(views(v.suppressed_codes@), suppressed)
    &&& v.quality_posture == posture
}

pub open spec fn gate_verdict(v: Verdict, validate_violations: Seq<Violation>, violations: Seq<Violation>, receipts: Seq<Receipt>) -> bool {
    &&& v.decision.reasons@.len() >= validate_violations.len() + violations.len()
    &&& forall|i: int| 0 <= i < validate_violations.len() ==> reason_of(#[trigger] v.decision.reasons@[i], validate_violations[i])
    &&& forall|i: int|
        0 <= i < violations.len() ==> reason_of(#[trigger] v.decision.reasons@[validate_violations.len() + i], violations[i])
    &&& failed_receipt_reasons(v.decision.reasons@.skip((validate_violations.len() + violations.len()) as int), receipts)
    &&& v.decision.blocking_count == count_tier(v.decision.reasons@, ViolationTier::Blocking)
    &&& v.decision.observation_count == count_tier(v.decision.reasons@, ViolationTier::Observation)
    &&& v.decision.status == gate_status_spec(v.decision.reasons@)
}

/// The error a finished gate reports for its status.
pub open spec fn status_error(status: DecisionStatus) -> Option<(Seq<char>, Seq<char>)> {
    match status {
        DecisionStatus::Pass => None,
        DecisionStatus::Retryable => Some(
            ("gate.retryable"@, "gate failed due to transient runner/tool timeout issue; retry is allowed"@),
        ),
        DecisionStatus::Blocked => Some(("gate.blocked"@, "gate blocked by policy/quality violations"@)),
    }
}

/// The run finished normally: the verdict on its state, `ok` exactly on a
/// pass, and the error of the status.
pub open spec fn finished_by_verdict(s: GateState, a: GateAction, posture: Option<QualityPosture>) -> bool {
    &&& s.phase == GatePhase::Done
    &&& a matches GateAction::Finish(f) && {
        &&& gate_verdict(f.verdict, s.validate_violations@, s.violations@, s.receipts@)
        &&& gate_overlay(f.verdict, s.validate_suppressed@, posture)
        &&& f.ok == (f.verdict.decision.status == DecisionStatus::Pass)
        &&& error_pair(f.error) == status_error(f.verdict.decision.status)
    }
}

/// The run failed with `code` and `message`: the error is also the last
/// violation, the verdict is taken on the state, and the run is not ok.
pub open spec fn finished_by_error(
    s: GateState,
    a: GateAction,
    code: Seq<char>,
    message: Seq<char>,
    posture: Option<QualityPosture>,
) -> bool {
    &&& s.phase == GatePhase::Done
    &&& s.violations@.len() > 0
    &&& violation_view(s.violations@.last()) == (ViolationView {
        code,
        message,
        path: None,
        details: None,
        tier: ViolationTier::Blocking,
    })
    &&& a matches GateAction::Finish(f) && {
        &&& !f.ok
        &&& error_pair(f.error) == Some((code, message))
        &&& gate_verdict(f.verdict, s.validate_violations@, s.violations@, s.receipts@)
        &&& gate_overlay(f.verdict, s.validate_suppressed@, posture)
    }
}

/// Carries what validate(ratchet) suppressed, and its quality posture, into
/// the verdict; the posture moves out of the state.
fn overlay(v: &mut Verdict, s: &mut GateState)
    ensures
        final(v).decision == old(v).decision,
        gate_overlay(*final(v), old(s).validate_suppressed@, old(s).quality_posture),
        final(s).kind == old(s).kind && final(s).phase == old(s).phase && final(s).tool_ids@ == old(s).tool_ids@
            && final(s).receipts@ == old(s).receipts@ && final(s).violations@ == old(s).violations@
            && final(s).validate_violations@ == old(s).validate_violations@ && final(s).validate_suppressed@
            == old(s).validate_suppressed@ && final(s).next == old(s).next && final(s).dry_run == old(s).dry_run,
{
    v.suppressed_count = s.validate_suppressed.len();
    v.suppressed_codes = crate::validate_policy::collect_suppressed_codes(&s.validate_suppressed);
    v.quality_posture = s.quality_posture.take();
}

fn finish_with_verdict(s: GateState) -> (r: (GateState, GateAction))
    ensures
        finished_by_verdict(r.0, r.1, s.quality_posture),
        r.0.kind == s.kind && r.0.tool_ids@ == s.tool_ids@ && r.0.receipts@ == s.receipts@ && r.0.violations@
            == s.violations@ && r.0.validate_violations@ == s.validate_violations@,
{
    let mut s = s;
    s.phase = GatePhase::Done;
    let mut verdict = judge_gate(s.validate_violations.as_slice(), s.violations.as_slice(), s.receipts.as_slice());
    overlay(&mut verdict, &mut s);
    let error = gate_error_for_status(verdict.decision.status);
    let ok = verdict.decision.status == DecisionStatus::Pass;
    (s, GateAction::Finish(GateFinish { ok, error, verdict }))
}

fn finish_with_error(s: GateState, e: ApiError) -> (r: (GateState, GateAction))
    ensures
        finished_by_error(r.0, r.1, e.code@, e.message@, s.quality_posture),
        r.0.kind == s.kind && r.0.tool_ids@ == s.tool_ids@ && r.0.receipts@ == s.receipts@,
        r.0.validate_violations@ == s.validate_violations@,
        r.0.validate_suppressed@ == s.validate_suppressed@,
        r.0.violations@.len() == s.violations@.len() + 1,
        r.0.violations@.take(s.violations@.len() as int) == s.violations@,
{
    let mut s = s;
    s.phase = GatePhase::Done;
    let ghost before = s.violations@;
    s.violations.push(Violation::blocking(e.code.clone(), e.message.clone(), None, None));
    proof {
        assert(s.violations@.take(before.len() as int) =~= before);
    }
    let mut verdict = judge_gate(s.validate_violations.as_slice(), s.violations.as_slice(), s.receipts.as_slice());
    overlay(&mut verdict, &mut s);
    (s, GateAction::Finish(GateFinish { ok: false, error: Some(e), verdict }))
}

/// Asks for the tool at `next`, or finishes when none is left.
fn continue_run(s: GateState) -> (r: (GateState, GateAction))
    requires
        s.next <= s.tool_ids@.len(),
    ensures
        s.next < s.tool_ids@.len() ==> (r.0 == s && (r.1 matches GateAction::RunTool(t) && t@
            == s.tool_ids@[s.next as int]@)),
        r.0.kind == s.kind,
        s.next >= s.tool_ids@.len() ==> finished_by_verdict(r.0, r.1, s.quality_posture) && r.0.receipts@ == s.receipts@
            && r.0.violations@ == s.violations@,
{
    if s.next < s.tool_ids.len() {
        let t = s.tool_ids[s.next].clone();
        (s, GateAction::RunTool(t))
    } else {
        finish_with_verdict(s)
    }
}

/// The receipt says why it failed and carries both stream hashes.
pub open spec fn receipt_sound(r: Receipt) -> bool {
    !(!r.success && r.exit_code is None && !r.timed_out) && !(trim_spec(r.stdout_sha256@).len() == 0
        || trim_spec(r.stderr_sha256@).len() == 0)
}

/// The contract violation of a successful receipt, outside a dry run.
pub open spec fn contract_views(receipt: Receipt, contract: Option<ToolReceiptContract>, dry_run: bool) -> Seq<ViolationView> {
    match contract {
        Some(c) => if !dry_run && receipt.success && receipt_contract_spec(receipt, c) is Some {
            seq![
                ViolationView {
                    code: "gate.receipt_contract_violated"@,
                    message: receipt_contract_spec(receipt, c).unwrap(),
                    path: None,
                    details: None,
                    tier: ViolationTier::Blocking,
                },
            ]
        } else {
            Seq::empty()
        },
        None => Seq::empty(),
    }
}

/// A state the machine can take `event` in.
pub open spec fn accepts(s: GateState, event: GateEvent) -> bool {
    match event {
        GateEvent::Validated { .. } => s.phase == GatePhase::Validating,
        _ => s.phase == GatePhase::Running && s.next < s.tool_ids@.len(),
    }
}

/// One step of a gate run.
pub fn gate_step(s: GateState, event: GateEvent) -> (r: (GateState, GateAction))
    requires
        accepts(s, event),
    ensures
        r.0.kind == s.kind,
        // Only a running gate asks for a tool, and it asks for the next one.
        (r.1 matches GateAction::RunTool(t) ==> (r.0.phase == GatePhase::Running && r.0.next < r.0.tool_ids@.len()
            && t@ == r.0.tool_ids@[r.0.next as int]@)),
        match event {
            GateEvent::Validated { ok, violations, suppressed, quality_posture, tool_ids, impact } => {
                &&& r.0.validate_violations@ == violations@
                &&& r.0.validate_suppressed@ == suppressed@
                &&& r.0.receipts@ == s.receipts@
                &&& if !ok {
                    finished_by_error(
                        r.0,
                        r.1,
                        "gate.validate_failed"@,
                        "validate(ratchet) failed; gate aborted"@,
                        quality_posture,
                    )
                } else if tool_ids@.len() == 0 {
                    finished_by_error(
                        r.0,
                        r.1,
                        "gate.empty_sequence"@,
                        "gate kind="@ + gate_kind_debug(s.kind) + " has empty tool sequence"@,
                        quality_posture,
                    )
                } else if first_repeat(views(tool_ids@), 0) is Some {
                    finished_by_error(
                        r.0,
                        r.1,
                        "gate.duplicate_tool_id"@,
                        "gate kind="@ + gate_kind_debug(s.kind) + " contains duplicate tool_id="@ + views(
                            tool_ids@,
                        )[first_repeat(views(tool_ids@), 0).unwrap()],
                        quality_posture,
                    )
                } else {
                    &&& r.0.tool_ids@ == tool_ids@
                    &&& r.0.next == 0
                    &&& r.0.violations@ == impact@
                    &&& r.1 is RunTool
                }
            },
            GateEvent::BudgetSpent { budget_ms } => {
                &&& r.0.receipts@ == s.receipts@
                &&& r.0.violations@.len() == s.violations@.len() + 1
                &&& r.0.violations@.take(s.violations@.len() as int) == s.violations@
                &&& violation_view(r.0.violations@.last()) == (ViolationView {
                    code: "gate.run_failed_transient"@,
                    message: "gate call budget exhausted before tool_id="@ + s.tool_ids@[s.next as int]@,
                    path: None,
                    details: Some(seq![("budget_ms"@, DetailValueView::UInt(budget_ms))]),
                    tier: ViolationTier::Blocking,
                })
                &&& finished_by_verdict(r.0, r.1, s.quality_posture)
            },
            GateEvent::UnknownTool => {
                &&& r.0.receipts@ == s.receipts@
                &&& finished_by_error(
                    r.0,
                    r.1,
                    "gate.unknown_tool_id"@,
                    "gate references unknown tool_id="@ + s.tool_ids@[s.next as int]@,
                    s.quality_posture,
                )
            },
            GateEvent::ToolNotRun { kind, message } => {
                &&& r.0.receipts@ == s.receipts@
                &&& r.0.violations@.len() == s.violations@.len() + 1
                &&& r.0.violations@.take(s.violations@.len() as int) == s.violations@
                &&& violation_view(r.0.violations@.last()) == (ViolationView {
                    code: run_failed_code(kind),
                    message: "tool_id="@ + s.tool_ids@[s.next as int]@ + ": "@ + message@,
                    path: None,
                    details: None,
                    tier: ViolationTier::Blocking,
                })
                &&& finished_by_verdict(r.0, r.1, s.quality_posture)
            },
            GateEvent::ToolFinished { receipt, contract, report_violations } => if !receipt_sound(receipt) {
                // A receipt without its failure context or hashes stops the run, unrecorded.
                &&& r.0.receipts@ == s.receipts@
                &&& r.0.phase == GatePhase::Done
                &&& r.1 matches GateAction::Finish(f) && !f.ok && f.error is Some && f.error.unwrap().code@
                    == "gate.receipt_invariant_failed"@
            } else {
                let contract_part = contract_views(receipt, contract, s.dry_run);
                &&& r.0.receipts@ == s.receipts@.push(receipt)
                &&& crate::api::violation_views(r.0.violations@) == crate::api::violation_views(s.violations@)
                    + contract_part + crate::api::violation_views(report_violations@)
                &&& if !receipt.success || s.next + 1 == s.tool_ids@.len() {
                    finished_by_verdict(r.0, r.1, s.quality_posture)
                } else {
                    r.0.next == s.next + 1 && r.1 is RunTool
                }
            },
        },
{
    let mut s = s;
    match event {
        GateEvent::Validated { ok, violations, suppressed, quality_posture, tool_ids, impact } => {
            s.validate_violations = violations;
            s.validate_suppressed = suppressed;
            s.quality_posture = quality_posture;
            if !ok {
                let e = ApiError {
                    code: String::from_str("gate.validate_failed"),
                    message: String::from_str("validate(ratchet) failed; gate aborted"),
                };
                return finish_with_error(s, e);
            }
            match ensure_gate_sequence_invariants(s.kind, tool_ids.as_slice()) {
                Err(e) => {
                    return finish_with_error(s, e);
                },
                Ok(()) => {},
            }
            s.tool_ids = tool_ids;
            s.next = 0;
            s.violations = impact;
            s.phase = GatePhase::Running;
            continue_run(s)
        },
        GateEvent::BudgetSpent { budget_ms } => {
            let m = concat("gate call budget exhausted before tool_id=", s.tool_ids[s.next].as_str());
            let mut fields: Vec<(String, DetailValue)> = Vec::new();
            fields.push((String::from_str("budget_ms"), DetailValue::UInt(budget_ms)));
            let v = Violation::blocking(String::from_str("gate.run_failed_transient"), m, None, Some(Details { fields }));
            proof {
                assert(crate::api::details_view(v.details).unwrap() =~= seq![("budget_ms"@, DetailValueView::UInt(budget_ms))]);
            }
            let ghost before = s.violations@;
            s.violations.push(v);
            proof {
                assert(s.violations@.take(before.len() as int) =~= before);
            }
            finish_with_verdict(s)
        },
        GateEvent::UnknownTool => {
            let m = concat("gate references unknown tool_id=", s.tool_ids[s.next].as_str());
            let e = ApiError { code: String::from_str("gate.unknown_tool_id"), message: m };
            finish_with_error(s, e)
        },
        GateEvent::ToolNotRun { kind, message } => {
            let a = concat("tool_id=", s.tool_ids[s.next].as_str());
            let b = concat(a.as_str(), ": ");
            let m = concat(b.as_str(), message.as_str());
            let v = Violation::blocking(String::from_str(classify_run_failed(kind)), m, None, None);
            let ghost before = s.violations@;
            s.violations.push(v);
            proof {
                assert(s.violations@.take(before.len() as int) =~= before);
            }
            finish_with_verdict(s)
        },
        GateEvent::ToolFinished { receipt, contract, report_violations } => {
            let count = s.tool_ids.len();
            match ensure_receipt_invariants(&receipt) {
                Err(e) => {
                    return finish_with_error(s, e);
                },
                Ok(()) => {},
            }
            let ghost v0 = s.violations@;
            let ghost cpart = contract_views(receipt, contract, s.dry_run);
            match &contract {
                Some(c) => {
                    if !s.dry_run && receipt.success {
                        match check_receipt_contract(&receipt, c) {
                            Err(v) => {
                                s.violations.push(v);
                            },
                            Ok(()) => {},
                        }
                    }
                },
                None => {},
            }
            proof {
                assert(crate::api::violation_views(s.violations@) =~= crate::api::violation_views(v0) + cpart);
            }
            let ghost v1 = s.violations@;
            let ghost rv = report_violations@;
            let mut report_violations = report_violations;
            s.violations.append(&mut report_violations);
            proof {
                assert(s.violations@ =~= v1 + rv);
                assert(crate::api::violation_views(v1 + rv) =~= crate::api::violation_views(v1)
                    + crate::api::violation_views(rv));
            }
            let success = receipt.success;
            s.receipts.push(receipt);
            if !success {
                return finish_with_verdict(s);
            }
            assert(s.next < count);
            s.next = s.next + 1;
            continue_run(s)
        },
    }
}

/// A finished gate run asks for no tool and takes no report of one.
pub proof fn law_finished_gate_runs_no_tool(s: GateState, e: GateEvent)
    requires
        s.phase == GatePhase::Done,
    ensures
        !accepts(s, e),
{
}

} // verus!
