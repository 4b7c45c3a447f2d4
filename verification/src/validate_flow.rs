//! The outcome of `validate` once the checks have run: the baseline-write
//! precheck, the allowlist over the checks' violations, the policy
//! violations that no exception suppresses (the exception budget among
//! them), the verdict and whether the call is `ok`.

use crate::api::{
    violation_views, ApiError, BaselineMaintenance, DecisionStatus, ValidateMode, Verdict, Violation, ViolationTier,
    ViolationView, plain_violation,
};
use crate::exceptions::{apply_allowlist_entries, is_suppression, ExceptionEntry};
use crate::gate_jobs::error_pair;
use crate::judge::{count_tier, judge_validate, reason_of, validate_status_spec};
use crate::quality_delta::reason_bytes;
use crate::text::decimal_spec;
use crate::validate_policy::{baseline_write_precheck, collect_suppressed_codes, exception_count_violation};
use vstd::prelude::*;

verus! {

/// What `validate` answers, apart from the checks' own summaries.
#[derive(Debug)]
pub struct ValidateOutcome {
    pub ok: bool,
    pub error: Option<ApiError>,
    pub mode: ValidateMode,
    /// The violations after suppression, then the policy violations.
    pub violations: Vec<Violation>,
    pub suppressed: Vec<Violation>,
    pub verdict: Option<Verdict>,
}

/// The error that stops a baseline rewrite in ratchet mode before any check
/// runs: no maintenance record, or a reason of fewer than 20 bytes.
pub open spec fn precheck_spec(mode: ValidateMode, write_baseline: bool, reason: Option<Seq<char>>) -> Option<
    (Seq<char>, Seq<char>),
> {
    if !(write_baseline && mode == ValidateMode::Ratchet) {
        None
    } else {
        match reason {
            None => Some(
                (
                    "config.baseline_write_requires_maintenance"@,
                    "write_baseline=true in ratchet mode requires baseline_maintenance with reason (>=20 chars) and owner"@,
                ),
            ),
            Some(r) => if reason_bytes(r) < 20 {
                Some(
                    (
                        "config.baseline_maintenance_reason_too_short"@,
                        "baseline_maintenance.reason must be >=20 chars (got "@ + decimal_spec(reason_bytes(r)) + ")"@,
                    ),
                )
            } else {
                None
            },
        }
    }
}

pub open spec fn reason_of_record(m: Option<&BaselineMaintenance>) -> Option<Seq<char>> {
    match m {
        Some(b) => Some(b.reason@),
        None => None,
    }
}

/// The exception-budget violation for `suppressed` suppressions, where the
/// quality contract sets a budget.
pub open spec fn budget_views(suppressed: nat, max_exceptions: Option<usize>) -> Seq<ViolationView> {
    match max_exceptions {
        Some(m) => if suppressed > m {
            seq![
                plain_violation(
                    "exception.budget_exceeded"@,
                    "suppressed violations ("@ + decimal_spec(suppressed) + ") exceed max_exceptions ("@ + decimal_spec(
                        m as nat,
                    ) + ")"@,
                    ViolationTier::Blocking,
                ),
            ]
        } else {
            Seq::empty()
        },
        None => Seq::empty(),
    }
}

/// The codes of `suppressed`, sorted, each once.
pub open spec fn suppressed_codes_of(codes: Seq<Seq<char>>, suppressed: Seq<Violation>) -> bool {
    &&& crate::order::strictly_sorted(codes)
    &&& forall|c: Seq<char>|
        codes.contains(c) <==> exists|i: int| 0 <= i < suppressed.len() && (#[trigger] suppressed[i]).code@ == c
}

/// The verdict of `validate` on `violations`, with the suppression counted.
pub open spec fn validate_verdict(v: Verdict, violations: Seq<Violation>, mode: ValidateMode, suppressed: Seq<Violation>) -> bool {
    &&& v.decision.reasons@.len() == violations.len()
    &&& forall|i: int| 0 <= i < violations.len() ==> reason_of(#[trigger] v.decision.reasons@[i], violations[i])
    &&& v.decision.blocking_count == count_tier(v.decision.reasons@, ViolationTier::Blocking)
    &&& v.decision.observation_count == count_tier(v.decision.reasons@, ViolationTier::Observation)
    &&& v.decision.status == validate_status_spec(v.decision.reasons@, mode)
    &&& v.suppressed_count == suppressed.len()
    &&& suppressed_codes_of(crate::csv::views(v.suppressed_codes@), suppressed)
}

/// The outcome of `validate` after its checks ran. `checks` are the checks'
/// violations, which the allowlist `entries` may suppress on day `today`;
/// `failure_modes` and `later` (the suppressed-ratio, locked-hash and
/// quality-delta violations) are policy violations that no exception
/// suppresses, with the exception budget between them.
pub fn validate_outcome(
    mode: ValidateMode,
    write_baseline: bool,
    maintenance: Option<&BaselineMaintenance>,
    checks: Vec<Violation>,
    entries: &[ExceptionEntry],
    today: i32,
    max_window_days: Option<u32>,
    failure_modes: Vec<Violation>,
    max_exceptions: Option<usize>,
    later: Vec<Violation>,
) -> (out: ValidateOutcome)
    ensures
        out.mode == mode,
        match precheck_spec(mode, write_baseline, reason_of_record(maintenance)) {
            Some(e) => {
                &&& error_pair(out.error) == Some(e)
                &&& !out.ok
                &&& out.violations@.len() == 0
                &&& out.suppressed@.len() == 0
                &&& out.verdict is None
            },
            None => {
                let tail = violation_views(failure_modes@) + budget_views(out.suppressed@.len(), max_exceptions)
                    + violation_views(later@);
                let k = out.violations@.len() - tail.len();
                &&& out.error is None
                &&& 0 <= k
                &&& is_suppression(
                    checks@,
                    entries@,
                    today as int,
                    max_window_days,
                    out.violations@.take(k),
                    out.suppressed@,
                )
                &&& violation_views(out.violations@.skip(k)) == tail
                &&& out.verdict is Some
                &&& validate_verdict(out.verdict.unwrap(), out.violations@, mode, out.suppressed@)
                &&& out.ok == (mode == ValidateMode::Warn || out.verdict.unwrap().decision.status
                    == DecisionStatus::Pass)
            },
        },
{
    let pre = baseline_write_precheck(mode, write_baseline, maintenance);
    assert(error_pair(pre) == precheck_spec(mode, write_baseline, reason_of_record(maintenance)));
    if let Some(e) = pre {
        return ValidateOutcome {
            ok: false,
            error: Some(e),
            mode,
            violations: Vec::new(),
            suppressed: Vec::new(),
            verdict: None,
        };
    }
    let sup = apply_allowlist_entries(checks, entries, today, max_window_days);
    let ghost sv = sup.violations@;
    assert(is_suppression(checks@, entries@, today as int, max_window_days, sv, sup.suppressed@));
    let mut violations = sup.violations;
    let suppressed = sup.suppressed;
    let mut failure_modes = failure_modes;
    let mut later = later;
    let ghost fm = failure_modes@;
    let ghost lt = later@;
    violations.append(&mut failure_modes);
    let mut budget: Vec<Violation> = Vec::new();
    match max_exceptions {
        Some(m) => match exception_count_violation(suppressed.len(), m) {
            Some(v) => {
                budget.push(v);
            },
            None => {},
        },
        None => {},
    }
    let ghost bg = budget@;
    assert(violation_views(bg) =~= budget_views(suppressed@.len(), max_exceptions));
    violations.append(&mut budget);
    violations.append(&mut later);
    proof {
        let all = violations@;
        assert(all =~= sv + fm + bg + lt);
        let k = sv.len() as int;
        assert(all.take(k) =~= sv);
        assert(all.skip(k) =~= fm + bg + lt);
        assert(violation_views(fm + bg + lt) =~= violation_views(fm) + violation_views(bg) + violation_views(lt));
    }
    let mut verdict = judge_validate(violations.as_slice(), mode);
    verdict.suppressed_count = suppressed.len();
    verdict.suppressed_codes = collect_suppressed_codes(&suppressed);
    let ok = mode == ValidateMode::Warn || verdict.decision.status == DecisionStatus::Pass;
    ValidateOutcome { ok, error: None, mode, violations, suppressed, verdict: Some(verdict) }
}

} // verus!
