//! The judge: turns violations and tool receipts into a verdict.

pub mod registry;

use crate::api::{
    Decision, DecisionReason, DecisionStatus, ErrorClass, Receipt, ValidateMode, Verdict,
    Violation, ViolationTier,
};
use crate::text::concat;
use registry::{classify, classify_spec};
use vstd::prelude::*;

verus! {

/// How severe a status is: pass < retryable < blocked.
pub open spec fn severity(s: DecisionStatus) -> int {
    match s {
        DecisionStatus::Pass => 0,
        DecisionStatus::Retryable => 1,
        DecisionStatus::Blocked => 2,
    }
}

pub open spec fn is_blocking(r: DecisionReason) -> bool {
    r.tier == ViolationTier::Blocking
}

/// Some reason blocks.
pub open spec fn any_blocking(reasons: Seq<DecisionReason>) -> bool {
    exists|i: int| 0 <= i < reasons.len() && is_blocking(#[trigger] reasons[i])
}

/// Every blocking reason is a transient tool failure.
pub open spec fn blocking_all_transient(reasons: Seq<DecisionReason>) -> bool {
    forall|i: int|
        0 <= i < reasons.len() && is_blocking(#[trigger] reasons[i]) ==> reasons[i].class
            == ErrorClass::TransientTool
}

/// The run decision: pass without blocking reasons, retryable when every
/// blocking reason is transient, blocked otherwise.
pub open spec fn gate_status_spec(reasons: Seq<DecisionReason>) -> DecisionStatus {
    if !any_blocking(reasons) {
        DecisionStatus::Pass
    } else if blocking_all_transient(reasons) {
        DecisionStatus::Retryable
    } else {
        DecisionStatus::Blocked
    }
}

/// The validate decision: pass in warn mode or without blocking reasons, blocked otherwise.
pub open spec fn validate_status_spec(reasons: Seq<DecisionReason>, mode: ValidateMode) -> DecisionStatus {
    if !any_blocking(reasons) || mode == ValidateMode::Warn {
        DecisionStatus::Pass
    } else {
        DecisionStatus::Blocked
    }
}

/// Number of reasons of tier `t`.
pub open spec fn count_tier(reasons: Seq<DecisionReason>, t: ViolationTier) -> nat
    decreases reasons.len(),
{
    if reasons.len() == 0 {
        0
    } else {
        count_tier(reasons.drop_last(), t) + if reasons.last().tier == t {
            1nat
        } else {
            0nat
        }
    }
}

/// The reason a violation stands for: its code, the class of the code, and
/// the registry tier unless the violation itself is an observation.
pub open spec fn reason_spec(v: Violation) -> DecisionReason {
    let (class, default_tier) = classify_spec(v.code@);
    DecisionReason {
        code: v.code,
        class,
        tier: if v.tier == ViolationTier::Observation {
            ViolationTier::Observation
        } else {
            default_tier
        },
    }
}

/// The reason `r` stands for violation `v`.
pub open spec fn reason_of(r: DecisionReason, v: Violation) -> bool {
    r.code@ == v.code@ && r.class == reason_spec(v).class && r.tier == reason_spec(v).tier
}

/// The reason `r` stands for a failed receipt `rc`.
pub open spec fn failed_receipt_reason(r: DecisionReason, rc: Receipt) -> bool {
    &&& r.code@ == "gate.tool_failed."@ + rc.tool_id@
    &&& r.class == (if rc.timed_out {
        ErrorClass::TransientTool
    } else {
        ErrorClass::ContractBreak
    })
    &&& r.tier == ViolationTier::Blocking
}

fn reason_from_violation(v: &Violation) -> (r: DecisionReason)
    ensures
        reason_of(r, *v),
{
    let (class, default_tier) = classify(v.code.as_str());
    let tier = if v.tier == ViolationTier::Observation {
        ViolationTier::Observation
    } else {
        default_tier
    };
    DecisionReason { code: v.code.clone(), class, tier }
}

/// The run decision over `reasons`.
pub fn decide_gate(reasons: &[DecisionReason]) -> (s: DecisionStatus)
    ensures
        s == gate_status_spec(reasons@),
{
    let mut any = false;
    let mut all_transient = true;
    let mut i: usize = 0;
    while i < reasons.len()
        invariant
            i <= reasons@.len(),
            any == (exists|j: int| 0 <= j < i && is_blocking(#[trigger] reasons@[j])),
            all_transient == (forall|j: int|
                0 <= j < i && is_blocking(#[trigger] reasons@[j]) ==> reasons@[j].class
                    == ErrorClass::TransientTool),
        decreases reasons@.len() - i,
    {
        let r = &reasons[i];
        if r.tier == ViolationTier::Blocking {
            any = true;
            if r.class != ErrorClass::TransientTool {
                all_transient = false;
            }
        }
        i += 1;
    }
    if !any {
        DecisionStatus::Pass
    } else if all_transient {
        DecisionStatus::Retryable
    } else {
        DecisionStatus::Blocked
    }
}

/// The validate decision over `reasons` in `mode`.
pub fn decide_validate(reasons: &[DecisionReason], mode: ValidateMode) -> (s: DecisionStatus)
    ensures
        s == validate_status_spec(reasons@, mode),
{
    let blocking_count = count_reasons(reasons, ViolationTier::Blocking);
    proof {
        lemma_count_zero_iff_none(reasons@, ViolationTier::Blocking);
    }
    if blocking_count == 0 || mode == ValidateMode::Warn {
        DecisionStatus::Pass
    } else {
        DecisionStatus::Blocked
    }
}

proof fn lemma_count_le_len(reasons: Seq<DecisionReason>, t: ViolationTier)
    ensures
        count_tier(reasons, t) <= reasons.len(),
    decreases reasons.len(),
{
    if reasons.len() > 0 {
        lemma_count_le_len(reasons.drop_last(), t);
    }
}

proof fn lemma_count_zero_iff_none(reasons: Seq<DecisionReason>, t: ViolationTier)
    ensures
        (count_tier(reasons, t) == 0) == (forall|i: int| 0 <= i < reasons.len() ==> (#[trigger] reasons[i]).tier != t),
    decreases reasons.len(),
{
    if reasons.len() > 0 {
        let init = reasons.drop_last();
        lemma_count_zero_iff_none(init, t);
        if count_tier(reasons, t) == 0 {
            assert forall|i: int| 0 <= i < reasons.len() implies (#[trigger] reasons[i]).tier != t by {
                if i < reasons.len() - 1 {
                    assert(init[i] == reasons[i]);
                }
            }
        } else if forall|i: int| 0 <= i < reasons.len() ==> (#[trigger] reasons[i]).tier != t {
            assert forall|i: int| 0 <= i < init.len() implies (#[trigger] init[i]).tier != t by {
                assert(init[i] == reasons[i]);
            }
            assert(reasons[reasons.len() - 1].tier != t);
        }
    }
}

/// Every reason is counted under exactly one tier: the blocking and the
/// observation counts add up to the number of reasons.
pub proof fn law_tier_counts_cover_reasons(reasons: Seq<DecisionReason>)
    ensures
        count_tier(reasons, ViolationTier::Blocking) + count_tier(reasons, ViolationTier::Observation)
            == reasons.len(),
{
    lemma_count_sum(reasons);
}

proof fn lemma_count_sum(reasons: Seq<DecisionReason>)
    ensures
        count_tier(reasons, ViolationTier::Blocking) + count_tier(reasons, ViolationTier::Observation)
            == reasons.len(),
    decreases reasons.len(),
{
    if reasons.len() > 0 {
        lemma_count_sum(reasons.drop_last());
    }
}

fn count_reasons(reasons: &[DecisionReason], t: ViolationTier) -> (n: usize)
    ensures
        n == count_tier(reasons@, t),
{
    let mut n: usize = 0;
    let mut i: usize = 0;
    while i < reasons.len()
        invariant
            i <= reasons@.len(),
            n == count_tier(reasons@.take(i as int), t),
        decreases reasons@.len() - i,
    {
        proof {
            assert(reasons@.take(i + 1).drop_last() =~= reasons@.take(i as int));
            lemma_count_le_len(reasons@.take(i as int), t);
        }
        if reasons[i].tier == t {
            n += 1;
        }
        i += 1;
    }
    assert(reasons@.take(reasons@.len() as int) =~= reasons@);
    n
}

/// The verdict of validate over `violations` in `mode`: one reason per
/// violation, in order, the counts of both tiers and the validate decision;
/// no quality posture and nothing suppressed yet.
pub fn judge_validate(violations: &[Violation], mode: ValidateMode) -> (v: Verdict)
    ensures
        v.decision.reasons@.len() == violations@.len(),
        forall|i: int| 0 <= i < violations@.len() ==> reason_of(#[trigger] v.decision.reasons@[i], violations@[i]),
        v.decision.blocking_count == count_tier(v.decision.reasons@, ViolationTier::Blocking),
        v.decision.observation_count == count_tier(v.decision.reasons@, ViolationTier::Observation),
        v.decision.status == validate_status_spec(v.decision.reasons@, mode),
        v.quality_posture.is_none(),
        v.suppressed_count == 0,
        v.suppressed_codes@.len() == 0,
{
    let mut reasons: Vec<DecisionReason> = Vec::new();
    let mut i: usize = 0;
    while i < violations.len()
        invariant
            i <= violations@.len(),
            reasons@.len() == i,
            forall|j: int| 0 <= j < i ==> reason_of(#[trigger] reasons@[j], violations@[j]),
        decreases violations@.len() - i,
    {
        reasons.push(reason_from_violation(&violations[i]));
        i += 1;
    }
    let blocking_count = count_reasons(reasons.as_slice(), ViolationTier::Blocking);
    let observation_count = count_reasons(reasons.as_slice(), ViolationTier::Observation);
    let status = decide_validate(reasons.as_slice(), mode);
    Verdict {
        decision: Decision { status, reasons, blocking_count, observation_count },
        quality_posture: None,
        suppressed_count: 0,
        suppressed_codes: Vec::new(),
    }
}

/// The verdict of a gate: one reason per validate violation, then one per
/// receipt violation, then one blocking reason per failed receipt (transient
/// when it timed out, a contract break otherwise), with the tier counts and
/// the run decision; no quality posture and nothing suppressed yet.
pub fn judge_gate(
    validate_violations: &[Violation],
    receipt_violations: &[Violation],
    receipts: &[Receipt],
) -> (v: Verdict)
    ensures
        v.decision.reasons@.len() >= validate_violations@.len() + receipt_violations@.len(),
        forall|i: int|
            0 <= i < validate_violations@.len() ==> reason_of(
                #[trigger] v.decision.reasons@[i],
                validate_violations@[i],
            ),
        forall|i: int|
            0 <= i < receipt_violations@.len() ==> reason_of(
                #[trigger] v.decision.reasons@[validate_violations@.len() + i],
                receipt_violations@[i],
            ),
        failed_receipt_reasons(
            v.decision.reasons@.skip((validate_violations@.len() + receipt_violations@.len()) as int),
            receipts@,
        ),
        v.decision.blocking_count == count_tier(v.decision.reasons@, ViolationTier::Blocking),
        v.decision.observation_count == count_tier(v.decision.reasons@, ViolationTier::Observation),
        v.decision.status == gate_status_spec(v.decision.reasons@),
        v.quality_posture.is_none(),
        v.suppressed_count == 0,
        v.suppressed_codes@.len() == 0,
{
    let mut reasons: Vec<DecisionReason> = Vec::new();
    let nv = validate_violations.len();
    let nr = receipt_violations.len();
    let mut i: usize = 0;
    while i < nv
        invariant
            nv == validate_violations@.len(),
            i <= nv,
            reasons@.len() == i,
            forall|j: int| 0 <= j < i ==> reason_of(#[trigger] reasons@[j], validate_violations@[j]),
        decreases nv - i,
    {
        reasons.push(reason_from_violation(&validate_violations[i]));
        i += 1;
    }
    let mut k: usize = 0;
    while k < nr
        invariant
            nv == validate_violations@.len(),
            nr == receipt_violations@.len(),
            k <= nr,
            reasons@.len() == nv + k,
            forall|j: int| 0 <= j < nv ==> reason_of(#[trigger] reasons@[j], validate_violations@[j]),
            forall|j: int| 0 <= j < k ==> reason_of(#[trigger] reasons@[nv + j], receipt_violations@[j]),
        decreases nr - k,
    {
        reasons.push(reason_from_violation(&receipt_violations[k]));
        k += 1;
    }
    let ghost base = reasons@;
    let mut m: usize = 0;
    while m < receipts.len()
        invariant
            base.len() == nv + nr,
            reasons@.len() >= base.len(),
            reasons@.subrange(0, base.len() as int) == base,
            m <= receipts@.len(),
            failed_receipt_reasons(reasons@.skip(base.len() as int), receipts@.take(m as int)),
        decreases receipts@.len() - m,
    {
        let r = &receipts[m];
        let ghost before = reasons@;
        if !r.success {
            let class = if r.timed_out {
                ErrorClass::TransientTool
            } else {
                ErrorClass::ContractBreak
            };
            let code = concat("gate.tool_failed.", r.tool_id.as_str());
            reasons.push(DecisionReason { code, class, tier: ViolationTier::Blocking });
        }
        proof {
            assert(receipts@.take(m + 1).drop_last() =~= receipts@.take(m as int));
            assert(reasons@.subrange(0, base.len() as int) =~= base);
            if !r.success {
                assert(reasons@.skip(base.len() as int).drop_last() =~= before.skip(base.len() as int));
            } else {
                assert(reasons@ =~= before);
            }
        }
        m += 1;
    }
    proof {
        assert(receipts@.take(receipts@.len() as int) =~= receipts@);
        assert forall|j: int| 0 <= j < nv implies reason_of(#[trigger] reasons@[j], validate_violations@[j]) by {
            assert(reasons@[j] == reasons@.subrange(0, base.len() as int)[j]);
        }
        assert forall|j: int| 0 <= j < nr implies reason_of(#[trigger] reasons@[nv + j], receipt_violations@[j]) by {
            assert(reasons@[nv + j] == reasons@.subrange(0, base.len() as int)[nv + j]);
        }
    }
    let blocking_count = count_reasons(reasons.as_slice(), ViolationTier::Blocking);
    let observation_count = count_reasons(reasons.as_slice(), ViolationTier::Observation);
    let status = decide_gate(reasons.as_slice());
    Verdict {
        decision: Decision { status, reasons, blocking_count, observation_count },
        quality_posture: None,
        suppressed_count: 0,
        suppressed_codes: Vec::new(),
    }
}

/// Adding reasons never softens the run decision.
pub proof fn law_gate_decision_never_softens(reasons: Seq<DecisionReason>, more: Seq<DecisionReason>)
    ensures
        severity(gate_status_spec(reasons)) <= severity(gate_status_spec(reasons + more)),
{
    let all = reasons + more;
    if any_blocking(reasons) {
        let i = choose|i: int| 0 <= i < reasons.len() && is_blocking(#[trigger] reasons[i]);
        assert(all[i] == reasons[i]);
        assert(any_blocking(all));
        if blocking_all_transient(all) {
            assert forall|j: int| 0 <= j < reasons.len() && is_blocking(#[trigger] reasons[j]) implies reasons[j].class
                == ErrorClass::TransientTool by {
                assert(all[j] == reasons[j]);
            }
        }
    }
}

/// The validate decision is never "retryable", and in warn mode it always passes.
pub proof fn law_validate_never_retryable(reasons: Seq<DecisionReason>, mode: ValidateMode)
    ensures
        validate_status_spec(reasons, mode) != DecisionStatus::Retryable,
        mode == ValidateMode::Warn ==> validate_status_spec(reasons, mode) == DecisionStatus::Pass,
{
}

/// Outside warn mode, validate passes exactly when the run decision over
/// the same reasons passes.
pub proof fn law_validate_passes_iff_gate_passes(reasons: Seq<DecisionReason>, mode: ValidateMode)
    requires
        mode != ValidateMode::Warn,
    ensures
        (validate_status_spec(reasons, mode) == DecisionStatus::Pass) == (gate_status_spec(reasons)
            == DecisionStatus::Pass),
{
}

/// Violations reported as observations never block: when every violation
/// is an observation, the reasons standing for them pass both decisions.
pub proof fn law_observations_never_block(
    violations: Seq<Violation>,
    reasons: Seq<DecisionReason>,
    mode: ValidateMode,
)
    requires
        reasons.len() == violations.len(),
        forall|i: int| 0 <= i < violations.len() ==> reason_of(#[trigger] reasons[i], violations[i]),
        forall|i: int| 0 <= i < violations.len() ==> (#[trigger] violations[i]).tier
            == ViolationTier::Observation,
    ensures
        gate_status_spec(reasons) == DecisionStatus::Pass,
        validate_status_spec(reasons, mode) == DecisionStatus::Pass,
{
    assert forall|i: int| 0 <= i < reasons.len() implies !is_blocking(#[trigger] reasons[i]) by {
        assert(reason_of(reasons[i], violations[i]));
        assert(violations[i].tier == ViolationTier::Observation);
    }
}

/// `reasons` holds one failed-receipt reason for each receipt that did not
/// succeed, in receipt order, and nothing else.
pub open spec fn failed_receipt_reasons(reasons: Seq<DecisionReason>, receipts: Seq<Receipt>) -> bool
    decreases receipts.len(),
{
    if receipts.len() == 0 {
        reasons.len() == 0
    } else if receipts.last().success {
        failed_receipt_reasons(reasons, receipts.drop_last())
    } else {
        reasons.len() > 0 && failed_receipt_reason(reasons.last(), receipts.last())
            && failed_receipt_reasons(reasons.drop_last(), receipts.drop_last())
    }
}

} // verus!
