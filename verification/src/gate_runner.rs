//! The rules of a gate run: tool sequences and receipts, receipt contracts,
//! change impact, failure classes and the error of a run.

use crate::api::{ApiError, DecisionStatus, GateKind, Receipt, Violation, ViolationTier};
use crate::config::{GateConfig, ImpactRule, ImpactUnmappedPathPolicy, QualityContractConfig, ToolReceiptContract};
use crate::csv::{copy_strings, views};
use crate::order::{insert_sorted_unique, strictly_sorted};
use crate::plugins::{contains_string, join_spec};
use crate::text::{
    concat, debug_quoted, debug_str, i64_to_string, seq_starts_with, signed_decimal_spec, str_starts_with, trim_spec,
    trim_str, u64_to_string, decimal_spec,
};
use vstd::prelude::*;
use vstd::string::*;

verus! {

/// The kinds of I/O error told apart when a tool cannot run.
#[derive(Debug, Clone, Copy, PartialEq, Eq, Structural)]
pub enum IoErrorKind {
    NotFound,
    PermissionDenied,
    ConnectionRefused,
    ConnectionReset,
    ConnectionAborted,
    NotConnected,
    BrokenPipe,
    WouldBlock,
    TimedOut,
    Interrupted,
    Other,
}

/// How `{:?}` writes a gate kind.
pub open spec fn gate_kind_debug(kind: GateKind) -> Seq<char> {
    match kind {
        GateKind::CiFast => "CiFast"@,
        GateKind::Ci => "Ci"@,
        GateKind::Flagship => "Flagship"@,
    }
}

fn gate_kind_name(kind: GateKind) -> (s: &'static str)
    ensures
        s@ == gate_kind_debug(kind),
{
    match kind {
        GateKind::CiFast => "CiFast",
        GateKind::Ci => "Ci",
        GateKind::Flagship => "Flagship",
    }
}

pub open spec fn api_error_is(e: ApiError, code: Seq<char>, message: Seq<char>) -> bool {
    e.code@ == code && e.message@ == message
}

fn api_err(code: &str, message: String) -> (e: ApiError)
    ensures
        e.code@ == code@,
        e.message@ == message@,
{
    ApiError { code: String::from_str(code), message }
}

/// The first index, from `i` on, whose id occurred before it.
pub open spec fn first_repeat(ids: Seq<Seq<char>>, i: int) -> Option<int>
    decreases ids.len() - i,
{
    if i < 0 || i >= ids.len() {
        None
    } else if ids.take(i).contains(ids[i]) {
        Some(i)
    } else {
        first_repeat(ids, i + 1)
    }
}

/// A gate runs a non-empty sequence of distinct tools.
pub fn ensure_gate_sequence_invariants(kind: GateKind, tool_ids: &[String]) -> (r: Result<(), ApiError>)
    ensures
        tool_ids@.len() == 0 ==> r is Err && api_error_is(
            r->Err_0,
            "gate.empty_sequence"@,
            "gate kind="@ + gate_kind_debug(kind) + " has empty tool sequence"@,
        ),
        tool_ids@.len() > 0 ==> match first_repeat(views(tool_ids@), 0) {
            None => r is Ok,
            Some(k) => r is Err && api_error_is(
                r->Err_0,
                "gate.duplicate_tool_id"@,
                "gate kind="@ + gate_kind_debug(kind) + " contains duplicate tool_id="@ + views(tool_ids@)[k],
            ),
        },
{
    if tool_ids.len() == 0 {
        let a = concat("gate kind=", gate_kind_name(kind));
        return Err(api_err("gate.empty_sequence", concat(a.as_str(), " has empty tool sequence")));
    }
    let ghost ids = views(tool_ids@);
    let mut seen: Vec<String> = Vec::new();
    let mut i: usize = 0;
    while i < tool_ids.len()
        invariant
            ids == views(tool_ids@),
            i <= ids.len(),
            views(seen@) == ids.take(i as int),
            first_repeat(ids, 0) == first_repeat(ids, i as int),
        decreases ids.len() - i,
    {
        if contains_string(&seen, tool_ids[i].as_str()) {
            let a = concat("gate kind=", gate_kind_name(kind));
            let b = concat(a.as_str(), " contains duplicate tool_id=");
            return Err(api_err("gate.duplicate_tool_id", concat(b.as_str(), tool_ids[i].as_str())));
        }
        let ghost before = views(seen@);
        seen.push(tool_ids[i].clone());
        proof {
            assert(views(seen@) =~= before.push(ids[i as int]));
            assert(ids.take(i + 1) =~= ids.take(i as int).push(ids[i as int]));
        }
        i = i + 1;
    }
    Ok(())
}

/// A failed receipt says why (an exit code or a timeout), and every receipt
/// carries both stream hashes.
pub fn ensure_receipt_invariants(r: &Receipt) -> (res: Result<(), ApiError>)
    ensures
        !r.success && r.exit_code is None && !r.timed_out ==> res is Err && api_error_is(
            res->Err_0,
            "gate.receipt_invariant_failed"@,
            "tool receipt missing failure context: tool_id="@ + r.tool_id@,
        ),
        !(!r.success && r.exit_code is None && !r.timed_out) && (trim_spec(r.stdout_sha256@).len() == 0 || trim_spec(
            r.stderr_sha256@,
        ).len() == 0) ==> res is Err && api_error_is(
            res->Err_0,
            "gate.receipt_invariant_failed"@,
            "tool receipt missing stream hash: tool_id="@ + r.tool_id@,
        ),
        !(!r.success && r.exit_code is None && !r.timed_out) && !(trim_spec(r.stdout_sha256@).len() == 0 || trim_spec(
            r.stderr_sha256@,
        ).len() == 0) ==> res is Ok,
{
    if !r.success && r.exit_code.is_none() && !r.timed_out {
        return Err(
            api_err(
                "gate.receipt_invariant_failed",
                concat("tool receipt missing failure context: tool_id=", r.tool_id.as_str()),
            ),
        );
    }
    let a = trim_str(r.stdout_sha256.as_str());
    let b = trim_str(r.stderr_sha256.as_str());
    if a.unicode_len() == 0 || b.unicode_len() == 0 {
        return Err(
            api_err(
                "gate.receipt_invariant_failed",
                concat("tool receipt missing stream hash: tool_id=", r.tool_id.as_str()),
            ),
        );
    }
    Ok(())
}

fn copy_codes(v: &Vec<i32>) -> (out: Vec<i32>)
    ensures
        out@ == v@,
{
    let mut out: Vec<i32> = Vec::new();
    let mut i: usize = 0;
    while i < v.len()
        invariant
            i <= v@.len(),
            out@ == v@.take(i as int),
        decreases v@.len() - i,
    {
        out.push(v[i]);
        proof {
            assert(out@ =~= v@.take(i + 1));
        }
        i = i + 1;
    }
    proof {
        assert(v@.take(v@.len() as int) =~= v@);
    }
    out
}

pub open spec fn contract_eq(a: ToolReceiptContract, b: ToolReceiptContract) -> bool {
    &&& a.min_duration_ms == b.min_duration_ms
    &&& a.min_stdout_bytes == b.min_stdout_bytes
    &&& a.expect_stdout_pattern == b.expect_stdout_pattern
    &&& (a.expect_exit_codes is Some <==> b.expect_exit_codes is Some)
    &&& (a.expect_exit_codes is Some ==> a.expect_exit_codes.unwrap()@ == b.expect_exit_codes.unwrap()@)
}

/// The receipt contract that applies to a tool: its own, else the quality
/// contract's defaults (duration and output minimums only), else none.
pub fn effective_receipt_contract(
    tool_contract: Option<&ToolReceiptContract>,
    quality_contract: Option<&QualityContractConfig>,
) -> (r: Option<ToolReceiptContract>)
    ensures
        tool_contract is Some ==> r is Some && contract_eq(r.unwrap(), *tool_contract.unwrap()),
        tool_contract is None && quality_contract is Some ==> r is Some && {
            let c = r.unwrap();
            let d = quality_contract.unwrap().receipt_defaults;
            &&& c.min_duration_ms == Some(d.min_duration_ms)
            &&& c.min_stdout_bytes == Some(d.min_stdout_bytes)
            &&& c.expect_stdout_pattern is None
            &&& c.expect_exit_codes is None
        },
        tool_contract is None && quality_contract is None ==> r is None,
{
    match tool_contract {
        Some(c) => {
            let pattern = match &c.expect_stdout_pattern {
                Some(p) => Some(p.clone()),
                None => None,
            };
            let codes = match &c.expect_exit_codes {
                Some(v) => Some(copy_codes(v)),
                None => None,
            };
            Some(
                ToolReceiptContract {
                    min_duration_ms: c.min_duration_ms,
                    min_stdout_bytes: c.min_stdout_bytes,
                    expect_stdout_pattern: pattern,
                    expect_exit_codes: codes,
                },
            )
        },
        None => match quality_contract {
            Some(qc) => Some(
                ToolReceiptContract {
                    min_duration_ms: Some(qc.receipt_defaults.min_duration_ms),
                    min_stdout_bytes: Some(qc.receipt_defaults.min_stdout_bytes),
                    expect_stdout_pattern: None,
                    expect_exit_codes: None,
                },
            ),
            None => None,
        },
    }
}

/// The failure code of a tool that could not be run: transient for
/// timeouts, interruptions and dropped connections.
pub open spec fn run_failed_code(kind: IoErrorKind) -> Seq<char> {
    match kind {
        IoErrorKind::TimedOut | IoErrorKind::Interrupted | IoErrorKind::WouldBlock | IoErrorKind::ConnectionReset
        | IoErrorKind::ConnectionAborted | IoErrorKind::ConnectionRefused | IoErrorKind::NotConnected
        | IoErrorKind::BrokenPipe => "gate.run_failed_transient"@,
        _ => "gate.run_failed"@,
    }
}

pub fn classify_run_failed(kind: IoErrorKind) -> (s: &'static str)
    ensures
        s@ == run_failed_code(kind),
{
    match kind {
        IoErrorKind::TimedOut | IoErrorKind::Interrupted | IoErrorKind::WouldBlock | IoErrorKind::ConnectionReset
        | IoErrorKind::ConnectionAborted | IoErrorKind::ConnectionRefused | IoErrorKind::NotConnected
        | IoErrorKind::BrokenPipe => "gate.run_failed_transient",
        _ => "gate.run_failed",
    }
}

/// What is left of a gate's time budget after `elapsed_ms`.
pub fn remaining_budget_ms(elapsed_ms: u64, total_ms: u64) -> (r: u64)
    ensures
        r == if elapsed_ms >= total_ms { 0 } else { (total_ms - elapsed_ms) as u64 },
{
    total_ms.saturating_sub(elapsed_ms)
}

/// The tool sequence configured for `kind`.
pub fn gate_tool_ids(gate: &GateConfig, kind: GateKind) -> (ids: Vec<String>)
    ensures
        ids@ == match kind {
            GateKind::CiFast => gate.ci_fast@,
            GateKind::Ci => gate.ci@,
            GateKind::Flagship => gate.flagship@,
        },
{
    match kind {
        GateKind::CiFast => copy_strings(gate.ci_fast.as_slice()),
        GateKind::Ci => copy_strings(gate.ci.as_slice()),
        GateKind::Flagship => copy_strings(gate.flagship.as_slice()),
    }
}

/// The error reported with a verdict; a passing verdict has none.
pub fn gate_error_for_status(status: DecisionStatus) -> (e: Option<ApiError>)
    ensures
        status == DecisionStatus::Pass ==> e is None,
        status == DecisionStatus::Retryable ==> e is Some && api_error_is(
            e.unwrap(),
            "gate.retryable"@,
            "gate failed due to transient runner/tool timeout issue; retry is allowed"@,
        ),
        status == DecisionStatus::Blocked ==> e is Some && api_error_is(
            e.unwrap(),
            "gate.blocked"@,
            "gate blocked by policy/quality violations"@,
        ),
{
    match status {
        DecisionStatus::Pass => None,
        DecisionStatus::Retryable => Some(
            api_err(
                "gate.retryable",
                String::from_str("gate failed due to transient runner/tool timeout issue; retry is allowed"),
            ),
        ),
        DecisionStatus::Blocked => Some(
            api_err("gate.blocked", String::from_str("gate blocked by policy/quality violations")),
        ),
    }
}

/// Whether a run writes a witness: as asked on a dry run; otherwise also
/// when the quality contract requires one.
pub fn effective_write_witness(dry_run: bool, write_witness: bool, contract: Option<&QualityContractConfig>) -> (b:
    bool)
    ensures
        b == (write_witness || (!dry_run && contract is Some && contract.unwrap().proof.require_witness)),
{
    if dry_run {
        write_witness
    } else {
        match contract {
            Some(c) => write_witness || c.proof.require_witness,
            None => write_witness,
        }
    }
}

/// The violations for changed paths that no impact rule maps, by policy.
pub fn unmapped_path_violations(policy: ImpactUnmappedPathPolicy, unmatched: &[String]) -> (out: Vec<Violation>)
    ensures
        policy == ImpactUnmappedPathPolicy::Ignore ==> out@.len() == 0,
        policy != ImpactUnmappedPathPolicy::Ignore ==> out@.len() == unmatched@.len(),
        policy != ImpactUnmappedPathPolicy::Ignore ==> forall|i: int|
            0 <= i < out@.len() ==> {
                let v = #[trigger] out@[i];
                &&& v.code@ == "change_impact.unmapped_path"@
                &&& v.message@ == "changed path '"@ + unmatched@[i]@
                    + "' is not mapped in quality_contract [impact].rules"@
                &&& v.path is Some && v.path.unwrap()@ == unmatched@[i]@
                &&& v.details is None
                &&& v.tier == if policy == ImpactUnmappedPathPolicy::Block {
                    ViolationTier::Blocking
                } else {
                    ViolationTier::Observation
                }
            },
{
    let mut out: Vec<Violation> = Vec::new();
    if policy == ImpactUnmappedPathPolicy::Ignore {
        return out;
    }
    let mut i: usize = 0;
    while i < unmatched.len()
        invariant
            policy != ImpactUnmappedPathPolicy::Ignore,
            i <= unmatched@.len(),
            out@.len() == i,
            forall|k: int|
                0 <= k < i ==> {
                    let v = #[trigger] out@[k];
                    &&& v.code@ == "change_impact.unmapped_path"@
                    &&& v.message@ == "changed path '"@ + unmatched@[k]@
                        + "' is not mapped in quality_contract [impact].rules"@
                    &&& v.path is Some && v.path.unwrap()@ == unmatched@[k]@
                    &&& v.details is None
                    &&& v.tier == if policy == ImpactUnmappedPathPolicy::Block {
                        ViolationTier::Blocking
                    } else {
                        ViolationTier::Observation
                    }
                },
        decreases unmatched@.len() - i,
    {
        let path = unmatched[i].as_str();
        let a = concat("changed path '", path);
        let message = concat(a.as_str(), "' is not mapped in quality_contract [impact].rules");
        let v = if policy == ImpactUnmappedPathPolicy::Block {
            Violation::blocking(
                String::from_str("change_impact.unmapped_path"),
                message,
                Some(String::from_str(path)),
                None,
            )
        } else {
            Violation::observation(
                String::from_str("change_impact.unmapped_path"),
                message,
                Some(String::from_str(path)),
                None,
            )
        };
        out.push(v);
        i = i + 1;
    }
    out
}

/// One violation for each tool that the changes require and the selected sequence does
/// not run, in the order given.
pub fn required_tool_violations(required: &[String], selected: &Vec<String>, kind: GateKind) -> (out: Vec<Violation>)
    ensures
        forall|i: int|
            0 <= i < out@.len() ==> {
                let v = #[trigger] out@[i];
                &&& v.code@ == "change_impact.required_tool_missing"@
                &&& v.tier == ViolationTier::Blocking
                &&& v.path is None
                &&& v.details is None
            },
        views(out@.map_values(|v: Violation| v.message)) == crate::plugins::retain_not_in(
            views(required@),
            views(selected@),
        ).map_values(|t: Seq<char>| missing_tool_message(t, kind)),
{
    let mut out: Vec<Violation> = Vec::new();
    let mut i: usize = 0;
    proof {
        assert(views(out@.map_values(|v: Violation| v.message)) =~= crate::plugins::retain_not_in(
            views(required@).take(0),
            views(selected@),
        ).map_values(|t: Seq<char>| missing_tool_message(t, kind)));
    }
    while i < required.len()
        invariant
            i <= required@.len(),
            forall|k: int|
                0 <= k < out@.len() ==> {
                    let v = #[trigger] out@[k];
                    &&& v.code@ == "change_impact.required_tool_missing"@
                    &&& v.tier == ViolationTier::Blocking
                    &&& v.path is None
                    &&& v.details is None
                },
            views(out@.map_values(|v: Violation| v.message)) == crate::plugins::retain_not_in(
                views(required@).take(i as int),
                views(selected@),
            ).map_values(|t: Seq<char>| missing_tool_message(t, kind)),
        decreases required@.len() - i,
    {
        proof {
            assert(views(required@).take(i + 1).drop_last() =~= views(required@).take(i as int));
        }
        let ghost before = out@;
        if !contains_string(selected, required[i].as_str()) {
            let a = concat("changed files require tool '", required[i].as_str());
            let b = concat(a.as_str(), "', but it is not in selected gate ");
            let message = concat(b.as_str(), gate_kind_name(kind));
            out.push(
                Violation::blocking(String::from_str("change_impact.required_tool_missing"), message, None, None),
            );
            proof {
                assert(views(out@.map_values(|v: Violation| v.message)) =~= views(
                    before.map_values(|v: Violation| v.message),
                ).push(missing_tool_message(required@[i as int]@, kind)));
            }
        }
        i = i + 1;
    }
    proof {
        assert(views(required@).take(required@.len() as int) =~= views(required@));
    }
    out
}

pub open spec fn missing_tool_message(tool: Seq<char>, kind: GateKind) -> Seq<char> {
    "changed files require tool '"@ + tool + "', but it is not in selected gate "@ + gate_kind_debug(kind)
}

/// For `merge-base:<target>`, the trimmed target and the refs tried in turn
/// (`auto` tries the usual main branches); `None` for a plain diff base.
pub open spec fn merge_base_spec(diff_base: Seq<char>) -> Option<(Seq<char>, Seq<Seq<char>>)> {
    if seq_starts_with(diff_base, "merge-base:"@) {
        let target = trim_spec(diff_base.subrange(11, diff_base.len() as int));
        let candidates = if crate::text::eq_ignore_ascii_case_spec(target, "auto"@) {
            seq!["origin/main"@, "origin/master"@, "main"@, "master"@]
        } else if target == "origin/main"@ {
            seq![target, "origin/master"@, "main"@, "master"@]
        } else if target == "origin/master"@ {
            seq![target, "origin/main"@, "main"@, "master"@]
        } else {
            seq![target]
        };
        Some((target, candidates))
    } else {
        None
    }
}

fn strs(items: &[&str]) -> (out: Vec<String>)
    ensures
        out@.len() == items@.len(),
        forall|i: int| 0 <= i < items@.len() ==> #[trigger] out@[i]@ == items@[i]@,
{
    let mut out: Vec<String> = Vec::new();
    let mut i: usize = 0;
    while i < items.len()
        invariant
            i <= items@.len(),
            out@.len() == i,
            forall|k: int| 0 <= k < i ==> #[trigger] out@[k]@ == items@[k]@,
        decreases items@.len() - i,
    {
        out.push(String::from_str(items[i]));
        i = i + 1;
    }
    out
}

/// The refs to try for a `merge-base:` diff base (see `merge_base_spec`).
pub fn merge_base_candidates(diff_base: &str) -> (r: Option<(String, Vec<String>)>)
    ensures
        match merge_base_spec(diff_base@) {
            None => r is None,
            Some((target, candidates)) => r is Some && r.unwrap().0@ == target && views(r.unwrap().1@) == candidates,
        },
{
    if !str_starts_with(diff_base, "merge-base:") {
        return None;
    }
    let cs = crate::text::chars_of(diff_base);
    proof {
        reveal_strlit("merge-base:");
    }
    let rest = crate::text::slice_vec(cs.as_slice(), 11, cs.len());
    let rest_s = crate::text::string_of(rest.as_slice());
    let target = trim_str(rest_s.as_str());
    let candidates = if crate::text::str_eq_ignore_ascii_case(target.as_str(), "auto") {
        strs(&["origin/main", "origin/master", "main", "master"])
    } else if crate::text::str_eq(target.as_str(), "origin/main") {
        strs(&["origin/main", "origin/master", "main", "master"])
    } else if crate::text::str_eq(target.as_str(), "origin/master") {
        strs(&["origin/master", "origin/main", "main", "master"])
    } else {
        let mut v: Vec<String> = Vec::new();
        v.push(target.clone());
        v
    };
    proof {
        let c = merge_base_spec(diff_base@).unwrap().1;
        assert(views(candidates@) =~= c);
    }
    Some((target, candidates))
}

/// How `{:?}` writes an exit code.
pub open spec fn exit_code_debug(c: Option<i32>) -> Seq<char> {
    match c {
        Some(v) => "Some("@ + signed_decimal_spec(v as int) + ")"@,
        None => "None"@,
    }
}

/// How `{:?}` writes a list of exit codes.
pub open spec fn codes_debug(codes: Seq<i32>) -> Seq<char> {
    "["@ + join_spec(codes.map_values(|c: i32| signed_decimal_spec(c as int)), ", "@) + "]"@
}

fn exit_code_text(c: Option<i32>) -> (s: String)
    ensures
        s@ == exit_code_debug(c),
{
    match c {
        Some(v) => {
            let a = concat("Some(", i64_to_string(v as i64).as_str());
            concat(a.as_str(), ")")
        },
        None => String::from_str("None"),
    }
}

fn codes_text(codes: &Vec<i32>) -> (s: String)
    ensures
        s@ == codes_debug(codes@),
{
    let mut items: Vec<String> = Vec::new();
    let mut i: usize = 0;
    while i < codes.len()
        invariant
            i <= codes@.len(),
            views(items@) == codes@.take(i as int).map_values(|c: i32| signed_decimal_spec(c as int)),
        decreases codes@.len() - i,
    {
        let ghost before = views(items@);
        items.push(i64_to_string(codes[i] as i64));
        proof {
            assert(views(items@) =~= before.push(signed_decimal_spec(codes@[i as int] as int)));
            assert(codes@.take(i + 1).map_values(|c: i32| signed_decimal_spec(c as int)) =~= codes@.take(
                i as int,
            ).map_values(|c: i32| signed_decimal_spec(c as int)).push(signed_decimal_spec(codes@[i as int] as int)));
        }
        i = i + 1;
    }
    proof {
        assert(codes@.take(codes@.len() as int) =~= codes@);
    }
    let joined = crate::plugins::join_strings(items.as_slice(), ", ");
    let a = concat("[", joined.as_str());
    concat(a.as_str(), "]")
}

/// The bytes that `s` takes, as `str::len` counts them.
pub open spec fn byte_len(s: Seq<char>) -> nat {
    (vstd::utf8::encode_utf8(s).len() as usize) as nat
}

/// The text the pattern is checked against when both tails are present: stdout, a newline, stderr.
pub open spec fn combined_tail(out: Seq<char>, err: Seq<char>) -> Seq<char> {
    if out.len() == 0 {
        err
    } else if err.len() == 0 {
        out
    } else {
        out + "\n"@ + err
    }
}

/// Why a successful receipt breaks its contract, checked in order: duration,
/// output size, the expected output pattern, the expected exit codes.
pub open spec fn receipt_contract_spec(r: Receipt, c: ToolReceiptContract) -> Option<Seq<char>> {
    let id = r.tool_id@;
    let pattern = match c.expect_stdout_pattern {
        Some(p) => trim_spec(p@),
        None => Seq::empty(),
    };
    if c.min_duration_ms is Some && r.duration_ms < c.min_duration_ms.unwrap() {
        Some(
            "tool "@ + id + " ran too fast: "@ + decimal_spec(r.duration_ms as nat) + "ms < min "@ + decimal_spec(
                c.min_duration_ms.unwrap() as nat,
            ) + "ms"@,
        )
    } else if c.min_stdout_bytes is Some && r.stdout_bytes < c.min_stdout_bytes.unwrap() {
        Some(
            "tool "@ + id + " produced too little output: "@ + decimal_spec(r.stdout_bytes as nat) + " bytes < min "@
                + decimal_spec(c.min_stdout_bytes.unwrap() as nat) + " bytes"@,
        )
    } else if pattern.len() > 0 && crate::patterns::regex_new_error(pattern) is Some {
        Some(
            "invalid expect_stdout_pattern regex for "@ + id + ": "@ + crate::patterns::regex_new_error(
                pattern,
            ).unwrap(),
        )
    } else if pattern.len() > 0 && !(crate::patterns::regex_is_match(pattern, r.stdout_tail@)
        || crate::patterns::regex_is_match(pattern, r.stderr_tail@) || crate::patterns::regex_is_match(
        pattern,
        combined_tail(r.stdout_tail@, r.stderr_tail@),
    )) {
        Some(
            "tool "@ + id + " output tails do not match expected pattern "@ + debug_str(pattern)
                + " (checked stdout_tail+stderr_tail; stdout_tail_len_bytes="@ + decimal_spec(
                byte_len(r.stdout_tail@),
            ) + ", stderr_tail_len_bytes="@ + decimal_spec(byte_len(r.stderr_tail@)) + ", stdout_bytes="@
                + decimal_spec(r.stdout_bytes as nat) + ", stderr_bytes="@ + decimal_spec(r.stderr_bytes as nat)
                + ")"@,
        )
    } else if c.expect_exit_codes is Some && c.expect_exit_codes.unwrap()@.len() > 0 && !c.expect_exit_codes.unwrap()@.contains(
        match r.exit_code {
            Some(v) => v,
            None => -9999i32,
        },
    ) {
        Some(
            "tool "@ + id + " exit code "@ + exit_code_debug(r.exit_code) + " not in expected "@ + codes_debug(
                c.expect_exit_codes.unwrap()@,
            ),
        )
    } else {
        None
    }
}

fn contract_violation(message: String) -> (v: Violation)
    ensures
        v.code@ == "gate.receipt_contract_violated"@,
        v.message == message,
        v.path is None,
        v.details is None,
        v.tier == ViolationTier::Blocking,
{
    Violation::blocking(String::from_str("gate.receipt_contract_violated"), message, None, None)
}

fn join3(a: &str, b: &str, c: &str) -> (s: String)
    ensures
        s@ == a@ + b@ + c@,
{
    let x = concat(a, b);
    concat(x.as_str(), c)
}

fn usize_text(n: usize) -> (s: String)
    ensures
        s@ == decimal_spec(n as nat),
{
    u64_to_string(n as u64)
}

/// Checks a receipt against its contract (see `receipt_contract_spec`); the
/// violation is blocking, with code `gate.receipt_contract_violated`.
pub fn check_receipt_contract(receipt: &Receipt, contract: &ToolReceiptContract) -> (r: Result<(), Violation>)
    ensures
        match receipt_contract_spec(*receipt, *contract) {
            None => r is Ok,
            Some(m) => r is Err && r->Err_0.code@ == "gate.receipt_contract_violated"@ && r->Err_0.message@ == m
                && r->Err_0.path is None && r->Err_0.details is None && r->Err_0.tier == ViolationTier::Blocking,
        },
{
    let id = receipt.tool_id.as_str();
    match contract.min_duration_ms {
        Some(min) => {
            if receipt.duration_ms < min {
                let a = join3("tool ", id, " ran too fast: ");
                let b = join3(a.as_str(), u64_to_string(receipt.duration_ms).as_str(), "ms < min ");
                let m = join3(b.as_str(), u64_to_string(min).as_str(), "ms");
                return Err(contract_violation(m));
            }
        },
        None => {},
    }
    match contract.min_stdout_bytes {
        Some(min) => {
            if receipt.stdout_bytes < min {
                let a = join3("tool ", id, " produced too little output: ");
                let b = join3(a.as_str(), usize_text(receipt.stdout_bytes).as_str(), " bytes < min ");
                let m = join3(b.as_str(), usize_text(min).as_str(), " bytes");
                return Err(contract_violation(m));
            }
        },
        None => {},
    }
    let pattern = match &contract.expect_stdout_pattern {
        Some(p) => trim_str(p.as_str()),
        None => String::new(),
    };
    if pattern.unicode_len() > 0 {
        let re = match crate::patterns::regex_new(pattern.as_str()) {
            Ok(re) => re,
            Err(e) => {
                let a = join3("invalid expect_stdout_pattern regex for ", id, ": ");
                return Err(contract_violation(concat(a.as_str(), e.as_str())));
            },
        };
        let out = receipt.stdout_tail.as_str();
        let err = receipt.stderr_tail.as_str();
        let combined = if out.unicode_len() == 0 {
            String::from_str(err)
        } else if err.unicode_len() == 0 {
            String::from_str(out)
        } else {
            join3(out, "\n", err)
        };
        let matched = crate::patterns::regex_matches(&re, out) || crate::patterns::regex_matches(&re, err)
            || crate::patterns::regex_matches(&re, combined.as_str());
        if !matched {
            let q = debug_quoted(pattern.as_str());
            let a = join3("tool ", id, " output tails do not match expected pattern ");
            let b = join3(a.as_str(), q.as_str(), " (checked stdout_tail+stderr_tail; stdout_tail_len_bytes=");
            let c = join3(b.as_str(), usize_text(out.len()).as_str(), ", stderr_tail_len_bytes=");
            let d = join3(c.as_str(), usize_text(err.len()).as_str(), ", stdout_bytes=");
            let e = join3(d.as_str(), usize_text(receipt.stdout_bytes).as_str(), ", stderr_bytes=");
            let m = join3(e.as_str(), usize_text(receipt.stderr_bytes).as_str(), ")");
            return Err(contract_violation(m));
        }
    }
    match &contract.expect_exit_codes {
        Some(codes) => {
            if codes.len() > 0 {
                let got = match receipt.exit_code {
                    Some(v) => v,
                    None => -9999i32,
                };
                let mut found = false;
                let mut i: usize = 0;
                while i < codes.len()
                    invariant
                        i <= codes@.len(),
                        found == codes@.take(i as int).contains(got),
                    decreases codes@.len() - i,
                {
                    proof {
                        assert(codes@.take(i + 1) =~= codes@.take(i as int).push(codes@[i as int]));
                    }
                    if codes[i] == got {
                        found = true;
                    }
                    proof {
                        let t = codes@.take(i as int);
                        if t.push(codes@[i as int]).contains(got) && !t.contains(got) {
                            let k = choose|k: int| 0 <= k < t.len() + 1 && t.push(codes@[i as int])[k] == got;
                            if k < t.len() {
                                assert(t[k] == got);
                            }
                        }
                        if t.contains(got) {
                            let k = choose|k: int| 0 <= k < t.len() && t[k] == got;
                            assert(t.push(codes@[i as int])[k] == got);
                        }
                        if codes@[i as int] == got {
                            assert(t.push(codes@[i as int])[t.len() as int] == got);
                        }
                    }
                    i = i + 1;
                }
                proof {
                    assert(codes@.take(codes@.len() as int) =~= codes@);
                }
                if !found {
                    let a = join3("tool ", id, " exit code ");
                    let b = join3(a.as_str(), exit_code_text(receipt.exit_code).as_str(), " not in expected ");
                    return Err(contract_violation(concat(b.as_str(), codes_text(codes).as_str())));
                }
            }
        },
        None => {},
    }
    Ok(())
}

/// An impact rule takes part only with globs and required tools.
pub open spec fn rule_applies(r: ImpactRule) -> bool {
    r.path_globs@.len() > 0 && r.required_tools@.len() > 0
}

/// The indices of the rules that take part, in order.
pub open spec fn applicable_rules(rules: Seq<ImpactRule>, n: int) -> Seq<int>
    decreases n,
{
    if n <= 0 || n > rules.len() {
        Seq::empty()
    } else if rule_applies(rules[n - 1]) {
        applicable_rules(rules, n - 1).push(n - 1)
    } else {
        applicable_rules(rules, n - 1)
    }
}

/// The first glob, from `i` on, that does not parse.
pub open spec fn first_bad_glob(globs: Seq<Seq<char>>, i: int) -> Option<int>
    decreases globs.len() - i,
{
    if i < 0 || i >= globs.len() {
        None
    } else if crate::patterns::glob_new_error(globs[i]) is Some {
        Some(i)
    } else {
        first_bad_glob(globs, i + 1)
    }
}

/// A glob of the rule matches the path.
pub open spec fn rule_matches(r: ImpactRule, path: Seq<char>) -> bool {
    exists|k: int| 0 <= k < r.path_globs@.len() && crate::patterns::glob_is_match(#[trigger] r.path_globs@[k]@, path)
}

/// A rule that takes part matches the path.
pub open spec fn path_mapped(rules: Seq<ImpactRule>, path: Seq<char>) -> bool {
    exists|j: int| 0 <= j < rules.len() && rule_applies(#[trigger] rules[j]) && rule_matches(rules[j], path)
}

/// The changed paths, in order, that no rule maps.
pub open spec fn unmapped_paths(rules: Seq<ImpactRule>, paths: Seq<Seq<char>>) -> Seq<Seq<char>>
    decreases paths.len(),
{
    if paths.len() == 0 {
        Seq::empty()
    } else if path_mapped(rules, paths.last()) {
        unmapped_paths(rules, paths.drop_last())
    } else {
        unmapped_paths(rules, paths.drop_last()).push(paths.last())
    }
}

/// A rule that takes part matches one of the paths and requires `tool`.
pub open spec fn tool_required(rules: Seq<ImpactRule>, paths: Seq<Seq<char>>, tool: Seq<char>) -> bool {
    exists|j: int, p: int|
        0 <= j < rules.len() && 0 <= p < paths.len() && rule_applies(#[trigger] rules[j]) && rule_matches(
            rules[j],
            #[trigger] paths[p],
        ) && views(rules[j].required_tools@).contains(tool)
}

pub open spec fn glob_error_message(glob: Seq<char>) -> Seq<char> {
    "invalid change_impact glob "@ + debug_str(glob) + ": "@ + crate::patterns::glob_new_error(glob).unwrap()
}

/// The error of compiling a rule's globs into a set: the first glob that
/// does not parse, else the set's build error.
pub open spec fn rule_error(r: ImpactRule) -> Option<Seq<char>> {
    let globs = views(r.path_globs@);
    match first_bad_glob(globs, 0) {
        Some(k) => Some(glob_error_message(globs[k])),
        None => match crate::patterns::globset_build_error(globs) {
            Some(e) => Some("failed to build change_impact globset: "@ + e),
            None => None,
        },
    }
}

/// The error of the first rule, from `j` on, that takes part and does not compile.
pub open spec fn first_rule_error(rules: Seq<ImpactRule>, j: int) -> Option<Seq<char>>
    decreases rules.len() - j,
{
    if j < 0 || j >= rules.len() {
        None
    } else if rule_applies(rules[j]) && rule_error(rules[j]) is Some {
        rule_error(rules[j])
    } else {
        first_rule_error(rules, j + 1)
    }
}

/// The glob set of one impact rule.
fn compile_rule(rule: &ImpactRule) -> (r: Result<crate::patterns::CompiledGlobSet, String>)
    ensures
        match rule_error(*rule) {
            Some(e) => r is Err && r->Err_0@ == e,
            None => r is Ok && r->Ok_0.patterns_of() == views(rule.path_globs@),
        },
{
    let ghost gv = views(rule.path_globs@);
    let mut parsed: Vec<crate::patterns::ParsedGlob> = Vec::new();
    let mut i: usize = 0;
    while i < rule.path_globs.len()
        invariant
            gv == views(rule.path_globs@),
            i <= gv.len(),
            parsed@.len() == i,
            forall|k: int| 0 <= k < i ==> (#[trigger] parsed@[k]).pattern_of() == gv[k],
            first_bad_glob(gv, 0) == first_bad_glob(gv, i as int),
        decreases gv.len() - i,
    {
        match crate::patterns::glob_new(rule.path_globs[i].as_str()) {
            Ok(g) => {
                parsed.push(g);
            },
            Err(e) => {
                let q = debug_quoted(rule.path_globs[i].as_str());
                let a = concat("invalid change_impact glob ", q.as_str());
                let b = concat(a.as_str(), ": ");
                let msg = concat(b.as_str(), e.as_str());
                proof {
                    assert(gv[i as int] == rule.path_globs@[i as int]@);
                    assert(first_bad_glob(gv, i as int) == Some(i as int));
                }
                return Err(msg);
            },
        }
        i = i + 1;
    }
    proof {
        assert(crate::patterns::glob_patterns(parsed@) =~= gv);
    }
    match crate::patterns::globset_build(&parsed) {
        Ok(set) => Ok(set),
        Err(e) => Err(concat("failed to build change_impact globset: ", e.as_str())),
    }
}

/// The tools that the changed files require (sorted, each once) and the
/// changed files that no impact rule maps, in order; the error of the first
/// rule that takes part and whose globs do not compile into a set.
pub fn required_tools_for_changes(contract: &QualityContractConfig, changed_files: &[String]) -> (r: Result<
    (Vec<String>, Vec<String>),
    String,
>)
    ensures
        changed_files@.len() == 0 ==> r is Ok && r->Ok_0.0@.len() == 0 && r->Ok_0.1@.len() == 0,
        changed_files@.len() > 0 ==> ({
            let rules = contract.impact.rules@;
            match first_rule_error(rules, 0) {
                Some(e) => r is Err && r->Err_0@ == e,
                None => r is Ok && strictly_sorted(views(r->Ok_0.0@)) && (forall|t: Seq<char>|
                    #[trigger] views(r->Ok_0.0@).contains(t) <==> tool_required(rules, views(changed_files@), t))
                    && views(r->Ok_0.1@) == unmapped_paths(rules, views(changed_files@)),
            }
        }),
{
    let mut required: Vec<String> = Vec::new();
    let mut unmatched: Vec<String> = Vec::new();
    if changed_files.len() == 0 {
        return Ok((required, unmatched));
    }
    let rules = &contract.impact.rules;
    let ghost rs = rules@;
    // Compile the globs of every rule that takes part.
    let mut compiled: Vec<crate::patterns::CompiledGlobSet> = Vec::new();
    let mut idx: Vec<usize> = Vec::new();
    let mut j: usize = 0;
    while j < rules.len()
        invariant
            rs == rules@,
            rs == contract.impact.rules@,
            j <= rs.len(),
            compiled@.len() == idx@.len(),
            idx@.map_values(|x: usize| x as int) == applicable_rules(rs, j as int),
            forall|q: int| 0 <= q < idx@.len() ==> #[trigger] idx@[q] < j && compiled@[q].patterns_of() == views(rs[idx@[q] as int].path_globs@),
            forall|q: int| 0 <= q < idx@.len() ==> rule_applies(#[trigger] rs[idx@[q] as int]),
            changed_files@.len() > 0,
            first_rule_error(rs, 0) == first_rule_error(rs, j as int),
        decreases rs.len() - j,
    {
        let rule = &rules[j];
        if rule.path_globs.len() > 0 && rule.required_tools.len() > 0 {
            let set = match compile_rule(rule) {
                Ok(set) => set,
                Err(e) => {
                    return Err(e);
                },
            };
            compiled.push(set);
            let ghost before = idx@.map_values(|x: usize| x as int);
            idx.push(j);
            proof {
                assert(idx@.map_values(|x: usize| x as int) =~= before.push(j as int));
            }
        }
        j = j + 1;
    }
    proof {
        lemma_applicable_rules_members(rs, rs.len() as int);
    }
    let ghost paths = views(changed_files@);
    let mut i: usize = 0;
    proof {
        assert(paths.take(0) =~= Seq::<Seq<char>>::empty());
        assert(views(unmatched@) =~= Seq::<Seq<char>>::empty());
    }
    while i < changed_files.len()
        invariant
            paths == views(changed_files@),
            rs == rules@,
            rs == contract.impact.rules@,
            i <= paths.len(),
            compiled@.len() == idx@.len(),
            idx@.map_values(|x: usize| x as int) == applicable_rules(rs, rs.len() as int),
            forall|q: int| 0 <= q < idx@.len() ==> #[trigger] idx@[q] < rs.len() && compiled@[q].patterns_of() == views(rs[idx@[q] as int].path_globs@),
            forall|jj: int| 0 <= jj < rs.len() && rule_applies(#[trigger] rs[jj]) ==> applicable_rules(rs, rs.len() as int).contains(jj),
            forall|q: int| 0 <= q < idx@.len() ==> rule_applies(#[trigger] rs[idx@[q] as int]),
            strictly_sorted(views(required@)),
            forall|t: Seq<char>| #[trigger] views(required@).contains(t) <==> tool_required(rs, paths.take(i as int), t),
            views(unmatched@) == unmapped_paths(rs, paths.take(i as int)),
        decreases paths.len() - i,
    {
        let path = changed_files[i].as_str();
        let mut matched = false;
        let mut q: usize = 0;
        let ghost req_before = views(required@);
        while q < compiled.len()
            invariant
                q <= compiled@.len(),
                compiled@.len() == idx@.len(),
                rs == rules@,
                forall|qq: int| 0 <= qq < idx@.len() ==> #[trigger] idx@[qq] < rs.len() && compiled@[qq].patterns_of() == views(rs[idx@[qq] as int].path_globs@),
                forall|qq: int| 0 <= qq < idx@.len() ==> rule_applies(#[trigger] rs[idx@[qq] as int]),
                matched == exists|qq: int| 0 <= qq < q && rule_matches(#[trigger] rs[idx@[qq] as int], path@),
                strictly_sorted(views(required@)),
                forall|t: Seq<char>| #[trigger] views(required@).contains(t) <==> (req_before.contains(t) || exists|qq: int|
                    0 <= qq < q && rule_matches(#[trigger] rs[idx@[qq] as int], path@) && views(rs[idx@[qq] as int].required_tools@).contains(t)),
            decreases compiled@.len() - q,
        {
            let rule = &rules[idx[q]];
            let hit = crate::patterns::globset_matches(&compiled[q], path);
            proof {
                let gv = views(rule.path_globs@);
                if hit {
                    let k = choose|k: int| 0 <= k < gv.len() && crate::patterns::glob_is_match(#[trigger] gv[k], path@);
                    assert(crate::patterns::glob_is_match(rule.path_globs@[k]@, path@));
                }
                if rule_matches(*rule, path@) {
                    let k = choose|k: int| 0 <= k < rule.path_globs@.len() && crate::patterns::glob_is_match(#[trigger] rule.path_globs@[k]@, path@);
                    assert(crate::patterns::glob_is_match(gv[k], path@));
                }
            }
            if hit {
                matched = true;
                let mut t: usize = 0;
                let ghost mid = views(required@);
                while t < rule.required_tools.len()
                    invariant
                        t <= rule.required_tools@.len(),
                        strictly_sorted(views(required@)),
                        forall|x: Seq<char>| #[trigger] views(required@).contains(x) <==> (mid.contains(x) || views(rule.required_tools@).take(t as int).contains(x)),
                    decreases rule.required_tools@.len() - t,
                {
                    let ghost b = views(required@);
                    insert_sorted_unique(&mut required, rule.required_tools[t].clone());
                    proof {
                        assert(views(rule.required_tools@).take(t + 1) =~= views(rule.required_tools@).take(t as int).push(rule.required_tools@[t as int]@));
                        assert forall|x: Seq<char>| #[trigger] views(required@).contains(x) <==> (mid.contains(x) || views(rule.required_tools@).take(t + 1).contains(x)) by {
                            assert(views(required@).to_set().contains(x) == views(required@).contains(x));
                            assert(b.to_set().contains(x) == b.contains(x));
                            views(rule.required_tools@).take(t as int).lemma_push_to_set_commute(rule.required_tools@[t as int]@);
                            assert(views(rule.required_tools@).take(t + 1).to_set().contains(x) == views(rule.required_tools@).take(t + 1).contains(x));
                            assert(views(rule.required_tools@).take(t as int).to_set().contains(x) == views(rule.required_tools@).take(t as int).contains(x));
                        }
                    }
                    t = t + 1;
                }
                proof {
                    assert(views(rule.required_tools@).take(rule.required_tools@.len() as int) =~= views(rule.required_tools@));
                }
            }
            proof {
                assert(rule_matches(*rule, path@) == hit);
            }
            q = q + 1;
        }
        proof {
            assert(paths.take(i + 1).drop_last() =~= paths.take(i as int));
            assert(paths.take(i + 1).last() == path@);
            assert(matched == path_mapped(rs, path@)) by {
                if path_mapped(rs, path@) {
                    let jj = choose|jj: int| 0 <= jj < rs.len() && rule_applies(#[trigger] rs[jj]) && rule_matches(rs[jj], path@);
                    assert(applicable_rules(rs, rs.len() as int).contains(jj));
                    let qq = choose|qq: int| 0 <= qq < applicable_rules(rs, rs.len() as int).len() && #[trigger] applicable_rules(rs, rs.len() as int)[qq] == jj;
                    assert(idx@.map_values(|x: usize| x as int)[qq] == jj);
                    assert(idx@[qq] as int == jj);
                }
            }
            assert forall|t: Seq<char>| #[trigger] views(required@).contains(t) <==> tool_required(rs, paths.take(i + 1), t) by {
                if tool_required(rs, paths.take(i + 1), t) {
                    let (jj, p) = choose|jj: int, p: int| 0 <= jj < rs.len() && 0 <= p < paths.take(i + 1).len() && rule_applies(#[trigger] rs[jj]) && rule_matches(rs[jj], #[trigger] paths.take(i + 1)[p]) && views(rs[jj].required_tools@).contains(t);
                    if p < i {
                        assert(paths.take(i as int)[p] == paths.take(i + 1)[p]);
                        assert(tool_required(rs, paths.take(i as int), t));
                    } else {
                        assert(applicable_rules(rs, rs.len() as int).contains(jj));
                        let qq = choose|qq: int| 0 <= qq < applicable_rules(rs, rs.len() as int).len() && #[trigger] applicable_rules(rs, rs.len() as int)[qq] == jj;
                        assert(idx@.map_values(|x: usize| x as int)[qq] == jj);
                    }
                }
                if tool_required(rs, paths.take(i as int), t) {
                    let (jj, p) = choose|jj: int, p: int| 0 <= jj < rs.len() && 0 <= p < paths.take(i as int).len() && rule_applies(#[trigger] rs[jj]) && rule_matches(rs[jj], #[trigger] paths.take(i as int)[p]) && views(rs[jj].required_tools@).contains(t);
                    assert(paths.take(i + 1)[p] == paths.take(i as int)[p]);
                }
                if exists|qq: int| 0 <= qq < idx@.len() && rule_matches(#[trigger] rs[idx@[qq] as int], path@) && views(rs[idx@[qq] as int].required_tools@).contains(t) {
                    let qq = choose|qq: int| 0 <= qq < idx@.len() && rule_matches(#[trigger] rs[idx@[qq] as int], path@) && views(rs[idx@[qq] as int].required_tools@).contains(t);
                    assert(paths.take(i + 1)[i as int] == path@);
                    let jj = idx@[qq] as int;
                    assert(rule_applies(rs[jj]));
                }
            }
        }
        if !matched {
            unmatched.push(changed_files[i].clone());
            proof {
                assert(views(unmatched@) =~= unmapped_paths(rs, paths.take(i as int)).push(path@));
            }
        }
        i = i + 1;
    }
    proof {
        assert(paths.take(paths.len() as int) =~= paths);
    }
    Ok((required, unmatched))
}

proof fn lemma_applicable_rules_members(rs: Seq<ImpactRule>, n: int)
    requires
        0 <= n <= rs.len(),
    ensures
        forall|jj: int| 0 <= jj < n && rule_applies(#[trigger] rs[jj]) ==> applicable_rules(rs, n).contains(jj),
    decreases n,
{
    if n > 0 {
        lemma_applicable_rules_members(rs, n - 1);
        assert forall|jj: int| 0 <= jj < n && rule_applies(#[trigger] rs[jj]) implies applicable_rules(rs, n).contains(jj) by {
            if jj < n - 1 {
                let k = choose|k: int| 0 <= k < applicable_rules(rs, n - 1).len() && #[trigger] applicable_rules(rs, n - 1)[k] == jj;
                if rule_applies(rs[n - 1]) {
                    assert(applicable_rules(rs, n)[k] == jj);
                }
            } else {
                assert(applicable_rules(rs, n).last() == jj);
            }
        }
    }
}

} // verus!
