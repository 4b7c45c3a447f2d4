//! The policy rules that `validate` applies around the checks: baseline
//! maintenance, allow-any tool policies, mandatory checks and failure modes,
//! the exception budget, the locked configuration hash, and the outcome.

use crate::api::{
    plain_violation, violation_view, violation_views, ApiError, BaselineMaintenance, DecisionStatus, ValidateMode,
    Violation, ViolationTier, ViolationView,
};
use crate::config::{ChecksConfigV2, QualityContractConfig};
use crate::csv::views;
use crate::order::{insert_sorted_unique, strictly_sorted};
use crate::plugins::contains_string;
use crate::quality_delta::reason_bytes;
use crate::text::{concat, decimal_spec, str_eq, trim_str, u64_to_string};
use vstd::prelude::*;
use vstd::string::*;

verus! {

/// Rewriting the baseline in ratchet mode needs a maintenance record whose
/// reason has at least 20 bytes; the error otherwise.
pub fn baseline_write_precheck(mode: ValidateMode, write_baseline: bool, maintenance: Option<&BaselineMaintenance>) -> (r:
    Option<ApiError>)
    ensures
        !(write_baseline && mode == ValidateMode::Ratchet) ==> r is None,
        write_baseline && mode == ValidateMode::Ratchet && maintenance is None ==> r is Some && r.unwrap().code@
            == "config.baseline_write_requires_maintenance"@ && r.unwrap().message@
            == "write_baseline=true in ratchet mode requires baseline_maintenance with reason (>=20 chars) and owner"@,
        write_baseline && mode == ValidateMode::Ratchet && maintenance is Some ==> if reason_bytes(
            maintenance.unwrap().reason@,
        ) < 20 {
            r is Some && r.unwrap().code@ == "config.baseline_maintenance_reason_too_short"@ && r.unwrap().message@
                == "baseline_maintenance.reason must be >=20 chars (got "@ + decimal_spec(
                reason_bytes(maintenance.unwrap().reason@),
            ) + ")"@
        } else {
            r is None
        },
{
    if !(write_baseline && mode == ValidateMode::Ratchet) {
        return None;
    }
    match maintenance {
        None => Some(
            ApiError {
                code: String::from_str("config.baseline_write_requires_maintenance"),
                message: String::from_str(
                    "write_baseline=true in ratchet mode requires baseline_maintenance with reason (>=20 chars) and owner",
                ),
            },
        ),
        Some(bm) => {
            let t = trim_str(bm.reason.as_str());
            let n = t.as_str().len();
            if n < 20 {
                let a = concat("baseline_maintenance.reason must be >=20 chars (got ", u64_to_string(n as u64).as_str());
                Some(
                    ApiError {
                        code: String::from_str("config.baseline_maintenance_reason_too_short"),
                        message: concat(a.as_str(), ")"),
                    },
                )
            } else {
                None
            }
        },
    }
}

pub open spec fn allow_any_view(plugin_id: Seq<char>) -> ViolationView {
    plain_violation(
        "security.allow_any_policy"@,
        "plugin "@ + plugin_id + " uses allow_any tool policy; this bypasses execution safety rails"@,
        ViolationTier::Blocking,
    )
}

/// A blocking violation for each plugin whose tool policy allows any command.
pub fn allow_any_violations(plugin_ids: &Vec<String>) -> (out: Vec<Violation>)
    ensures
        violation_views(out@) == views(plugin_ids@).map_values(|p: Seq<char>| allow_any_view(p)),
{
    let mut out: Vec<Violation> = Vec::new();
    let mut i: usize = 0;
    while i < plugin_ids.len()
        invariant
            i <= plugin_ids@.len(),
            violation_views(out@) == views(plugin_ids@).take(i as int).map_values(|p: Seq<char>| allow_any_view(p)),
        decreases plugin_ids@.len() - i,
    {
        let a = concat("plugin ", plugin_ids[i].as_str());
        let m = concat(a.as_str(), " uses allow_any tool policy; this bypasses execution safety rails");
        let v = Violation::blocking(String::from_str("security.allow_any_policy"), m, None, None);
        let ghost before = violation_views(out@);
        out.push(v);
        proof {
            assert(violation_views(out@) =~= before.push(violation_view(v)));
            assert(views(plugin_ids@).take(i + 1).map_values(|p: Seq<char>| allow_any_view(p)) =~= views(
                plugin_ids@,
            ).take(i as int).map_values(|p: Seq<char>| allow_any_view(p)).push(allow_any_view(plugin_ids@[i as int]@)));
        }
        i = i + 1;
    }
    proof {
        assert(views(plugin_ids@).take(plugin_ids@.len() as int) =~= views(plugin_ids@));
    }
    out
}

/// The kinds of check that have at least one instance configured.
pub open spec fn check_active(checks: ChecksConfigV2, kind: Seq<char>) -> bool {
    (kind == "boundary"@ && checks.boundary@.len() > 0) || (kind == "supply_chain"@ && checks.supply_chain@.len() > 0)
        || (kind == "loc"@ && checks.loc@.len() > 0) || (kind == "surface"@ && checks.surface@.len() > 0) || (kind
        == "duplicates"@ && checks.duplicates@.len() > 0) || (kind == "env_registry"@ && checks.env_registry@.len()
        > 0) || (kind == "tool_budget"@ && checks.tool_budget@.len() > 0) || (kind == "reuse_first"@
        && checks.reuse_first@.len() > 0) || (kind == "arch_layers"@ && checks.arch_layers@.len() > 0) || (kind
        == "dead_code"@ && checks.dead_code@.len() > 0) || (kind == "orphan_api"@ && checks.orphan_api@.len() > 0)
        || (kind == "complexity_budget"@ && checks.complexity_budget@.len() > 0) || (kind == "contract_break"@
        && checks.contract_break@.len() > 0)
}

fn is_check_active(checks: &ChecksConfigV2, kind: &str) -> (b: bool)
    ensures
        b == check_active(*checks, kind@),
{
    (str_eq(kind, "boundary") && checks.boundary.len() > 0) || (str_eq(kind, "supply_chain")
        && checks.supply_chain.len() > 0) || (str_eq(kind, "loc") && checks.loc.len() > 0) || (str_eq(kind, "surface")
        && checks.surface.len() > 0) || (str_eq(kind, "duplicates") && checks.duplicates.len() > 0) || (str_eq(
        kind,
        "env_registry",
    ) && checks.env_registry.len() > 0) || (str_eq(kind, "tool_budget") && checks.tool_budget.len() > 0) || (str_eq(
        kind,
        "reuse_first",
    ) && checks.reuse_first.len() > 0) || (str_eq(kind, "arch_layers") && checks.arch_layers.len() > 0) || (str_eq(
        kind,
        "dead_code",
    ) && checks.dead_code.len() > 0) || (str_eq(kind, "orphan_api") && checks.orphan_api.len() > 0) || (str_eq(
        kind,
        "complexity_budget",
    ) && checks.complexity_budget.len() > 0) || (str_eq(kind, "contract_break") && checks.contract_break.len() > 0)
}

/// The mandatory checks, in order, that are not configured.
pub open spec fn missing_mandatory(checks: ChecksConfigV2, mandatory: Seq<Seq<char>>) -> Seq<Seq<char>>
    decreases mandatory.len(),
{
    if mandatory.len() == 0 {
        Seq::empty()
    } else {
        let rest = missing_mandatory(checks, mandatory.drop_last());
        if check_active(checks, mandatory.last()) {
            rest
        } else {
            rest.push(mandatory.last())
        }
    }
}

pub open spec fn mandatory_check_view(kind: Seq<char>) -> ViolationView {
    plain_violation(
        "config.mandatory_check_removed"@,
        "mandatory check '"@ + kind + "' is not configured"@,
        ViolationTier::Blocking,
    )
}

/// A blocking violation for each mandatory check that has no configured instance.
pub fn mandatory_check_violations(checks: &ChecksConfigV2, mandatory: &Vec<String>) -> (out: Vec<Violation>)
    ensures
        violation_views(out@) == missing_mandatory(*checks, views(mandatory@)).map_values(
            |k: Seq<char>| mandatory_check_view(k),
        ),
{
    let mut out: Vec<Violation> = Vec::new();
    let mut i: usize = 0;
    proof {
        assert(views(mandatory@).take(0) =~= Seq::<Seq<char>>::empty());
        assert(violation_views(out@) =~= Seq::<ViolationView>::empty());
    }
    while i < mandatory.len()
        invariant
            i <= mandatory@.len(),
            violation_views(out@) == missing_mandatory(*checks, views(mandatory@).take(i as int)).map_values(
                |k: Seq<char>| mandatory_check_view(k),
            ),
        decreases mandatory@.len() - i,
    {
        proof {
            assert(views(mandatory@).take(i + 1).drop_last() =~= views(mandatory@).take(i as int));
            assert(views(mandatory@).take(i + 1).last() == mandatory@[i as int]@);
        }
        if !is_check_active(checks, mandatory[i].as_str()) {
            let a = concat("mandatory check '", mandatory[i].as_str());
            let m = concat(a.as_str(), "' is not configured");
            let v = Violation::blocking(String::from_str("config.mandatory_check_removed"), m, None, None);
            let ghost before = violation_views(out@);
            out.push(v);
            proof {
                assert(violation_views(out@) =~= before.push(violation_view(v)));
                assert(missing_mandatory(*checks, views(mandatory@).take(i + 1)).map_values(
                    |k: Seq<char>| mandatory_check_view(k),
                ) =~= missing_mandatory(*checks, views(mandatory@).take(i as int)).map_values(
                    |k: Seq<char>| mandatory_check_view(k),
                ).push(mandatory_check_view(mandatory@[i as int]@)));
            }
        }
        i = i + 1;
    }
    proof {
        assert(views(mandatory@).take(mandatory@.len() as int) =~= views(mandatory@));
    }
    out
}

/// Without a quality contract, `validate` reports it: blocking in ratchet and
/// strict mode, an observation in warn mode.
pub fn quality_contract_missing_violation(mode: ValidateMode) -> (v: Violation)
    ensures
        violation_view(v) == (ViolationView {
            code: "config.quality_contract_missing"@,
            message: "quality_contract.toml not found under .agents/mcp/compas/"@,
            path: Some(".agents/mcp/compas/quality_contract.toml"@),
            details: None,
            tier: if mode == ValidateMode::Warn {
                ViolationTier::Observation
            } else {
                ViolationTier::Blocking
            },
        }),
{
    let tier = match mode {
        ValidateMode::Ratchet | ValidateMode::Strict => ViolationTier::Blocking,
        ValidateMode::Warn => ViolationTier::Observation,
    };
    Violation {
        code: String::from_str("config.quality_contract_missing"),
        message: String::from_str("quality_contract.toml not found under .agents/mcp/compas/"),
        path: Some(String::from_str(".agents/mcp/compas/quality_contract.toml")),
        details: None,
        tier,
    }
}

pub open spec fn catalog_path_violation(code: Seq<char>, message: Seq<char>) -> ViolationView {
    ViolationView {
        code,
        message,
        path: Some(".agents/mcp/compas/failure_modes.toml"@),
        details: None,
        tier: ViolationTier::Blocking,
    }
}

/// The mandatory failure modes, in order, that the catalog lacks.
pub open spec fn missing_modes(catalog: Seq<Seq<char>>, mandatory: Seq<Seq<char>>) -> Seq<Seq<char>> {
    crate::plugins::retain_not_in(mandatory, catalog)
}

/// The catalog guards of the quality contract: a violation for each mandatory
/// failure mode the catalog lacks, then one if the catalog is too small.
pub fn failure_mode_violations(catalog: &Vec<String>, mandatory: &Vec<String>, min_failure_modes: usize) -> (out: Vec<
    Violation,
>)
    ensures
        violation_views(out@) == missing_modes(views(catalog@), views(mandatory@)).map_values(
            |m: Seq<char>|
                catalog_path_violation(
                    "failure_modes.mandatory_missing"@,
                    "mandatory failure mode '"@ + m + "' not in catalog"@,
                ),
        ) + if catalog@.len() < min_failure_modes {
            seq![
                catalog_path_violation(
                    "failure_modes.catalog_too_small"@,
                    "failure mode catalog has "@ + decimal_spec(catalog@.len()) + " modes, minimum is "@ + decimal_spec(
                        min_failure_modes as nat,
                    ),
                ),
            ]
        } else {
            Seq::<ViolationView>::empty()
        },
{
    let missing = crate::plugins::strings_not_in(mandatory, catalog);
    let mut out: Vec<Violation> = Vec::new();
    let mut i: usize = 0;
    while i < missing.len()
        invariant
            i <= missing@.len(),
            violation_views(out@) == views(missing@).take(i as int).map_values(
                |m: Seq<char>|
                    catalog_path_violation(
                        "failure_modes.mandatory_missing"@,
                        "mandatory failure mode '"@ + m + "' not in catalog"@,
                    ),
            ),
        decreases missing@.len() - i,
    {
        let a = concat("mandatory failure mode '", missing[i].as_str());
        let m = concat(a.as_str(), "' not in catalog");
        let v = Violation::blocking(
            String::from_str("failure_modes.mandatory_missing"),
            m,
            Some(String::from_str(".agents/mcp/compas/failure_modes.toml")),
            None,
        );
        let ghost before = violation_views(out@);
        out.push(v);
        proof {
            assert(violation_views(out@) =~= before.push(violation_view(v)));
            assert(views(missing@).take(i + 1) =~= views(missing@).take(i as int).push(missing@[i as int]@));
        }
        i = i + 1;
    }
    proof {
        assert(views(missing@).take(missing@.len() as int) =~= views(missing@));
    }
    let ghost head = violation_views(out@);
    if catalog.len() < min_failure_modes {
        let a = concat("failure mode catalog has ", u64_to_string(catalog.len() as u64).as_str());
        let b = concat(a.as_str(), " modes, minimum is ");
        let m = concat(b.as_str(), u64_to_string(min_failure_modes as u64).as_str());
        let v = Violation::blocking(
            String::from_str("failure_modes.catalog_too_small"),
            m,
            Some(String::from_str(".agents/mcp/compas/failure_modes.toml")),
            None,
        );
        out.push(v);
        proof {
            assert(violation_views(out@) =~= head.push(violation_view(v)));
        }
    } else {
        proof {
            assert(head + Seq::<ViolationView>::empty() =~= head);
        }
    }
    out
}

/// More suppressed violations than the contract allows is a blocking violation.
pub fn exception_count_violation(suppressed_count: usize, max_exceptions: usize) -> (r: Option<Violation>)
    ensures
        suppressed_count <= max_exceptions ==> r is None,
        suppressed_count > max_exceptions ==> r is Some && violation_view(r.unwrap()) == plain_violation(
            "exception.budget_exceeded"@,
            "suppressed violations ("@ + decimal_spec(suppressed_count as nat) + ") exceed max_exceptions ("@
                + decimal_spec(max_exceptions as nat) + ")"@,
            ViolationTier::Blocking,
        ),
{
    if suppressed_count <= max_exceptions {
        return None;
    }
    let a = concat("suppressed violations (", u64_to_string(suppressed_count as u64).as_str());
    let b = concat(a.as_str(), ") exceed max_exceptions (");
    let c = concat(b.as_str(), u64_to_string(max_exceptions as u64).as_str());
    Some(Violation::blocking(String::from_str("exception.budget_exceeded"), concat(c.as_str(), ")"), None, None))
}

/// A configuration whose hash differs from the one the governance locked is
/// a weakened threshold.
pub fn config_hash_violation(locked: &Option<String>, current: &str) -> (r: Option<Violation>)
    ensures
        (locked is None || locked.unwrap()@ == current@) ==> r is None,
        locked is Some && locked.unwrap()@ != current@ ==> r is Some && violation_view(r.unwrap()) == (ViolationView {
            code: "config.threshold_weakened"@,
            message: "config hash differs from locked governance hash: expected="@ + locked.unwrap()@ + ", current="@
                + current@,
            path: Some(".agents/mcp/compas/quality_contract.toml"@),
            details: None,
            tier: ViolationTier::Blocking,
        }),
{
    match locked {
        None => None,
        Some(h) => {
            if str_eq(h.as_str(), current) {
                None
            } else {
                let a = concat("config hash differs from locked governance hash: expected=", h.as_str());
                let b = concat(a.as_str(), ", current=");
                Some(
                    Violation::blocking(
                        String::from_str("config.threshold_weakened"),
                        concat(b.as_str(), current),
                        Some(String::from_str(".agents/mcp/compas/quality_contract.toml")),
                        None,
                    ),
                )
            }
        },
    }
}

/// `validate` succeeds in warn mode, otherwise when the verdict passes.
pub fn validate_ok(mode: ValidateMode, status: DecisionStatus) -> (b: bool)
    ensures
        b == (mode == ValidateMode::Warn || status == DecisionStatus::Pass),
{
    mode == ValidateMode::Warn || status == DecisionStatus::Pass
}

/// The codes of the suppressed violations, sorted, each once.
pub fn collect_suppressed_codes(violations: &Vec<Violation>) -> (out: Vec<String>)
    ensures
        strictly_sorted(views(out@)),
        forall|c: Seq<char>|
            views(out@).contains(c) <==> exists|i: int| 0 <= i < violations@.len() && (#[trigger] violations@[i]).code@ == c,
{
    let mut out: Vec<String> = Vec::new();
    let mut i: usize = 0;
    while i < violations.len()
        invariant
            i <= violations@.len(),
            strictly_sorted(views(out@)),
            forall|c: Seq<char>|
                views(out@).contains(c) <==> exists|k: int| 0 <= k < i && (#[trigger] violations@[k]).code@ == c,
        decreases violations@.len() - i,
    {
        let ghost before = views(out@);
        insert_sorted_unique(&mut out, violations[i].code.clone());
        proof {
            assert forall|c: Seq<char>|
                views(out@).contains(c) <==> exists|k: int| 0 <= k < i + 1 && (#[trigger] violations@[k]).code@ == c by {
                assert(views(out@).to_set().contains(c) == views(out@).contains(c));
                assert(before.to_set().contains(c) == before.contains(c));
                if c == violations@[i as int].code@ {
                    assert(views(out@).to_set().contains(c));
                }
            }
        }
        i = i + 1;
    }
    out
}

} // verus!
