//! Evidence envelopes: a compact, bounded account of a gate run or a tool
//! execution (status, top findings, artifacts, remediation, cost class), built
//! from the run's violations and receipts and from the structured reports that
//! tools wrote.

use crate::api::{DecisionStatus, GateKind, Violation, ViolationTier};
use crate::csv::views;
use crate::text::{concat, decimal_spec, eq_ignore_ascii_case_spec, str_eq_ignore_ascii_case, trim_spec, trim_str, u64_to_string};
use vstd::prelude::*;
use vstd::string::*;

verus! {

pub const MAX_FINDINGS: usize = 5;

pub const MAX_REMEDIATIONS: usize = 3;

#[derive(Debug, Clone)]
pub struct EvidenceFinding {
    pub code: String,
    pub message: String,
    pub path: Option<String>,
    pub tier: ViolationTier,
}

#[derive(Debug, Clone)]
pub struct EvidenceArtifact {
    pub kind: String,
    pub location: String,
    pub sha256: Option<String>,
}

#[derive(Debug, Clone)]
pub struct EvidenceSummary {
    pub compact: String,
    pub top_findings: Vec<String>,
}

#[derive(Debug, Clone)]
pub struct EvidenceEnvelope {
    pub status: String,
    pub blocking: bool,
    pub findings: Vec<EvidenceFinding>,
    pub summary: EvidenceSummary,
    pub artifacts: Vec<EvidenceArtifact>,
    pub remediation: Vec<String>,
    pub cost_class: String,
    pub evidence_ref: String,
}

/// One finding of a structured report, with the fields that are strings.
#[derive(Debug, Clone)]
pub struct ReportFinding {
    pub code: Option<String>,
    pub message: Option<String>,
    pub path: Option<String>,
    pub severity: Option<String>,
}

/// One remediation item of a structured report.
#[derive(Debug, Clone)]
pub enum ReportRemediation {
    /// A plain text item.
    Text(String),
    /// An object with an optional string title and the string items of its steps.
    Steps(Option<String>, Vec<String>),
    /// Anything else.
    Other,
}

/// What a tool's structured report holds, as far as evidence reads it.
#[derive(Debug, Clone)]
pub struct ReportEvidence {
    pub findings: Vec<ReportFinding>,
    /// `evidence.report_path` and `evidence.report_sha256`, where strings.
    pub report_path: Option<String>,
    pub report_sha256: Option<String>,
    /// `summary.compact`, where a string.
    pub summary_compact: Option<String>,
    /// The string items of `summary.top_findings`.
    pub summary_top_findings: Vec<String>,
    pub remediation: Vec<ReportRemediation>,
}

pub open spec fn opt_view(v: Option<String>) -> Option<Seq<char>> {
    match v {
        Some(s) => Some(s@),
        None => None,
    }
}

/// A finding as contracts see it.
pub open spec fn finding_view(f: EvidenceFinding) -> (Seq<char>, Seq<char>, Option<Seq<char>>, ViolationTier) {
    (f.code@, f.message@, opt_view(f.path), f.tier)
}

pub open spec fn findings_view(fs: Seq<EvidenceFinding>) -> Seq<(Seq<char>, Seq<char>, Option<Seq<char>>, ViolationTier)> {
    fs.map_values(|f: EvidenceFinding| finding_view(f))
}

/// The first `n` items (all of them when there are fewer).
pub open spec fn first_n<T>(s: Seq<T>, n: nat) -> Seq<T> {
    if s.len() <= n {
        s
    } else {
        s.take(n as int)
    }
}

/// Critical and high severities (any ASCII case) block; everything else is observed.
pub open spec fn severity_tier(severity: Option<String>) -> ViolationTier {
    match severity {
        Some(s) => if eq_ignore_ascii_case_spec(s@, "critical"@) || eq_ignore_ascii_case_spec(s@, "high"@) {
            ViolationTier::Blocking
        } else {
            ViolationTier::Observation
        },
        None => ViolationTier::Observation,
    }
}

/// A report finding as evidence shows it, with defaults for missing fields.
pub open spec fn report_finding_view(f: ReportFinding) -> (Seq<char>, Seq<char>, Option<Seq<char>>, ViolationTier) {
    (
        match f.code {
            Some(c) => c@,
            None => "tools.structured_report.finding"@,
        },
        match f.message {
            Some(m) => m@,
            None => "structured report finding"@,
        },
        opt_view(f.path),
        severity_tier(f.severity),
    )
}

fn copy_opt(v: &Option<String>) -> (r: Option<String>)
    ensures
        opt_view(r) == opt_view(*v),
{
    match v {
        Some(s) => Some(s.clone()),
        None => None,
    }
}

fn report_finding(f: &ReportFinding) -> (e: EvidenceFinding)
    ensures
        finding_view(e) == report_finding_view(*f),
{
    let tier = match &f.severity {
        Some(s) => {
            if str_eq_ignore_ascii_case(s.as_str(), "critical") || str_eq_ignore_ascii_case(s.as_str(), "high") {
                ViolationTier::Blocking
            } else {
                ViolationTier::Observation
            }
        },
        None => ViolationTier::Observation,
    };
    EvidenceFinding {
        code: match &f.code {
            Some(c) => c.clone(),
            None => String::from_str("tools.structured_report.finding"),
        },
        message: match &f.message {
            Some(m) => m.clone(),
            None => String::from_str("structured report finding"),
        },
        path: copy_opt(&f.path),
        tier,
    }
}

/// The report's first findings (at most five), as evidence shows them.
pub fn report_findings(report: &ReportEvidence) -> (out: Vec<EvidenceFinding>)
    ensures
        findings_view(out@) == first_n(report.findings@, 5).map_values(|f: ReportFinding| report_finding_view(f)),
{
    let mut out: Vec<EvidenceFinding> = Vec::new();
    let mut i: usize = 0;
    while i < report.findings.len() && i < MAX_FINDINGS
        invariant
            i <= report.findings@.len(),
            i <= MAX_FINDINGS,
            findings_view(out@) == report.findings@.take(i as int).map_values(|f: ReportFinding| report_finding_view(f)),
        decreases report.findings@.len() - i,
    {
        let ghost before = findings_view(out@);
        out.push(report_finding(&report.findings[i]));
        proof {
            assert(findings_view(out@) =~= before.push(report_finding_view(report.findings@[i as int])));
            assert(report.findings@.take(i + 1) =~= report.findings@.take(i as int).push(report.findings@[i as int]));
        }
        i = i + 1;
    }
    proof {
        if report.findings@.len() <= 5 {
            assert(report.findings@.take(i as int) =~= report.findings@);
        }
    }
    out
}

pub open spec fn artifact_view(a: EvidenceArtifact) -> (Seq<char>, Seq<char>, Option<Seq<char>>) {
    (a.kind@, a.location@, opt_view(a.sha256))
}

pub open spec fn artifacts_view(a: Seq<EvidenceArtifact>) -> Seq<(Seq<char>, Seq<char>, Option<Seq<char>>)> {
    a.map_values(|x: EvidenceArtifact| artifact_view(x))
}

/// The report's own file, where it names one.
pub open spec fn report_artifacts_spec(report: ReportEvidence) -> Seq<(Seq<char>, Seq<char>, Option<Seq<char>>)> {
    match report.report_path {
        Some(p) => seq![("structured_report"@, p@, opt_view(report.report_sha256))],
        None => Seq::empty(),
    }
}

pub fn report_artifacts(report: &ReportEvidence) -> (out: Vec<EvidenceArtifact>)
    ensures
        artifacts_view(out@) == report_artifacts_spec(*report),
{
    let mut out: Vec<EvidenceArtifact> = Vec::new();
    match &report.report_path {
        Some(p) => {
            out.push(
                EvidenceArtifact {
                    kind: String::from_str("structured_report"),
                    location: p.clone(),
                    sha256: copy_opt(&report.report_sha256),
                },
            );
        },
        None => {},
    }
    proof {
        assert(artifacts_view(out@) =~= report_artifacts_spec(*report));
    }
    out
}

/// The items of `s`, in order, that are not blank, each trimmed.
pub open spec fn trimmed_items(s: Seq<Seq<char>>) -> Seq<Seq<char>> {
    crate::csv::trimmed_nonempty(s)
}

/// The report's summary: its compact text (trimmed, not blank) and its first
/// three top findings (trimmed, blanks dropped); none without compact text.
pub open spec fn report_summary_spec(report: ReportEvidence) -> Option<(Seq<char>, Seq<Seq<char>>)> {
    match report.summary_compact {
        Some(c) => if trim_spec(c@).len() > 0 {
            Some((trim_spec(c@), first_n(trimmed_items(views(report.summary_top_findings@)), 3)))
        } else {
            None
        },
        None => None,
    }
}

fn take_strings(v: Vec<String>, n: usize) -> (out: Vec<String>)
    ensures
        views(out@) == first_n(views(v@), n as nat),
{
    let mut out: Vec<String> = Vec::new();
    let mut i: usize = 0;
    while i < v.len() && i < n
        invariant
            i <= v@.len(),
            i <= n,
            views(out@) == views(v@).take(i as int),
        decreases v@.len() - i,
    {
        let ghost before = views(out@);
        out.push(v[i].clone());
        proof {
            assert(views(out@) =~= before.push(v@[i as int]@));
            assert(views(v@).take(i + 1) =~= views(v@).take(i as int).push(v@[i as int]@));
        }
        i = i + 1;
    }
    proof {
        if views(v@).len() <= n {
            assert(views(v@).take(i as int) =~= views(v@));
        }
    }
    out
}

fn trimmed_strings(v: &Vec<String>) -> (out: Vec<String>)
    ensures
        views(out@) == trimmed_items(views(v@)),
{
    let mut out: Vec<String> = Vec::new();
    let mut i: usize = 0;
    proof {
        assert(views(v@).take(0) =~= Seq::<Seq<char>>::empty());
        assert(views(out@) =~= Seq::<Seq<char>>::empty());
    }
    while i < v.len()
        invariant
            i <= v@.len(),
            views(out@) == trimmed_items(views(v@).take(i as int)),
        decreases v@.len() - i,
    {
        proof {
            assert(views(v@).take(i + 1).drop_last() =~= views(v@).take(i as int));
            assert(views(v@).take(i + 1).last() == v@[i as int]@);
        }
        crate::csv::push_trimmed_item(&mut out, v[i].as_str());
        i = i + 1;
    }
    proof {
        assert(views(v@).take(v@.len() as int) =~= views(v@));
    }
    out
}

pub fn report_summary(report: &ReportEvidence) -> (r: Option<EvidenceSummary>)
    ensures
        match report_summary_spec(*report) {
            None => r is None,
            Some((c, top)) => r is Some && r.unwrap().compact@ == c && views(r.unwrap().top_findings@) == top,
        },
{
    match &report.summary_compact {
        Some(c) => {
            let t = trim_str(c.as_str());
            if t.unicode_len() == 0 {
                return None;
            }
            let items = trimmed_strings(&report.summary_top_findings);
            Some(EvidenceSummary { compact: t, top_findings: take_strings(items, 3) })
        },
        None => None,
    }
}

/// A remediation item as text: itself trimmed; an object as its title (or
/// "Remediation") and its non-blank steps; nothing when blank or stepless.
pub open spec fn remediation_text(item: ReportRemediation) -> Option<Seq<char>> {
    match item {
        ReportRemediation::Text(t) => if trim_spec(t@).len() > 0 {
            Some(trim_spec(t@))
        } else {
            None
        },
        ReportRemediation::Steps(title, steps) => {
            let title_text = match title {
                Some(t) => if trim_spec(t@).len() > 0 {
                    trim_spec(t@)
                } else {
                    "Remediation"@
                },
                None => "Remediation"@,
            };
            let items = trimmed_items(views(steps@));
            if items.len() == 0 {
                None
            } else {
                Some(title_text + ": "@ + crate::plugins::join_spec(items, "; "@))
            }
        },
        ReportRemediation::Other => None,
    }
}

/// The remediation texts, in order.
pub open spec fn remediation_texts(items: Seq<ReportRemediation>) -> Seq<Seq<char>>
    decreases items.len(),
{
    if items.len() == 0 {
        Seq::empty()
    } else {
        let rest = remediation_texts(items.drop_last());
        match remediation_text(items.last()) {
            Some(t) => rest.push(t),
            None => rest,
        }
    }
}

/// The non-blank texts, each once (the first), in order.
pub open spec fn dedupe_non_blank(s: Seq<Seq<char>>) -> Seq<Seq<char>>
    decreases s.len(),
{
    if s.len() == 0 {
        Seq::empty()
    } else {
        let rest = dedupe_non_blank(s.drop_last());
        if trim_spec(s.last()).len() == 0 || rest.contains(s.last()) {
            rest
        } else {
            rest.push(s.last())
        }
    }
}

fn remediation_item_text(item: &ReportRemediation) -> (r: Option<String>)
    ensures
        opt_view(r) == remediation_text(*item),
{
    match item {
        ReportRemediation::Text(t) => {
            let s = trim_str(t.as_str());
            if s.unicode_len() > 0 {
                Some(s)
            } else {
                None
            }
        },
        ReportRemediation::Steps(title, steps) => {
            let title_text = match title {
                Some(t) => {
                    let s = trim_str(t.as_str());
                    if s.unicode_len() > 0 {
                        s
                    } else {
                        String::from_str("Remediation")
                    }
                },
                None => String::from_str("Remediation"),
            };
            let items = trimmed_strings(steps);
            if items.len() == 0 {
                None
            } else {
                let joined = crate::plugins::join_strings(items.as_slice(), "; ");
                let a = concat(title_text.as_str(), ": ");
                Some(concat(a.as_str(), joined.as_str()))
            }
        },
        ReportRemediation::Other => None,
    }
}

fn push_dedupe_non_blank(out: &mut Vec<String>, s: String)
    ensures
        views(final(out)@) == if trim_spec(s@).len() == 0 || views(old(out)@).contains(s@) {
            views(old(out)@)
        } else {
            views(old(out)@).push(s@)
        },
{
    let t = trim_str(s.as_str());
    if t.unicode_len() == 0 || crate::plugins::contains_string(out, s.as_str()) {
        return;
    }
    let ghost before = views(out@);
    out.push(s);
    proof {
        assert(views(out@) =~= before.push(out@.last()@));
    }
}

/// The report's remediation texts, blanks and repeats dropped, at most three.
pub fn report_remediation(report: &ReportEvidence) -> (out: Vec<String>)
    ensures
        views(out@) == first_n(dedupe_non_blank(remediation_texts(report.remediation@)), 3),
{
    let items = &report.remediation;
    let mut texts: Vec<String> = Vec::new();
    let mut i: usize = 0;
    proof {
        assert(items@.take(0) =~= Seq::<ReportRemediation>::empty());
        assert(views(texts@) =~= Seq::<Seq<char>>::empty());
    }
    while i < items.len()
        invariant
            i <= items@.len(),
            views(texts@) == dedupe_non_blank(remediation_texts(items@.take(i as int))),
        decreases items@.len() - i,
    {
        proof {
            assert(items@.take(i + 1).drop_last() =~= items@.take(i as int));
            assert(items@.take(i + 1).last() == items@[i as int]);
        }
        let ghost prev = remediation_texts(items@.take(i as int));
        match remediation_item_text(&items[i]) {
            Some(t) => {
                proof {
                    assert(remediation_texts(items@.take(i + 1)) == prev.push(t@));
                    assert(prev.push(t@).drop_last() =~= prev);
                    assert(prev.push(t@).last() == t@);
                }
                push_dedupe_non_blank(&mut texts, t);
            },
            None => {
                proof {
                    assert(remediation_texts(items@.take(i + 1)) == prev);
                }
            },
        }
        i = i + 1;
    }
    proof {
        assert(items@.take(items@.len() as int) =~= items@);
    }
    take_strings(texts, 3)
}

/// The codes of the findings that are not blank, at most three.
pub open spec fn top_codes(findings: Seq<EvidenceFinding>) -> Seq<Seq<char>> {
    first_n(non_blank_codes(findings), 3)
}

pub open spec fn non_blank_codes(findings: Seq<EvidenceFinding>) -> Seq<Seq<char>>
    decreases findings.len(),
{
    if findings.len() == 0 {
        Seq::empty()
    } else {
        let rest = non_blank_codes(findings.drop_last());
        if trim_spec(findings.last().code@).len() > 0 {
            rest.push(findings.last().code@)
        } else {
            rest
        }
    }
}

pub fn find_top_codes(findings: &Vec<EvidenceFinding>) -> (out: Vec<String>)
    ensures
        views(out@) == top_codes(findings@),
{
    let mut codes: Vec<String> = Vec::new();
    let mut i: usize = 0;
    proof {
        assert(findings@.take(0) =~= Seq::<EvidenceFinding>::empty());
        assert(views(codes@) =~= Seq::<Seq<char>>::empty());
    }
    while i < findings.len()
        invariant
            i <= findings@.len(),
            views(codes@) == non_blank_codes(findings@.take(i as int)),
        decreases findings@.len() - i,
    {
        proof {
            assert(findings@.take(i + 1).drop_last() =~= findings@.take(i as int));
            assert(findings@.take(i + 1).last() == findings@[i as int]);
        }
        let t = trim_str(findings[i].code.as_str());
        if t.unicode_len() > 0 {
            let ghost before = views(codes@);
            codes.push(findings[i].code.clone());
            proof {
                assert(views(codes@) =~= before.push(findings@[i as int].code@));
            }
        }
        i = i + 1;
    }
    proof {
        assert(findings@.take(findings@.len() as int) =~= findings@);
    }
    take_strings(codes, 3)
}

/// Some finding blocks.
pub open spec fn any_blocking_finding(findings: Seq<EvidenceFinding>) -> bool {
    exists|i: int| 0 <= i < findings.len() && (#[trigger] findings[i]).tier == ViolationTier::Blocking
}

pub fn blocking_from_findings(findings: &Vec<EvidenceFinding>) -> (b: bool)
    ensures
        b == any_blocking_finding(findings@),
{
    let mut i: usize = 0;
    while i < findings.len()
        invariant
            i <= findings@.len(),
            forall|k: int| 0 <= k < i ==> (#[trigger] findings@[k]).tier != ViolationTier::Blocking,
        decreases findings@.len() - i,
    {
        if findings[i].tier == ViolationTier::Blocking {
            return true;
        }
        i = i + 1;
    }
    false
}

/// How costly the evidence is to act on: high when blocking or large, low
/// when empty, medium otherwise.
pub open spec fn cost_class_spec(blocking: bool, findings_count: nat, artifacts_count: nat) -> Seq<char> {
    if blocking || findings_count >= 12 || artifacts_count >= 6 {
        "high"@
    } else if findings_count > 0 || artifacts_count > 0 {
        "medium"@
    } else {
        "low"@
    }
}

pub fn simple_cost_class(blocking: bool, findings_count: usize, artifacts_count: usize) -> (s: String)
    ensures
        s@ == cost_class_spec(blocking, findings_count as nat, artifacts_count as nat),
{
    if blocking || findings_count >= 12 || artifacts_count >= 6 {
        String::from_str("high")
    } else if findings_count > 0 || artifacts_count > 0 {
        String::from_str("medium")
    } else {
        String::from_str("low")
    }
}

pub open spec fn kind_slug(kind: GateKind) -> Seq<char> {
    match kind {
        GateKind::CiFast => "ci_fast"@,
        GateKind::Ci => "ci"@,
        GateKind::Flagship => "flagship"@,
    }
}

pub fn gate_kind_slug(kind: GateKind) -> (s: &'static str)
    ensures
        s@ == kind_slug(kind),
{
    match kind {
        GateKind::CiFast => "ci_fast",
        GateKind::Ci => "ci",
        GateKind::Flagship => "flagship",
    }
}

pub open spec fn status_text(status: DecisionStatus) -> Seq<char> {
    match status {
        DecisionStatus::Pass => "pass"@,
        DecisionStatus::Retryable => "retryable"@,
        DecisionStatus::Blocked => "blocked"@,
    }
}

pub fn status_from_decision(status: DecisionStatus) -> (s: &'static str)
    ensures
        s@ == status_text(status),
{
    match status {
        DecisionStatus::Pass => "pass",
        DecisionStatus::Retryable => "retryable",
        DecisionStatus::Blocked => "blocked",
    }
}

/// What a receipt contributes to gate evidence.
#[derive(Debug, Clone)]
pub struct ReceiptEvidence {
    pub tool_id: String,
    pub success: bool,
    pub report: Option<ReportEvidence>,
}

/// What gate evidence is built from.
#[derive(Debug, Clone)]
pub struct GateEvidenceInput {
    pub ok: bool,
    pub repo_root: String,
    pub kind: GateKind,
    pub validate_violations: Vec<Violation>,
    pub receipts: Vec<ReceiptEvidence>,
    /// The witness written, as path and sha256.
    pub witness: Option<(String, String)>,
    pub witness_path: Option<String>,
    pub verdict_status: Option<DecisionStatus>,
    /// The digest's minimal fix steps, where there is a digest.
    pub digest_fix_steps: Option<Vec<String>>,
}

pub open spec fn violation_finding(v: Violation) -> (Seq<char>, Seq<char>, Option<Seq<char>>, ViolationTier) {
    (v.code@, v.message@, opt_view(v.path), v.tier)
}

/// What the receipts add to the findings: each report's first findings, and
/// a blocking finding for each failed tool.
pub open spec fn receipt_findings(receipts: Seq<ReceiptEvidence>) -> Seq<(Seq<char>, Seq<char>, Option<Seq<char>>, ViolationTier)>
    decreases receipts.len(),
{
    if receipts.len() == 0 {
        Seq::empty()
    } else {
        let r = receipts.last();
        receipt_findings(receipts.drop_last()) + match r.report {
            Some(rep) => first_n(rep.findings@, 5).map_values(|f: ReportFinding| report_finding_view(f)),
            None => Seq::empty(),
        } + if r.success {
            Seq::empty()
        } else {
            seq![("gate.tool_failed"@, "tool "@ + r.tool_id@ + " failed inside gate"@, None, ViolationTier::Blocking)]
        }
    }
}

pub open spec fn receipt_artifacts(receipts: Seq<ReceiptEvidence>) -> Seq<(Seq<char>, Seq<char>, Option<Seq<char>>)>
    decreases receipts.len(),
{
    if receipts.len() == 0 {
        Seq::empty()
    } else {
        receipt_artifacts(receipts.drop_last()) + match receipts.last().report {
            Some(rep) => report_artifacts_spec(rep),
            None => Seq::empty(),
        }
    }
}

pub open spec fn receipt_remediation(receipts: Seq<ReceiptEvidence>) -> Seq<Seq<char>>
    decreases receipts.len(),
{
    if receipts.len() == 0 {
        Seq::empty()
    } else {
        receipt_remediation(receipts.drop_last()) + match receipts.last().report {
            Some(rep) => first_n(dedupe_non_blank(remediation_texts(rep.remediation@)), 3),
            None => Seq::empty(),
        }
    }
}

/// The summary of the first report that has one.
pub open spec fn first_report_summary(receipts: Seq<ReceiptEvidence>) -> Option<(Seq<char>, Seq<Seq<char>>)> {
    first_report_summary_from(receipts, 0)
}

/// The findings of gate evidence: the validate violations and what the
/// receipts add, at most five in all.
pub open spec fn gate_findings(input: GateEvidenceInput) -> Seq<(Seq<char>, Seq<char>, Option<Seq<char>>, ViolationTier)> {
    first_n(
        first_n(input.validate_violations@, 5).map_values(|v: Violation| violation_finding(v)) + receipt_findings(
            input.receipts@,
        ),
        5,
    )
}

pub open spec fn gate_status_text(input: GateEvidenceInput) -> Seq<char> {
    match input.verdict_status {
        Some(st) => status_text(st),
        None => if input.ok {
            "pass"@
        } else {
            "blocked"@
        },
    }
}

pub open spec fn any_blocking_view(fs: Seq<(Seq<char>, Seq<char>, Option<Seq<char>>, ViolationTier)>) -> bool {
    exists|i: int| 0 <= i < fs.len() && (#[trigger] fs[i]).3 == ViolationTier::Blocking
}

pub open spec fn non_blank_code_views(fs: Seq<(Seq<char>, Seq<char>, Option<Seq<char>>, ViolationTier)>) -> Seq<Seq<char>>
    decreases fs.len(),
{
    if fs.len() == 0 {
        Seq::empty()
    } else {
        let rest = non_blank_code_views(fs.drop_last());
        if trim_spec(fs.last().0).len() > 0 {
            rest.push(fs.last().0)
        } else {
            rest
        }
    }
}

/// The codes of the findings that are not blank, at most three.
pub open spec fn top_codes_view(fs: Seq<(Seq<char>, Seq<char>, Option<Seq<char>>, ViolationTier)>) -> Seq<Seq<char>> {
    first_n(non_blank_code_views(fs), 3)
}

proof fn lemma_codes_view(findings: Seq<EvidenceFinding>)
    ensures
        non_blank_codes(findings) == non_blank_code_views(findings_view(findings)),
    decreases findings.len(),
{
    if findings.len() > 0 {
        lemma_codes_view(findings.drop_last());
        assert(findings_view(findings).drop_last() =~= findings_view(findings.drop_last()));
        assert(findings_view(findings).last() == finding_view(findings.last()));
    }
}

pub open spec fn gate_remediation_fallback(input: GateEvidenceInput, blocking: bool) -> Seq<Seq<char>> {
    if input.digest_fix_steps is Some && input.digest_fix_steps.unwrap()@.len() > 0 {
        first_n(views(input.digest_fix_steps.unwrap()@), 3)
    } else if !blocking {
        seq!["gate passed; continue delivery."@]
    } else {
        seq!["fix blocking findings and rerun compas.gate kind=ci_fast."@]
    }
}

/// An envelope built for a gate run holds these findings, artifacts, status
/// and texts.
pub open spec fn gate_envelope_fits(e: EvidenceEnvelope, input: GateEvidenceInput) -> bool {
    let findings = gate_findings(input);
    let artifacts = receipt_artifacts(input.receipts@) + match input.witness {
        Some((path, sha)) => seq![("witness"@, path@, Some(sha@))],
        None => match input.witness_path {
            Some(path) => seq![("witness"@, path@, None)],
            None => Seq::empty(),
        },
    };
    let status = gate_status_text(input);
    let blocking = any_blocking_view(findings) || !input.ok;
    let slug = kind_slug(input.kind);
    let nv = input.validate_violations@.len();
    let remediation = receipt_remediation(input.receipts@);
    &&& findings_view(e.findings@) == findings
    &&& artifacts_view(e.artifacts@) == artifacts
    &&& e.status@ == status
    &&& e.blocking == blocking
    &&& match first_report_summary(input.receipts@) {
        Some((compact, top)) => {
            &&& e.summary.compact@ == "gate kind="@ + slug + "; validate_violations="@ + decimal_spec(nv) + "; report="@
                + compact
            &&& views(e.summary.top_findings@) == if top.len() == 0 {
                top_codes_view(findings)
            } else {
                top
            }
        },
        None => {
            &&& e.summary.compact@ == "gate status="@ + status + "; kind="@ + slug + "; receipts="@ + decimal_spec(
                input.receipts@.len(),
            ) + "; validate_violations="@ + decimal_spec(nv)
            &&& views(e.summary.top_findings@) == top_codes_view(findings)
        },
    }
    &&& views(e.remediation@) == if remediation.len() == 0 {
        gate_remediation_fallback(input, blocking)
    } else {
        first_n(dedupe_non_blank(remediation), 3)
    }
    &&& e.cost_class@ == cost_class_spec(blocking, findings.len(), artifacts.len())
    &&& e.evidence_ref@ == match input.witness {
        Some((_, sha)) => "gate:"@ + slug + ":"@ + sha@,
        None => "gate:"@ + slug + ":"@ + input.repo_root@,
    }
}

fn push_findings(out: &mut Vec<EvidenceFinding>, more: Vec<EvidenceFinding>)
    ensures
        findings_view(final(out)@) == findings_view(old(out)@) + findings_view(more@),
{
    let mut more = more;
    let ghost m = more@;
    out.append(&mut more);
    proof {
        assert(findings_view(out@) =~= findings_view(old(out)@) + findings_view(m));
    }
}

fn take_findings(v: Vec<EvidenceFinding>, n: usize) -> (out: Vec<EvidenceFinding>)
    ensures
        findings_view(out@) == first_n(findings_view(v@), n as nat),
{
    let mut v = v;
    let ghost all = v@;
    if v.len() > n {
        v.truncate(n);
        proof {
            assert(findings_view(v@) =~= findings_view(all).take(n as int));
        }
    }
    v
}

fn violation_findings(vs: &Vec<Violation>) -> (out: Vec<EvidenceFinding>)
    ensures
        findings_view(out@) == first_n(vs@, 5).map_values(|v: Violation| violation_finding(v)),
{
    let mut out: Vec<EvidenceFinding> = Vec::new();
    let mut i: usize = 0;
    while i < vs.len() && i < MAX_FINDINGS
        invariant
            i <= vs@.len(),
            i <= MAX_FINDINGS,
            findings_view(out@) == vs@.take(i as int).map_values(|v: Violation| violation_finding(v)),
        decreases vs@.len() - i,
    {
        let v = &vs[i];
        let ghost before = findings_view(out@);
        out.push(EvidenceFinding { code: v.code.clone(), message: v.message.clone(), path: copy_opt(&v.path), tier: v.tier });
        proof {
            assert(findings_view(out@) =~= before.push(violation_finding(vs@[i as int])));
            assert(vs@.take(i + 1) =~= vs@.take(i as int).push(vs@[i as int]));
        }
        i = i + 1;
    }
    proof {
        if vs@.len() <= 5 {
            assert(vs@.take(i as int) =~= vs@);
        }
    }
    out
}

fn gate_findings_exec(input: &GateEvidenceInput) -> (out: Vec<EvidenceFinding>)
    ensures
        findings_view(out@) == gate_findings(*input),
{
    let mut all = violation_findings(&input.validate_violations);
    let ghost base = findings_view(all@);
    let rs = &input.receipts;
    let mut i: usize = 0;
    proof {
        assert(rs@.take(0) =~= Seq::<ReceiptEvidence>::empty());
        assert(base + receipt_findings(rs@.take(0)) =~= base);
    }
    while i < rs.len()
        invariant
            i <= rs@.len(),
            findings_view(all@) == base + receipt_findings(rs@.take(i as int)),
        decreases rs@.len() - i,
    {
        proof {
            assert(rs@.take(i + 1).drop_last() =~= rs@.take(i as int));
            assert(rs@.take(i + 1).last() == rs@[i as int]);
        }
        let r = &rs[i];
        let ghost b0 = findings_view(all@);
        match &r.report {
            Some(rep) => {
                push_findings(&mut all, report_findings(rep));
            },
            None => {},
        }
        let ghost b1 = findings_view(all@);
        if !r.success {
            let a = concat("tool ", r.tool_id.as_str());
            let f = EvidenceFinding {
                code: String::from_str("gate.tool_failed"),
                message: concat(a.as_str(), " failed inside gate"),
                path: None,
                tier: ViolationTier::Blocking,
            };
            let ghost fv = finding_view(f);
            all.push(f);
            proof {
                assert(findings_view(all@) =~= b1.push(fv));
            }
        }
        proof {
            let rr = rs@[i as int];
            let added = match rr.report {
                Some(rep) => first_n(rep.findings@, 5).map_values(|f: ReportFinding| report_finding_view(f)),
                None => Seq::empty(),
            };
            let failed: Seq<(Seq<char>, Seq<char>, Option<Seq<char>>, ViolationTier)> = if rr.success {
                Seq::empty()
            } else {
                seq![("gate.tool_failed"@, "tool "@ + rr.tool_id@ + " failed inside gate"@, None, ViolationTier::Blocking)]
            };
            assert(b1 == b0 + added);
            assert(findings_view(all@) =~= b0 + added + failed);
            assert(receipt_findings(rs@.take(i + 1)) == receipt_findings(rs@.take(i as int)) + added + failed);
            assert(base + receipt_findings(rs@.take(i + 1)) =~= base + receipt_findings(rs@.take(i as int)) + added + failed);
        }
        i = i + 1;
    }
    proof {
        assert(rs@.take(rs@.len() as int) =~= rs@);
    }
    take_findings(all, MAX_FINDINGS)
}

fn push_artifacts(out: &mut Vec<EvidenceArtifact>, more: Vec<EvidenceArtifact>)
    ensures
        artifacts_view(final(out)@) == artifacts_view(old(out)@) + artifacts_view(more@),
{
    let mut more = more;
    let ghost m = more@;
    out.append(&mut more);
    proof {
        assert(artifacts_view(out@) =~= artifacts_view(old(out)@) + artifacts_view(m));
    }
}

fn gate_artifacts(input: &GateEvidenceInput) -> (out: Vec<EvidenceArtifact>)
    ensures
        artifacts_view(out@) == receipt_artifacts(input.receipts@) + match input.witness {
            Some((path, sha)) => seq![("witness"@, path@, Some(sha@))],
            None => match input.witness_path {
                Some(path) => seq![("witness"@, path@, None)],
                None => Seq::<(Seq<char>, Seq<char>, Option<Seq<char>>)>::empty(),
            },
        },
{
    let rs = &input.receipts;
    let mut out: Vec<EvidenceArtifact> = Vec::new();
    let mut i: usize = 0;
    proof {
        assert(rs@.take(0) =~= Seq::<ReceiptEvidence>::empty());
        assert(artifacts_view(out@) =~= Seq::<(Seq<char>, Seq<char>, Option<Seq<char>>)>::empty());
    }
    while i < rs.len()
        invariant
            i <= rs@.len(),
            artifacts_view(out@) == receipt_artifacts(rs@.take(i as int)),
        decreases rs@.len() - i,
    {
        proof {
            assert(rs@.take(i + 1).drop_last() =~= rs@.take(i as int));
            assert(rs@.take(i + 1).last() == rs@[i as int]);
        }
        match &rs[i].report {
            Some(rep) => push_artifacts(&mut out, report_artifacts(rep)),
            None => {
                proof {
                    assert(artifacts_view(out@) + Seq::<(Seq<char>, Seq<char>, Option<Seq<char>>)>::empty() =~= artifacts_view(out@));
                }
            },
        }
        i = i + 1;
    }
    proof {
        assert(rs@.take(rs@.len() as int) =~= rs@);
    }
    let ghost before = artifacts_view(out@);
    match &input.witness {
        Some((path, sha)) => {
            out.push(EvidenceArtifact { kind: String::from_str("witness"), location: path.clone(), sha256: Some(sha.clone()) });
        },
        None => match &input.witness_path {
            Some(path) => {
                out.push(EvidenceArtifact { kind: String::from_str("witness"), location: path.clone(), sha256: None });
            },
            None => {},
        },
    }
    proof {
        assert(artifacts_view(out@) =~= before + match input.witness {
            Some((path, sha)) => seq![("witness"@, path@, Some(sha@))],
            None => match input.witness_path {
                Some(path) => seq![("witness"@, path@, None)],
                None => Seq::<(Seq<char>, Seq<char>, Option<Seq<char>>)>::empty(),
            },
        });
    }
    out
}

fn gate_summary_source(receipts: &Vec<ReceiptEvidence>) -> (r: Option<EvidenceSummary>)
    ensures
        match first_report_summary(receipts@) {
            None => r is None,
            Some((c, top)) => r is Some && r.unwrap().compact@ == c && views(r.unwrap().top_findings@) == top,
        },
{
    let mut i: usize = 0;
    while i < receipts.len()
        invariant
            i <= receipts@.len(),
            first_report_summary(receipts@) == first_report_summary_from(receipts@, i as int),
        decreases receipts@.len() - i,
    {
        match &receipts[i].report {
            Some(rep) => {
                match report_summary(rep) {
                    Some(sm) => {
                        return Some(sm);
                    },
                    None => {},
                }
            },
            None => {},
        }
        i = i + 1;
    }
    None
}

/// The first report summary from receipt `i` on.
pub open spec fn first_report_summary_from(receipts: Seq<ReceiptEvidence>, i: int) -> Option<(Seq<char>, Seq<Seq<char>>)>
    decreases receipts.len() - i,
{
    if i < 0 || i >= receipts.len() {
        None
    } else {
        match match receipts[i].report {
            Some(rep) => report_summary_spec(rep),
            None => None,
        } {
            Some(s) => Some(s),
            None => first_report_summary_from(receipts, i + 1),
        }
    }
}

fn gate_remediation_texts(receipts: &Vec<ReceiptEvidence>) -> (out: Vec<String>)
    ensures
        views(out@) == receipt_remediation(receipts@),
{
    let mut out: Vec<String> = Vec::new();
    let mut i: usize = 0;
    proof {
        assert(receipts@.take(0) =~= Seq::<ReceiptEvidence>::empty());
        assert(views(out@) =~= Seq::<Seq<char>>::empty());
    }
    while i < receipts.len()
        invariant
            i <= receipts@.len(),
            views(out@) == receipt_remediation(receipts@.take(i as int)),
        decreases receipts@.len() - i,
    {
        proof {
            assert(receipts@.take(i + 1).drop_last() =~= receipts@.take(i as int));
            assert(receipts@.take(i + 1).last() == receipts@[i as int]);
        }
        let ghost before = views(out@);
        match &receipts[i].report {
            Some(rep) => {
                let mut more = report_remediation(rep);
                let ghost m = views(more@);
                out.append(&mut more);
                proof {
                    assert(views(out@) =~= before + m);
                }
            },
            None => {
                proof {
                    assert(before + Seq::<Seq<char>>::empty() =~= before);
                }
            },
        }
        i = i + 1;
    }
    proof {
        assert(receipts@.take(receipts@.len() as int) =~= receipts@);
    }
    out
}

fn dedupe_texts(v: &Vec<String>) -> (out: Vec<String>)
    ensures
        views(out@) == dedupe_non_blank(views(v@)),
{
    let mut out: Vec<String> = Vec::new();
    let mut i: usize = 0;
    proof {
        assert(views(v@).take(0) =~= Seq::<Seq<char>>::empty());
        assert(views(out@) =~= Seq::<Seq<char>>::empty());
    }
    while i < v.len()
        invariant
            i <= v@.len(),
            views(out@) == dedupe_non_blank(views(v@).take(i as int)),
        decreases v@.len() - i,
    {
        proof {
            assert(views(v@).take(i + 1).drop_last() =~= views(v@).take(i as int));
            assert(views(v@).take(i + 1).last() == v@[i as int]@);
        }
        push_dedupe_non_blank(&mut out, v[i].clone());
        i = i + 1;
    }
    proof {
        assert(views(v@).take(v@.len() as int) =~= views(v@));
    }
    out
}

fn remediation_from_gate(input: &GateEvidenceInput, blocking: bool) -> (out: Vec<String>)
    ensures
        views(out@) == gate_remediation_fallback(*input, blocking),
{
    match &input.digest_fix_steps {
        Some(steps) => {
            if steps.len() > 0 {
                return take_strings(crate::csv::copy_strings(steps.as_slice()), 3);
            }
        },
        None => {},
    }
    let mut out: Vec<String> = Vec::new();
    if !blocking {
        out.push(String::from_str("gate passed; continue delivery."));
    } else {
        out.push(String::from_str("fix blocking findings and rerun compas.gate kind=ci_fast."));
    }
    proof {
        assert(views(out@) =~= gate_remediation_fallback(*input, blocking));
    }
    out
}

proof fn lemma_any_blocking_view(findings: Seq<EvidenceFinding>)
    ensures
        any_blocking_finding(findings) == any_blocking_view(findings_view(findings)),
{
    if any_blocking_finding(findings) {
        let i = choose|i: int| 0 <= i < findings.len() && (#[trigger] findings[i]).tier == ViolationTier::Blocking;
        assert(findings_view(findings)[i].3 == ViolationTier::Blocking);
    }
    if any_blocking_view(findings_view(findings)) {
        let i = choose|i: int| 0 <= i < findings_view(findings).len() && (#[trigger] findings_view(findings)[i]).3 == ViolationTier::Blocking;
        assert(findings[i].tier == ViolationTier::Blocking);
    }
}

/// The evidence envelope of a gate run (see `gate_envelope_fits`).
pub fn build_gate_envelope(input: &GateEvidenceInput) -> (e: EvidenceEnvelope)
    ensures
        gate_envelope_fits(e, *input),
{
    let findings = gate_findings_exec(input);
    let artifacts = gate_artifacts(input);
    let status: String = match input.verdict_status {
        Some(st) => String::from_str(status_from_decision(st)),
        None => if input.ok {
            String::from_str("pass")
        } else {
            String::from_str("blocked")
        },
    };
    let blocking = blocking_from_findings(&findings) || !input.ok;
    proof {
        lemma_any_blocking_view(findings@);
        lemma_codes_view(findings@);
    }
    let slug = gate_kind_slug(input.kind);
    let nv = u64_to_string(input.validate_violations.len() as u64);
    let summary = match gate_summary_source(&input.receipts) {
        Some(primary) => {
            let top = if primary.top_findings.len() == 0 {
                find_top_codes(&findings)
            } else {
                primary.top_findings
            };
            let a = concat("gate kind=", slug);
            let b = concat(a.as_str(), "; validate_violations=");
            let c = concat(b.as_str(), nv.as_str());
            let d = concat(c.as_str(), "; report=");
            EvidenceSummary { compact: concat(d.as_str(), primary.compact.as_str()), top_findings: top }
        },
        None => {
            let a = concat("gate status=", status.as_str());
            let b = concat(a.as_str(), "; kind=");
            let c = concat(b.as_str(), slug);
            let d = concat(c.as_str(), "; receipts=");
            let e1 = concat(d.as_str(), u64_to_string(input.receipts.len() as u64).as_str());
            let f = concat(e1.as_str(), "; validate_violations=");
            EvidenceSummary { compact: concat(f.as_str(), nv.as_str()), top_findings: find_top_codes(&findings) }
        },
    };
    let texts = gate_remediation_texts(&input.receipts);
    let remediation = if texts.len() == 0 {
        remediation_from_gate(input, blocking)
    } else {
        take_strings(dedupe_texts(&texts), 3)
    };
    let cost_class = simple_cost_class(blocking, findings.len(), artifacts.len());
    let evidence_ref = match &input.witness {
        Some((_, sha)) => {
            let a = concat("gate:", slug);
            let b = concat(a.as_str(), ":");
            concat(b.as_str(), sha.as_str())
        },
        None => {
            let a = concat("gate:", slug);
            let b = concat(a.as_str(), ":");
            concat(b.as_str(), input.repo_root.as_str())
        },
    };
    proof {
        assert(findings_view(findings@).len() == findings@.len());
        assert(artifacts_view(artifacts@).len() == artifacts@.len());
    }
    EvidenceEnvelope { status, blocking, findings, summary, artifacts, remediation, cost_class, evidence_ref }
}

/// The receipt of a tool execution, as evidence reads it.
#[derive(Debug, Clone)]
pub struct ExecReceiptEvidence {
    pub tool_id: String,
    pub success: bool,
    pub duration_ms: u64,
    pub report: Option<ReportEvidence>,
}

/// What execution evidence is built from.
#[derive(Debug, Clone)]
pub struct ExecEvidenceInput {
    pub ok: bool,
    pub repo_root: String,
    pub error: Option<crate::api::ApiError>,
    pub receipt: Option<ExecReceiptEvidence>,
}

pub open spec fn exec_failed(input: ExecEvidenceInput) -> bool {
    input.receipt is Some && !input.receipt.unwrap().success && input.error is None
}

pub open spec fn exec_report(input: ExecEvidenceInput) -> Option<ReportEvidence> {
    match input.receipt {
        Some(r) => r.report,
        None => None,
    }
}

/// The findings of execution evidence: the error, the report's first
/// findings, and a failed tool; at most five.
pub open spec fn exec_findings(input: ExecEvidenceInput) -> Seq<(Seq<char>, Seq<char>, Option<Seq<char>>, ViolationTier)> {
    first_n(
        match input.error {
            Some(e) => seq![(e.code@, e.message@, None::<Seq<char>>, ViolationTier::Blocking)],
            None => Seq::empty(),
        } + match exec_report(input) {
            Some(rep) => first_n(rep.findings@, 5).map_values(|f: ReportFinding| report_finding_view(f)),
            None => Seq::empty(),
        } + if exec_failed(input) {
            seq![("compas.exec.exit_nonzero"@, "tool "@ + input.receipt.unwrap().tool_id@ + " failed"@, None::<Seq<char>>, ViolationTier::Blocking)]
        } else {
            Seq::empty()
        },
        5,
    )
}

pub open spec fn bool_text(b: bool) -> Seq<char> {
    if b {
        "true"@
    } else {
        "false"@
    }
}

pub open spec fn exec_remediation_fallback(input: ExecEvidenceInput, blocking: bool) -> Seq<Seq<char>> {
    if !blocking {
        seq!["tool execution succeeded; continue with gate."@]
    } else {
        match input.error {
            Some(e) => seq!["fix `"@ + e.code@ + "` and rerun compas.exec."@],
            None => seq!["inspect receipt stderr_tail and structured_report, then rerun compas.exec."@],
        }
    }
}

/// The execution evidence envelope holds these findings, artifacts, status and texts.
pub open spec fn exec_envelope_fits(e: EvidenceEnvelope, input: ExecEvidenceInput) -> bool {
    let findings = exec_findings(input);
    let artifacts = match exec_report(input) {
        Some(rep) => report_artifacts_spec(rep),
        None => Seq::empty(),
    };
    let status = if input.ok && !exec_failed(input) {
        "pass"@
    } else {
        "blocked"@
    };
    let blocking = any_blocking_view(findings) || !input.ok;
    let report_rem = match exec_report(input) {
        Some(rep) => first_n(dedupe_non_blank(remediation_texts(rep.remediation@)), 3),
        None => Seq::empty(),
    };
    &&& findings_view(e.findings@) == findings
    &&& artifacts_view(e.artifacts@) == artifacts
    &&& e.status@ == status
    &&& e.blocking == blocking
    &&& match match exec_report(input) {
        Some(rep) => report_summary_spec(rep),
        None => None,
    } {
        Some((compact, top)) => e.summary.compact@ == compact && views(e.summary.top_findings@) == if top.len() == 0 {
            top_codes_view(findings)
        } else {
            top
        },
        None => {
            &&& e.summary.compact@ == match input.receipt {
                Some(r) => "exec status="@ + status + "; tool_id="@ + r.tool_id@ + "; success="@ + bool_text(r.success)
                    + "; duration_ms="@ + decimal_spec(r.duration_ms as nat),
                None => "exec status="@ + status + "; receipt=missing"@,
            }
            &&& views(e.summary.top_findings@) == top_codes_view(findings)
        },
    }
    &&& views(e.remediation@) == if report_rem.len() == 0 {
        exec_remediation_fallback(input, blocking)
    } else {
        report_rem
    }
    &&& e.cost_class@ == cost_class_spec(blocking, findings.len(), artifacts.len())
    &&& e.evidence_ref@ == match input.receipt {
        Some(r) => "exec:"@ + input.repo_root@ + ":"@ + r.tool_id@,
        None => "exec:"@ + input.repo_root@,
    }
}

/// The evidence envelope of a tool execution (see `exec_envelope_fits`).
pub fn build_exec_envelope(input: &ExecEvidenceInput) -> (e: EvidenceEnvelope)
    ensures
        exec_envelope_fits(e, *input),
{
    let mut all: Vec<EvidenceFinding> = Vec::new();
    proof {
        assert(findings_view(all@) =~= Seq::<(Seq<char>, Seq<char>, Option<Seq<char>>, ViolationTier)>::empty());
    }
    match &input.error {
        Some(err) => {
            all.push(EvidenceFinding { code: err.code.clone(), message: err.message.clone(), path: None, tier: ViolationTier::Blocking });
        },
        None => {},
    }
    let ghost f0 = findings_view(all@);
    let mut artifacts: Vec<EvidenceArtifact> = Vec::new();
    let mut failed = false;
    let mut report_summary_opt: Option<EvidenceSummary> = None;
    let mut report_rem: Vec<String> = Vec::new();
    proof {
        assert(views(report_rem@) =~= Seq::<Seq<char>>::empty());
        assert(artifacts_view(artifacts@) =~= Seq::<(Seq<char>, Seq<char>, Option<Seq<char>>)>::empty());
    }
    match &input.receipt {
        Some(r) => {
            match &r.report {
                Some(rep) => {
                    push_findings(&mut all, report_findings(rep));
                    artifacts = report_artifacts(rep);
                    report_summary_opt = report_summary(rep);
                    report_rem = report_remediation(rep);
                },
                None => {},
            }
            if !r.success && input.error.is_none() {
                let a = concat("tool ", r.tool_id.as_str());
                let f = EvidenceFinding {
                    code: String::from_str("compas.exec.exit_nonzero"),
                    message: concat(a.as_str(), " failed"),
                    path: None,
                    tier: ViolationTier::Blocking,
                };
                let ghost before = findings_view(all@);
                let ghost fv = finding_view(f);
                all.push(f);
                failed = true;
                proof {
                    assert(findings_view(all@) =~= before.push(fv));
                }
            }
        },
        None => {},
    }
    proof {
        assert(findings_view(all@) =~= match input.error {
            Some(e) => seq![(e.code@, e.message@, None::<Seq<char>>, ViolationTier::Blocking)],
            None => Seq::empty(),
        } + match exec_report(*input) {
            Some(rep) => first_n(rep.findings@, 5).map_values(|f: ReportFinding| report_finding_view(f)),
            None => Seq::empty(),
        } + if exec_failed(*input) {
            seq![("compas.exec.exit_nonzero"@, "tool "@ + input.receipt.unwrap().tool_id@ + " failed"@, None::<Seq<char>>, ViolationTier::Blocking)]
        } else {
            Seq::empty()
        });
    }
    let findings = take_findings(all, MAX_FINDINGS);
    let status = if input.ok && !failed {
        String::from_str("pass")
    } else {
        String::from_str("blocked")
    };
    let blocking = blocking_from_findings(&findings) || !input.ok;
    proof {
        lemma_any_blocking_view(findings@);
        lemma_codes_view(findings@);
    }
    let summary = match report_summary_opt {
        Some(rs) => {
            let top = if rs.top_findings.len() == 0 {
                find_top_codes(&findings)
            } else {
                rs.top_findings
            };
            EvidenceSummary { compact: rs.compact, top_findings: top }
        },
        None => {
            let compact = match &input.receipt {
                Some(r) => {
                    let a = concat("exec status=", status.as_str());
                    let b = concat(a.as_str(), "; tool_id=");
                    let c = concat(b.as_str(), r.tool_id.as_str());
                    let d = concat(c.as_str(), "; success=");
                    let e1 = concat(d.as_str(), if r.success { "true" } else { "false" });
                    let f = concat(e1.as_str(), "; duration_ms=");
                    concat(f.as_str(), u64_to_string(r.duration_ms).as_str())
                },
                None => {
                    let a = concat("exec status=", status.as_str());
                    concat(a.as_str(), "; receipt=missing")
                },
            };
            EvidenceSummary { compact, top_findings: find_top_codes(&findings) }
        },
    };
    let remediation = if report_rem.len() > 0 {
        report_rem
    } else if !blocking {
        let mut v: Vec<String> = Vec::new();
        v.push(String::from_str("tool execution succeeded; continue with gate."));
        proof {
            assert(views(v@) =~= seq!["tool execution succeeded; continue with gate."@]);
        }
        v
    } else {
        let mut v: Vec<String> = Vec::new();
        match &input.error {
            Some(err) => {
                let a = concat("fix `", err.code.as_str());
                v.push(concat(a.as_str(), "` and rerun compas.exec."));
            },
            None => {
                v.push(String::from_str("inspect receipt stderr_tail and structured_report, then rerun compas.exec."));
            },
        }
        proof {
            assert(views(v@) =~= exec_remediation_fallback(*input, blocking));
        }
        v
    };
    let cost_class = simple_cost_class(blocking, findings.len(), artifacts.len());
    let evidence_ref = match &input.receipt {
        Some(r) => {
            let a = concat("exec:", input.repo_root.as_str());
            let b = concat(a.as_str(), ":");
            concat(b.as_str(), r.tool_id.as_str())
        },
        None => concat("exec:", input.repo_root.as_str()),
    };
    proof {
        assert(findings_view(findings@).len() == findings@.len());
        assert(artifacts_view(artifacts@).len() == artifacts@.len());
    }
    EvidenceEnvelope { status, blocking, findings, summary, artifacts, remediation, cost_class, evidence_ref }
}

} // verus!
