//! Request/response model of the compas tools (validate, gate, init, exec).

use std::collections::BTreeMap;
use vstd::prelude::*;

verus! {

#[derive(Debug, Clone)]
pub struct ApiError {
    pub code: String,
    pub message: String,
}

/// One value of a violation's structured details.
#[derive(Debug, Clone)]
pub enum DetailValue {
    Null,
    Bool(bool),
    Int(i64),
    UInt(u64),
    Str(String),
    StrList(Vec<String>),
    /// A nested object whose members are all unsigned numbers.
    UIntObject(Vec<(String, u64)>),
    /// An unsigned number that may not fit in 64 bits.
    UWide(u128),
    /// A list of objects, each a short hash prefix and its paths.
    Groups(Vec<(String, Vec<String>)>),
}

/// A detail value as contracts see it.
pub enum DetailValueView {
    Null,
    Bool(bool),
    Int(i64),
    UInt(u64),
    Str(Seq<char>),
    StrList(Seq<Seq<char>>),
    UIntObject(Seq<(Seq<char>, u64)>),
    UWide(u128),
    Groups(Seq<(Seq<char>, Seq<Seq<char>>)>),
}

pub open spec fn detail_value_view(v: DetailValue) -> DetailValueView {
    match v {
        DetailValue::Null => DetailValueView::Null,
        DetailValue::Bool(b) => DetailValueView::Bool(b),
        DetailValue::Int(i) => DetailValueView::Int(i),
        DetailValue::UInt(u) => DetailValueView::UInt(u),
        DetailValue::Str(s) => DetailValueView::Str(s@),
        DetailValue::StrList(l) => DetailValueView::StrList(l@.map_values(|s: String| s@)),
        DetailValue::UIntObject(o) => DetailValueView::UIntObject(o@.map_values(|e: (String, u64)| (e.0@, e.1))),
        DetailValue::UWide(u) => DetailValueView::UWide(u),
        DetailValue::Groups(g) => DetailValueView::Groups(g@.map_values(|e: (String, Vec<String>)| (e.0@, e.1@.map_values(|p: String| p@)))),
    }
}

/// The details as contracts see them.
pub open spec fn details_view(d: Option<Details>) -> Option<Seq<(Seq<char>, DetailValueView)>> {
    match d {
        Some(d) => Some(d.fields@.map_values(|f: (String, DetailValue)| (f.0@, detail_value_view(f.1)))),
        None => None,
    }
}

/// Structured details of a violation: named values, in order.
#[derive(Debug, Clone)]
pub struct Details {
    pub fields: Vec<(String, DetailValue)>,
}

#[derive(Debug, Clone)]
pub struct Violation {
    pub code: String,
    pub message: String,
    pub path: Option<String>,
    pub details: Option<Details>,
    pub tier: ViolationTier,
}

/// A violation as contracts see it.
pub struct ViolationView {
    pub code: Seq<char>,
    pub message: Seq<char>,
    pub path: Option<Seq<char>>,
    pub details: Option<Seq<(Seq<char>, DetailValueView)>>,
    pub tier: ViolationTier,
}

pub open spec fn violation_view(v: Violation) -> ViolationView {
    ViolationView {
        code: v.code@,
        message: v.message@,
        path: match v.path {
            Some(p) => Some(p@),
            None => None,
        },
        details: details_view(v.details),
        tier: v.tier,
    }
}

pub open spec fn violation_views(vs: Seq<Violation>) -> Seq<ViolationView> {
    vs.map_values(|v: Violation| violation_view(v))
}

/// A violation without path or details.
pub open spec fn plain_violation(code: Seq<char>, message: Seq<char>, tier: ViolationTier) -> ViolationView {
    ViolationView { code, message, path: None, details: None, tier }
}

#[derive(Debug, Clone, Copy, PartialEq, Eq, Structural)]
pub enum ValidateMode {
    Ratchet,
    Strict,
    Warn,
}

#[derive(Debug, Clone, Copy, PartialEq, Eq, Structural)]
pub enum ResponseMode {
    Compact,
    Full,
}

#[derive(Debug, Clone)]
pub struct PayloadMeta {
    pub mode: ResponseMode,
    pub truncated: bool,
    pub omitted: BTreeMap<String, usize>,
}

#[derive(Debug, Clone, Copy, PartialEq, Eq, Structural)]
pub enum ViolationTier {
    Blocking,
    Observation,
}

impl Violation {
    /// A violation that blocks the decision.
    pub fn blocking(code: String, message: String, path: Option<String>, details: Option<Details>) -> (v: Violation)
        ensures
            v.code == code,
            v.message == message,
            v.path == path,
            v.details == details,
            v.tier == ViolationTier::Blocking,
    {
        Violation { code, message, path, details, tier: ViolationTier::Blocking }
    }

    /// A violation that is only reported.
    pub fn observation(code: String, message: String, path: Option<String>, details: Option<Details>) -> (v: Violation)
        ensures
            v.code == code,
            v.message == message,
            v.path == path,
            v.details == details,
            v.tier == ViolationTier::Observation,
    {
        Violation { code, message, path, details, tier: ViolationTier::Observation }
    }
}

#[derive(Debug, Clone, Copy, PartialEq, Eq, Structural)]
pub enum DecisionStatus {
    Pass,
    Retryable,
    Blocked,
}

#[derive(Debug, Clone, Copy, PartialEq, Eq, Structural)]
pub enum ErrorClass {
    SchemaConfig,
    ContractBreak,
    RuntimeRisk,
    Security,
    QualityRegression,
    TransientTool,
    Unknown,
}

#[derive(Debug, Clone)]
pub struct DecisionReason {
    pub code: String,
    pub class: ErrorClass,
    pub tier: ViolationTier,
}

#[derive(Debug, Clone)]
pub struct Decision {
    pub status: DecisionStatus,
    pub reasons: Vec<DecisionReason>,
    pub blocking_count: usize,
    pub observation_count: usize,
}

#[derive(Debug, Clone)]
pub struct QualityPosture {
    pub trust_score: i32,
    pub trust_grade: String,
    pub coverage_covered: usize,
    pub coverage_total: usize,
    pub weighted_risk: i32,
    pub findings_total: usize,
    pub risk_by_severity: BTreeMap<String, usize>,
}

#[derive(Debug, Clone)]
pub struct Verdict {
    pub decision: Decision,
    pub quality_posture: Option<QualityPosture>,
    pub suppressed_count: usize,
    pub suppressed_codes: Vec<String>,
}

#[derive(Debug, Clone)]
pub struct BaselineMaintenance {
    pub reason: String,
    pub owner: String,
}

#[derive(Debug, Clone)]
pub struct ValidateRequest {
    pub repo_root: Option<String>,
    pub mode: ValidateMode,
    /// When true, writes/updates baseline files for enabled checks.
    pub write_baseline: Option<bool>,
    pub baseline_maintenance: Option<BaselineMaintenance>,
    pub response_mode: Option<ResponseMode>,
}

#[derive(Debug, Clone)]
pub struct LocSummary {
    pub files_scanned: usize,
    pub max_loc: usize,
    pub worst_path: Option<String>,
}

#[derive(Debug, Clone)]
pub struct BoundarySummary {
    pub files_scanned: usize,
    pub rules_checked: usize,
    pub violations: usize,
}

#[derive(Debug, Clone)]
pub struct PublicSurfaceSummary {
    pub baseline_path: String,
    pub max_pub_items: usize,
    pub items_total: usize,
    pub added_vs_baseline: usize,
    pub removed_vs_baseline: usize,
}

#[derive(Debug, Clone, Copy, PartialEq, Eq, Structural)]
pub enum EffectiveConfigSource {
    Env,
    Default,
    Unset,
}

#[derive(Debug, Clone)]
pub struct EffectiveConfigEntry {
    pub name: String,
    pub description: Option<String>,
    pub required: bool,
    pub sensitive: bool,
    pub source: EffectiveConfigSource,
    pub value: Option<String>,
    pub used_by_tools: Vec<String>,
}

#[derive(Debug, Clone)]
pub struct EffectiveConfigSummary {
    pub registry_path: String,
    pub registered_vars: usize,
    pub used_vars: Vec<String>,
    pub entries: Vec<EffectiveConfigEntry>,
}

#[derive(Debug, Clone)]
pub struct ToolsListRequest {
    pub repo_root: Option<String>,
}

#[derive(Debug, Clone)]
pub struct ProjectToolInfo {
    pub id: String,
    pub plugin_id: String,
    pub description: String,
}

#[derive(Debug, Clone)]
pub struct ToolsListOutput {
    pub ok: bool,
    pub error: Option<ApiError>,
    pub repo_root: String,
    pub tools: Vec<ProjectToolInfo>,
}

#[derive(Debug, Clone)]
pub struct ToolsDescribeRequest {
    pub repo_root: Option<String>,
    pub tool_id: String,
}

#[derive(Debug, Clone)]
pub struct ProjectToolSpec {
    pub id: String,
    pub plugin_id: String,
    pub description: String,
    pub command: String,
    pub args: Vec<String>,
    pub cwd: Option<String>,
    pub timeout_ms: u64,
    pub max_stdout_bytes: usize,
    pub max_stderr_bytes: usize,
}

#[derive(Debug, Clone)]
pub struct ToolsDescribeOutput {
    pub ok: bool,
    pub error: Option<ApiError>,
    pub repo_root: String,
    pub tool: Option<ProjectToolSpec>,
}

#[derive(Debug, Clone)]
pub struct ToolsRunRequest {
    pub repo_root: Option<String>,
    pub tool_id: String,
    pub args: Option<Vec<String>>,
    pub dry_run: Option<bool>,
    pub response_mode: Option<ResponseMode>,
}

/// What one run of a project tool left behind.
#[derive(Debug, Clone)]
pub struct Receipt {
    pub tool_id: String,
    pub success: bool,
    pub exit_code: Option<i32>,
    pub timed_out: bool,
    pub duration_ms: u64,
    pub command: String,
    pub args: Vec<String>,
    pub stdout_tail: String,
    pub stderr_tail: String,
    pub stdout_bytes: usize,
    pub stderr_bytes: usize,
    pub stdout_sha256: String,
    pub stderr_sha256: String,
    /// The raw JSON text of the report the tool wrote, when it wrote one.
    pub structured_report: Option<String>,
}

#[derive(Debug, Clone, Copy, PartialEq, Eq, Structural)]
pub enum GateKind {
    CiFast,
    Ci,
    Flagship,
}

#[derive(Debug, Clone, Copy, PartialEq, Eq, Structural)]
pub enum GateOp {
    Run,
    Start,
    Status,
}

#[derive(Debug, Clone, Copy, PartialEq, Eq, Structural)]
pub enum GateJobState {
    Pending,
    Running,
    Succeeded,
    Failed,
    Expired,
}

#[derive(Debug, Clone)]
pub struct JobInfo {
    pub job_id: String,
    pub state: GateJobState,
    pub created_at: String,
    pub updated_at: String,
    pub expires_at: String,
}

#[derive(Debug, Clone)]
pub struct GateRequest {
    pub repo_root: Option<String>,
    pub kind: GateKind,
    pub dry_run: Option<bool>,
    pub write_witness: Option<bool>,
    pub op: Option<GateOp>,
    pub job_id: Option<String>,
    pub wait_ms: Option<u64>,
    pub response_mode: Option<ResponseMode>,
}

#[derive(Debug, Clone)]
pub struct WitnessMeta {
    pub path: String,
    pub size_bytes: usize,
    pub sha256: String,
    pub rotated_files: usize,
}

/// Canonical tool ids: a small, fixed vocabulary of tool actions.
#[derive(Debug, Clone, Copy, PartialEq, Eq, Structural)]
pub enum CanonicalToolId {
    Build,
    Test,
    Lint,
    Fmt,
    Docs,
}

/// Canonical tooling wiring for gates and init; `disabled` marks actions
/// that are intentionally off.
#[derive(Debug, Clone)]
pub struct CanonicalToolsConfig {
    pub build: Vec<String>,
    pub test: Vec<String>,
    pub lint: Vec<String>,
    pub fmt: Vec<String>,
    pub docs: Vec<String>,
    pub disabled: Vec<CanonicalToolId>,
}

#[derive(Debug, Clone)]
pub struct InitRequest {
    pub repo_root: Option<String>,
    pub apply: Option<bool>,
    pub profile: Option<String>,
    /// Optional registry manifest used for advisory pack recommendations.
    pub registry_source: Option<String>,
    /// Optional pack selection override (e.g., ["builtin:rust", "builtin:node"]).
    pub packs: Option<Vec<String>>,
    /// Optional external packs (pinned by sha256).
    pub external_packs: Option<Vec<ExternalPackRef>>,
}

#[derive(Debug, Clone)]
pub struct ExternalPackRef {
    pub source: String,
    pub sha256: String,
}

#[derive(Debug, Clone)]
pub struct InitWriteFile {
    pub path: String,
    pub content_utf8: String,
}

#[derive(Debug, Clone)]
pub struct InitPlan {
    pub writes: Vec<InitWriteFile>,
    pub deletes: Vec<String>,
}

#[derive(Debug, Clone)]
pub struct InitOutput {
    pub ok: bool,
    pub error: Option<ApiError>,
    pub repo_root: String,
    pub applied: bool,
    pub plan: Option<InitPlan>,
    pub summary_md: Option<String>,
    pub payload_meta: Option<PayloadMeta>,
}

#[derive(Debug, Clone, Copy, PartialEq, Eq, Structural)]
pub enum FindingSeverity {
    Critical,
    High,
    Medium,
    Low,
}

#[derive(Debug, Clone)]
pub struct RiskSummary {
    pub findings_total: usize,
    pub by_category: BTreeMap<String, usize>,
    pub by_severity: BTreeMap<String, usize>,
}

#[derive(Debug, Clone)]
pub struct TrustWeights {
    pub critical: usize,
    pub high: usize,
    pub medium: usize,
    pub low: usize,
}

#[derive(Debug, Clone)]
pub struct TrustScore {
    pub score: i32,
    pub grade: String,
    pub weights: TrustWeights,
    pub coverage_penalty: i32,
}

#[derive(Debug, Clone)]
pub struct AgentDigest {
    pub top_blockers: Vec<String>,
    pub root_causes: Vec<String>,
    pub minimal_fix_steps: Vec<String>,
    pub confidence: String,
    pub suppressed_count: usize,
    pub suppressed_top_codes: Vec<String>,
}

} // verus!
