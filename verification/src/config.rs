//! The repository configuration: plugins, tools, gates, checks and the
//! quality contract, with their defaults.
//!
//! The ratios of the quality contract (coverage minimum, suppressed ratio,
//! scope narrowing) are floating point and are kept beside these types by the
//! caller; everything else is here.

use vstd::prelude::*;
use vstd::string::*;

verus! {

#[derive(Debug, Clone)]
pub struct PluginConfig {
    pub plugin: PluginMeta,
    pub tools: Vec<ProjectTool>,
    pub tool_policy: ToolExecutionPolicyConfigV2,
    pub gate: Option<GateConfig>,
    pub checks: Option<ChecksConfigV2>,
}

#[derive(Debug, Clone)]
pub struct PluginMeta {
    pub id: String,
    pub description: String,
    pub tool_import_globs: Vec<String>,
}

#[derive(Debug, Clone)]
pub struct ProjectTool {
    pub id: String,
    pub description: String,
    pub command: String,
    pub args: Vec<String>,
    pub cwd: Option<String>,
    pub timeout_ms: Option<u64>,
    pub max_stdout_bytes: Option<usize>,
    pub max_stderr_bytes: Option<usize>,
    pub receipt_contract: Option<ToolReceiptContract>,
    /// Environment variables, ordered by name.
    pub env: Vec<(String, String)>,
}

#[derive(Debug, Clone, Copy, PartialEq, Eq, Structural)]
pub enum ToolExecutionPolicyMode {
    Allowlist,
    AllowAny,
}

impl Default for ToolExecutionPolicyMode {
    fn default() -> (m: Self)
        ensures
            m == ToolExecutionPolicyMode::Allowlist,
    {
        ToolExecutionPolicyMode::Allowlist
    }
}

#[derive(Debug, Clone)]
pub struct ToolExecutionPolicyConfigV2 {
    pub mode: ToolExecutionPolicyMode,
    pub allow_commands: Vec<String>,
}

impl Default for ToolExecutionPolicyConfigV2 {
    fn default() -> (c: Self)
        ensures
            c.mode == ToolExecutionPolicyMode::Allowlist,
            c.allow_commands@.len() == 0,
    {
        ToolExecutionPolicyConfigV2 { mode: ToolExecutionPolicyMode::Allowlist, allow_commands: Vec::new() }
    }
}

#[derive(Debug, Clone)]
pub struct ToolReceiptContract {
    pub min_duration_ms: Option<u64>,
    pub min_stdout_bytes: Option<usize>,
    pub expect_stdout_pattern: Option<String>,
    pub expect_exit_codes: Option<Vec<i32>>,
}

#[derive(Debug, Clone)]
pub struct GateConfig {
    pub ci_fast: Vec<String>,
    pub ci: Vec<String>,
    pub flagship: Vec<String>,
}

#[derive(Debug, Clone)]
pub struct ChecksConfigV2 {
    pub loc: Vec<LocCheckConfigV2>,
    pub env_registry: Vec<EnvRegistryCheckConfigV2>,
    pub boundary: Vec<BoundaryCheckConfigV2>,
    pub surface: Vec<SurfaceCheckConfigV2>,
    pub duplicates: Vec<DuplicatesCheckConfigV2>,
    pub supply_chain: Vec<SupplyChainCheckConfigV2>,
    pub tool_budget: Vec<ToolBudgetCheckConfigV2>,
    pub reuse_first: Vec<ReuseFirstCheckConfigV2>,
    pub arch_layers: Vec<ArchLayersCheckConfigV2>,
    pub dead_code: Vec<DeadCodeCheckConfigV2>,
    pub orphan_api: Vec<OrphanApiCheckConfigV2>,
    pub complexity_budget: Vec<ComplexityBudgetCheckConfigV2>,
    pub contract_break: Vec<ContractBreakCheckConfigV2>,
}

#[derive(Debug, Clone)]
pub struct LocCheckConfigV2 {
    pub id: String,
    pub max_loc: usize,
    pub include_globs: Vec<String>,
    pub exclude_globs: Vec<String>,
    pub baseline_path: String,
}

#[derive(Debug, Clone)]
pub struct EnvRegistryCheckConfigV2 {
    pub id: String,
    pub registry_path: String,
}

#[derive(Debug, Clone)]
pub struct BoundaryCheckConfigV2 {
    pub id: String,
    pub include_globs: Vec<String>,
    pub exclude_globs: Vec<String>,
    pub strip_rust_cfg_test_blocks: bool,
    pub rules: Vec<BoundaryRuleConfigV2>,
}

#[derive(Debug, Clone)]
pub struct BoundaryRuleConfigV2 {
    pub id: String,
    pub message: Option<String>,
    pub deny_regex: String,
}

#[derive(Debug, Clone)]
pub struct SurfaceCheckConfigV2 {
    pub id: String,
    pub max_items: usize,
    pub include_globs: Vec<String>,
    pub exclude_globs: Vec<String>,
    pub rules: Vec<SurfaceRuleConfigV2>,
    pub baseline_path: String,
}

#[derive(Debug, Clone)]
pub struct SurfaceRuleConfigV2 {
    /// Optional fine-grained file filter for this rule.
    pub file_globs: Vec<String>,
    pub regex: String,
    pub description: Option<String>,
}

#[derive(Debug, Clone)]
pub struct DuplicatesCheckConfigV2 {
    pub id: String,
    pub include_globs: Vec<String>,
    pub exclude_globs: Vec<String>,
    /// Only files of at most this many bytes are considered.
    pub max_file_bytes: usize,
    pub allowlist_globs: Vec<String>,
    pub baseline_path: String,
}

#[derive(Debug, Clone)]
pub struct SupplyChainCheckConfigV2 {
    pub id: String,
}

#[derive(Debug, Clone)]
pub struct ToolBudgetCheckConfigV2 {
    pub id: String,
    pub max_tools_total: usize,
    pub max_tools_per_plugin: usize,
    pub max_gate_tools_per_kind: usize,
    pub max_checks_total: usize,
}

#[derive(Debug, Clone)]
pub struct ReuseFirstCheckConfigV2 {
    pub id: String,
    pub include_globs: Vec<String>,
    pub exclude_globs: Vec<String>,
    pub min_block_lines: usize,
}

/// Blocks shorter than this many lines are not reported as repeated.
pub fn default_reuse_min_block_lines() -> (n: usize)
    ensures
        n == 6,
{
    6
}

#[derive(Debug, Clone)]
pub struct ArchLayersCheckConfigV2 {
    pub id: String,
    pub layers: Vec<ArchLayerConfigV2>,
    pub rules: Vec<ArchLayerRuleConfigV2>,
}

#[derive(Debug, Clone)]
pub struct ArchLayerConfigV2 {
    pub id: String,
    pub include_globs: Vec<String>,
    pub module_prefixes: Vec<String>,
}

#[derive(Debug, Clone)]
pub struct ArchLayerRuleConfigV2 {
    pub from_layer: String,
    pub deny_to_layers: Vec<String>,
}

#[derive(Debug, Clone)]
pub struct DeadCodeCheckConfigV2 {
    pub id: String,
    pub include_globs: Vec<String>,
    pub exclude_globs: Vec<String>,
    pub min_symbol_len: usize,
    pub blocking: bool,
}

#[derive(Debug, Clone)]
pub struct OrphanApiCheckConfigV2 {
    pub id: String,
    pub include_globs: Vec<String>,
    pub exclude_globs: Vec<String>,
    pub min_symbol_len: usize,
    pub blocking: bool,
}

/// Symbols shorter than this are not tracked.
pub fn default_min_symbol_len() -> (n: usize)
    ensures
        n == 3,
{
    3
}

#[derive(Debug, Clone)]
pub struct ComplexityBudgetCheckConfigV2 {
    pub id: String,
    pub include_globs: Vec<String>,
    pub exclude_globs: Vec<String>,
    pub max_function_lines: usize,
    pub max_cyclomatic: usize,
    pub max_cognitive: usize,
}

#[derive(Debug, Clone)]
pub struct ContractBreakCheckConfigV2 {
    pub id: String,
    pub include_globs: Vec<String>,
    pub exclude_globs: Vec<String>,
    pub baseline_path: String,
    pub allow_additions: bool,
}

/// Additions to a contract are allowed unless the check says otherwise.
pub fn default_allow_contract_additions() -> (b: bool)
    ensures
        b,
{
    true
}

/// The quality contract (`quality_contract.toml`).
#[derive(Debug, Clone)]
pub struct QualityContractConfig {
    pub quality: QualityThresholds,
    pub exceptions: ExceptionLimits,
    pub receipt_defaults: ReceiptDefaults,
    pub governance: GovernanceConfig,
    pub baseline: BaselineConfig,
    pub proof: ProofConfig,
    pub impact: ImpactConfig,
}

impl Default for QualityContractConfig {
    fn default() -> (c: Self)
        ensures
            default_quality(c.quality),
            default_exceptions(c.exceptions),
            c.receipt_defaults.min_duration_ms == 500 && c.receipt_defaults.min_stdout_bytes == 10,
            default_governance(c.governance),
            c.baseline.snapshot_path@ == default_snapshot_path_spec(),
            c.proof.require_witness,
            default_impact(c.impact),
    {
        QualityContractConfig {
            quality: QualityThresholds::default(),
            exceptions: ExceptionLimits::default(),
            receipt_defaults: ReceiptDefaults::default(),
            governance: GovernanceConfig::default(),
            baseline: BaselineConfig::default(),
            proof: ProofConfig::default(),
            impact: ImpactConfig::default(),
        }
    }
}

/// Trust and risk thresholds (the coverage minimum is kept beside it).
#[derive(Debug, Clone)]
pub struct QualityThresholds {
    pub min_trust_score: i32,
    pub allow_trust_drop: bool,
    pub allow_coverage_drop: bool,
    pub max_weighted_risk_increase: i32,
}

pub fn default_min_trust_score() -> (n: i32)
    ensures
        n == 60,
{
    60
}

pub open spec fn default_quality(q: QualityThresholds) -> bool {
    q.min_trust_score == 60 && !q.allow_trust_drop && !q.allow_coverage_drop && q.max_weighted_risk_increase == 0
}

impl Default for QualityThresholds {
    fn default() -> (q: Self)
        ensures
            default_quality(q),
    {
        QualityThresholds {
            min_trust_score: default_min_trust_score(),
            allow_trust_drop: false,
            allow_coverage_drop: false,
            max_weighted_risk_increase: 0,
        }
    }
}

/// Exception budget (the suppressed ratio is kept beside it).
#[derive(Debug, Clone)]
pub struct ExceptionLimits {
    pub max_exceptions: usize,
    pub max_exception_window_days: u32,
}

pub fn default_max_exceptions() -> (n: usize)
    ensures
        n == 10,
{
    10
}

pub fn default_max_exception_window_days() -> (n: u32)
    ensures
        n == 90,
{
    90
}

pub open spec fn default_exceptions(e: ExceptionLimits) -> bool {
    e.max_exceptions == 10 && e.max_exception_window_days == 90
}

impl Default for ExceptionLimits {
    fn default() -> (e: Self)
        ensures
            default_exceptions(e),
    {
        ExceptionLimits {
            max_exceptions: default_max_exceptions(),
            max_exception_window_days: default_max_exception_window_days(),
        }
    }
}

#[derive(Debug, Clone)]
pub struct ReceiptDefaults {
    pub min_duration_ms: u64,
    pub min_stdout_bytes: usize,
}

pub fn default_min_duration_ms() -> (n: u64)
    ensures
        n == 500,
{
    500
}

pub fn default_min_stdout_bytes() -> (n: usize)
    ensures
        n == 10,
{
    10
}

impl Default for ReceiptDefaults {
    fn default() -> (r: Self)
        ensures
            r.min_duration_ms == 500,
            r.min_stdout_bytes == 10,
    {
        ReceiptDefaults { min_duration_ms: default_min_duration_ms(), min_stdout_bytes: default_min_stdout_bytes() }
    }
}

#[derive(Debug, Clone)]
pub struct GovernanceConfig {
    pub mandatory_checks: Vec<String>,
    pub mandatory_failure_modes: Vec<String>,
    pub min_failure_modes: usize,
    pub config_hash: Option<String>,
}

pub fn default_min_failure_modes() -> (n: usize)
    ensures
        n == 8,
{
    8
}

pub open spec fn default_governance(g: GovernanceConfig) -> bool {
    g.mandatory_checks@.len() == 0 && g.mandatory_failure_modes@.len() == 0 && g.min_failure_modes == 8
        && g.config_hash is None
}

impl Default for GovernanceConfig {
    fn default() -> (g: Self)
        ensures
            default_governance(g),
    {
        GovernanceConfig {
            mandatory_checks: Vec::new(),
            mandatory_failure_modes: Vec::new(),
            min_failure_modes: default_min_failure_modes(),
            config_hash: None,
        }
    }
}

/// Where the quality snapshot lives (the scope-narrowing bound is kept beside it).
#[derive(Debug, Clone)]
pub struct BaselineConfig {
    pub snapshot_path: String,
}

pub open spec fn default_snapshot_path_spec() -> Seq<char> {
    ".agents/mcp/compas/baselines/quality_snapshot.json"@
}

pub fn default_snapshot_path() -> (s: String)
    ensures
        s@ == default_snapshot_path_spec(),
{
    String::from_str(".agents/mcp/compas/baselines/quality_snapshot.json")
}

impl Default for BaselineConfig {
    fn default() -> (b: Self)
        ensures
            b.snapshot_path@ == default_snapshot_path_spec(),
    {
        BaselineConfig { snapshot_path: default_snapshot_path() }
    }
}

#[derive(Debug, Clone)]
pub struct ProofConfig {
    pub require_witness: bool,
}

pub fn default_require_witness() -> (b: bool)
    ensures
        b,
{
    true
}

impl Default for ProofConfig {
    fn default() -> (p: Self)
        ensures
            p.require_witness,
    {
        ProofConfig { require_witness: default_require_witness() }
    }
}

/// What a changed path that no impact rule maps gives: nothing, an
/// observation, or a blocking violation.
#[derive(Debug, Clone, Copy, PartialEq, Eq, Structural)]
pub enum ImpactUnmappedPathPolicy {
    Ignore,
    Observe,
    Block,
}

impl Default for ImpactUnmappedPathPolicy {
    fn default() -> (p: Self)
        ensures
            p == ImpactUnmappedPathPolicy::Block,
    {
        ImpactUnmappedPathPolicy::Block
    }
}

#[derive(Debug, Clone)]
pub struct ImpactRule {
    pub id: String,
    pub path_globs: Vec<String>,
    pub required_tools: Vec<String>,
}

#[derive(Debug, Clone)]
pub struct ImpactConfig {
    pub diff_base: String,
    pub unmapped_path_policy: ImpactUnmappedPathPolicy,
    pub rules: Vec<ImpactRule>,
}

pub fn default_impact_diff_base() -> (s: String)
    ensures
        s@ == "merge-base:origin/main"@,
{
    String::from_str("merge-base:origin/main")
}

pub open spec fn default_impact(i: ImpactConfig) -> bool {
    i.diff_base@ == "merge-base:origin/main"@ && i.unmapped_path_policy == ImpactUnmappedPathPolicy::Block
        && i.rules@.len() == 0
}

impl Default for ImpactConfig {
    fn default() -> (i: Self)
        ensures
            default_impact(i),
    {
        ImpactConfig {
            diff_base: default_impact_diff_base(),
            unmapped_path_policy: ImpactUnmappedPathPolicy::default(),
            rules: Vec::new(),
        }
    }
}

} // verus!
