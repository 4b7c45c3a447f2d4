//! Verified core of the compas quality gate: violation classification and
//! verdicts, exception handling, CLI parsing, registry helpers and the
//! text analysis used by the repository checks.

pub mod text;
pub mod api;
pub mod judge;
pub mod exceptions;
pub mod csv;
pub mod cli;
pub mod order;
pub mod registry_manifest;
pub mod init;
pub mod plugins;
pub mod archive;
pub mod config;
pub mod gate_runner;
pub mod patterns;
pub mod transport;
pub mod quality_delta;
pub mod env_registry;
pub mod checks;
pub mod failure_modes;
pub mod validate_policy;
pub mod arch_layers;
pub mod evidence;
pub mod layer_graph;
pub mod boundary;
pub mod code_blocks;
pub mod complexity;
pub mod fingerprint;
pub mod reuse_first;
pub mod contract_break;
pub mod dead_api;
pub mod surface;
pub mod duplicates;
pub mod loc;
pub mod supply_chain;
pub mod gate_jobs;
pub mod grouping;
pub mod tool_duplicates;
pub mod validate_flow;
pub mod gate_flow;
pub mod plugin_plans;
pub mod init_apply;
