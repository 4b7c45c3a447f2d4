# compas — verified core

`compas` is a quality gate for repositories that AI agents work in. It
validates a repository against its checks (lines of code, boundary rules,
public surface, duplicate files, supply chain, tool budgets, environment
registry, architecture layers, complexity, reuse, contracts), applies a
time-boxed exception allowlist, judges the result, and runs gate sequences
of project tools with receipts.

This crate is the verified core of that tool, written in Verus. The
public functions in `src/` carry `requires`/`ensures` contracts that
Verus proves (a few small private helpers have none, and the wrappers
around outside crates state contracts that Verus takes on trust); the laws of the library (for example that observations never block
a decision, that the allowlist partitions its input, that a loaded gate job
is settled, that a finished gate runs no further tool) are public proof
functions.

## Layout

- `src/` — the library:
  - decisions: `judge` (violation classes and verdicts), `exceptions`
    (allowlist), `validate_policy` and `validate_flow` (the outcome of
    `validate`), `gate_runner` and `gate_flow` (a gate run as a state
    machine), `gate_jobs` (background gate jobs), `evidence` (evidence
    envelopes);
  - checks: `loc`, `boundary`, `surface`, `duplicates`, `supply_chain`,
    `checks` (tool budget, layers), `arch_layers`, `layer_graph`,
    `complexity`, `reuse_first`, `contract_break`, `dead_api`,
    `env_registry`, `quality_delta`, `tool_duplicates`;
  - plugins: `registry_manifest`, `plugins`, `plugin_plans` (install and
    uninstall decisions), `archive` (archive entry rules), `init`, `init_apply` (the checks of an init plan);
  - support: `text`, `order`, `grouping`, `csv`, `patterns` (regex and glob
    calls), `fingerprint` (SHA-256), `transport` (MCP framing), `cli`,
    `config`, `api`.
- `tests/` — tests run against the compiled library.
- `app/` — the command-line program: file and process I/O around the
  library.

The outside crates `regex`, `globset`, `sha2`, `chrono` and `serde_json`
are called from `src/` through small wrappers whose contracts are stated
next to them.
