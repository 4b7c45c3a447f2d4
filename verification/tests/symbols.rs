use ai_dx_mcp::api::{DetailValue, ViolationTier};
use ai_dx_mcp::config::{ContractBreakCheckConfigV2, DeadCodeCheckConfigV2, OrphanApiCheckConfigV2};
use ai_dx_mcp::contract_break::{parse_public_symbols, run_contract_break_check, ContractBaseline};
use ai_dx_mcp::dead_api::{parse_symbols, run_dead_code_check, run_orphan_api_check};

fn contract_cfg(allow_additions: bool) -> ContractBreakCheckConfigV2 {
    ContractBreakCheckConfigV2 {
        id: "contract".to_string(),
        include_globs: vec!["src/**/*.rs".to_string()],
        exclude_globs: vec![],
        baseline_path: ".agents/mcp/compas/baselines/contracts.json".to_string(),
        allow_additions,
    }
}

fn one_file(rel: &str, text: &str) -> Result<Vec<(String, Result<String, String>)>, String> {
    Ok(vec![(rel.to_string(), Ok(text.to_string()))])
}

#[test]
fn detects_removed_symbol_vs_baseline() {
    let out = run_contract_break_check(
        &contract_cfg(true),
        one_file("src/lib.rs", "pub fn still_here() {}\n"),
        ContractBaseline::Loaded(vec!["still_here".to_string(), "removed_api".to_string()]),
    );
    assert!(out
        .violations
        .iter()
        .any(|v| v.code == "contract_break.removed_symbol"));
}

#[test]
fn contract_reports_removals_then_forbidden_additions_in_order() {
    let text = "pub fn zeta() {}\npub struct Alpha;\nfn private() {}\npub fn zeta() {}\n";
    let out = run_contract_break_check(
        &contract_cfg(false),
        one_file("src/lib.rs", text),
        ContractBaseline::Loaded(vec!["gone_b".to_string(), "gone_a".to_string(), "zeta".to_string()]),
    );
    assert_eq!(out.symbols_total, 2);
    let got: Vec<(&str, &str)> = out.violations.iter().map(|v| (v.code.as_str(), v.message.as_str())).collect();
    assert_eq!(
        got,
        vec![
            ("contract_break.removed_symbol", "breaking change detected: removed public symbol gone_a"),
            ("contract_break.removed_symbol", "breaking change detected: removed public symbol gone_b"),
            ("contract_break.added_symbol", "public contract addition not allowed by policy: Alpha"),
        ]
    );
    assert_eq!(out.violations[0].path.as_deref(), Some(".agents/mcp/compas/baselines/contracts.json"));
}

#[test]
fn contract_baseline_missing_or_invalid() {
    let out = run_contract_break_check(&contract_cfg(true), one_file("src/lib.rs", "pub fn a() {}\n"), ContractBaseline::Missing);
    assert_eq!(out.violations.len(), 1);
    assert_eq!(out.violations[0].code, "contract_break.baseline_missing");
    assert_eq!(
        out.violations[0].message,
        "contract baseline is missing; create baseline before enabling strict compatibility gate"
    );
    let out = run_contract_break_check(
        &contract_cfg(true),
        one_file("src/lib.rs", "pub fn a() {}\n"),
        ContractBaseline::Invalid("bad json".to_string()),
    );
    assert_eq!(out.violations[0].code, "contract_break.baseline_invalid");
    assert_eq!(out.violations[0].message, "bad json");
    let out = run_contract_break_check(&contract_cfg(true), Err("no walk".to_string()), ContractBaseline::Missing);
    assert_eq!(out.violations.len(), 1);
    assert_eq!(out.violations[0].message, "contract_break check failed (id=contract): no walk");
}

#[test]
fn public_symbols_by_language() {
    assert_eq!(
        parse_public_symbols("src/lib.rs", "pub async fn go() {}\n  pub mod m {}\nfn hidden() {}\n"),
        vec!["go".to_string(), "m".to_string()]
    );
    assert_eq!(
        parse_public_symbols("web/a.ts", "export interface Shape {}\nexport const x = 1;\n"),
        vec!["Shape".to_string(), "x".to_string()]
    );
    assert_eq!(
        parse_public_symbols("tool.py", "def run(x):\ndef _private():\n"),
        vec!["run".to_string()]
    );
    assert!(parse_public_symbols("tool.rb", "def run(x):\n").is_empty());
}

#[test]
fn dead_code_detects_private_unused() {
    let out = run_dead_code_check(
        &DeadCodeCheckConfigV2 {
            id: "dead".to_string(),
            include_globs: vec!["src/**/*.rs".to_string()],
            exclude_globs: vec![],
            min_symbol_len: 3,
            blocking: false,
        },
        one_file("src/lib.rs", "\nfn helper_unused() -> i32 { 1 }\npub fn api() -> i32 { 2 }\n"),
    );
    assert!(out
        .violations
        .iter()
        .any(|v| v.code == "dead_code.unused_symbol"));
}

#[test]
fn orphan_api_detects_public_unused() {
    let out = run_orphan_api_check(
        &OrphanApiCheckConfigV2 {
            id: "orphan".to_string(),
            include_globs: vec!["src/**/*.rs".to_string()],
            exclude_globs: vec![],
            min_symbol_len: 3,
            blocking: false,
        },
        one_file("src/lib.rs", "\npub fn api_orphan() -> i32 { 1 }\n"),
    );
    assert!(out
        .violations
        .iter()
        .any(|v| v.code == "orphan_api.unused_public_symbol"));
}

#[test]
fn dead_code_counts_uses_across_files_exactly() {
    let files = Ok(vec![
        ("src/a.rs".to_string(), Ok("fn used_here() {}\nfn lonely() {}\nfn ab() {}\n".to_string())),
        ("src/b.rs".to_string(), Ok("fn main() { used_here(); }\n".to_string())),
        ("notes.txt".to_string(), Ok("lonely lonely".to_string())),
    ]);
    let out = run_dead_code_check(
        &DeadCodeCheckConfigV2 {
            id: "dead".to_string(),
            include_globs: vec![],
            exclude_globs: vec![],
            min_symbol_len: 3,
            blocking: true,
        },
        files,
    );
    assert_eq!(out.symbols_scanned, 4);
    let names: Vec<&str> = out.violations.iter().map(|v| v.message.as_str()).collect();
    assert_eq!(
        names,
        vec!["private symbol appears unused: lonely", "private symbol appears unused: main"]
    );
    assert_eq!(out.violations[0].tier, ViolationTier::Blocking);
    assert_eq!(out.violations[0].path.as_deref(), Some("src/a.rs"));
    let fields = &out.violations[0].details.as_ref().unwrap().fields;
    assert!(matches!(&fields[2], (k, DetailValue::UInt(2)) if k == "line"));
    assert!(matches!(&fields[3], (k, DetailValue::UWide(1)) if k == "usage_count"));
}

#[test]
fn symbol_checks_fail_on_the_first_read_error() {
    let files = Ok(vec![
        ("src/a.rs".to_string(), Err("denied".to_string())),
        ("src/b.rs".to_string(), Err("also".to_string())),
    ]);
    let out = run_orphan_api_check(
        &OrphanApiCheckConfigV2 {
            id: "orphan".to_string(),
            include_globs: vec![],
            exclude_globs: vec![],
            min_symbol_len: 3,
            blocking: false,
        },
        files,
    );
    assert_eq!(out.symbols_scanned, 0);
    assert_eq!(out.violations.len(), 1);
    assert_eq!(out.violations[0].code, "orphan_api.check_failed");
    assert_eq!(
        out.violations[0].message,
        "orphan_api check failed (id=orphan): failed to read code file src/a.rs: denied"
    );
}

#[test]
fn declarations_by_pattern() {
    let syms = parse_symbols(
        "x.js",
        "export function shown(a) {\nconst inner = async (b) => b;\ndef py_style(x):\npub enum Kind {}\n",
    );
    let got: Vec<(String, usize, bool)> = syms.into_iter().map(|s| (s.name, s.line, s.public)).collect();
    assert_eq!(
        got,
        vec![
            ("shown".to_string(), 1, true),
            ("inner".to_string(), 2, false),
            ("py_style".to_string(), 3, false),
            ("Kind".to_string(), 4, true),
        ]
    );
}
