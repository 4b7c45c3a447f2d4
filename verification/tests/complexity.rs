use ai_dx_mcp::api::DetailValue;
use ai_dx_mcp::code_blocks::{lines_of, parse_symbol, parse_symbol_from_line};
use ai_dx_mcp::complexity::{cognitive, cyclomatic, extract_functions, run_complexity_budget_check};
use ai_dx_mcp::config::ComplexityBudgetCheckConfigV2;

fn cfg(max_lines: usize, max_cyc: usize, max_cog: usize) -> ComplexityBudgetCheckConfigV2 {
    ComplexityBudgetCheckConfigV2 {
        id: "cx".to_string(),
        include_globs: vec!["src/**/*.rs".to_string()],
        exclude_globs: vec![],
        max_function_lines: max_lines,
        max_cyclomatic: max_cyc,
        max_cognitive: max_cog,
    }
}

const BIG: &str = r#"
pub fn big(x: i32) -> i32 {
    if x > 0 { if x > 1 { if x > 2 { if x > 3 { return x; }}}}
    for _i in 0..10 { if x > 5 { return x; } }
    x
}
"#;

#[test]
fn detects_over_complex_function() {
    let out = run_complexity_budget_check(
        &cfg(3, 2, 2),
        Ok(vec![("src/lib.rs".to_string(), Ok(BIG.to_string()))]),
    );
    assert!(out
        .violations
        .iter()
        .any(|v| v.code == "complexity_budget.threshold_exceeded"));
}

#[test]
fn complexity_measures_the_big_function_exactly() {
    let fns = extract_functions("src/lib.rs", BIG);
    assert_eq!(fns.len(), 1);
    assert_eq!(fns[0].start_line, 2);
    assert_eq!(fns[0].symbol, "big");
    assert_eq!(fns[0].lines.len(), 5);
    assert_eq!(cyclomatic(&fns[0].lines), 4);
    assert_eq!(cognitive(&fns[0].lines, false), 10);
    let out = run_complexity_budget_check(
        &cfg(3, 2, 2),
        Ok(vec![("src/lib.rs".to_string(), Ok(BIG.to_string()))]),
    );
    assert_eq!(out.scanned_functions, 1);
    assert_eq!(out.violations.len(), 1);
    let v = &out.violations[0];
    assert_eq!(
        v.message,
        "function big exceeds complexity budget (lines=5, cyclomatic=4, cognitive=10)"
    );
    assert_eq!(v.path.as_deref(), Some("src/lib.rs"));
    let fields = &v.details.as_ref().unwrap().fields;
    assert!(matches!(&fields[4], (k, DetailValue::UWide(4)) if k == "cyclomatic"));
    assert!(matches!(&fields[5], (k, DetailValue::UWide(10)) if k == "cognitive"));
}

#[test]
fn complexity_within_budget_reports_nothing() {
    let out = run_complexity_budget_check(
        &cfg(10, 10, 20),
        Ok(vec![("src/lib.rs".to_string(), Ok(BIG.to_string()))]),
    );
    assert_eq!(out.scanned_functions, 1);
    assert!(out.violations.is_empty());
}

#[test]
fn complexity_counts_boolean_operators_and_question_marks() {
    let text = "fn m() {\n    let a = x && y && z || w?;\n}\n";
    let fns = extract_functions("src/m.rs", text);
    assert_eq!(fns.len(), 1);
    assert_eq!(cyclomatic(&fns[0].lines), 5);
    assert_eq!(cognitive(&fns[0].lines, false), 1);
    let out = run_complexity_budget_check(&cfg(100, 4, 100), Ok(vec![("src/m.rs".to_string(), Ok(text.to_string()))]));
    assert_eq!(out.violations.len(), 1);
    assert_eq!(
        out.violations[0].message,
        "function m exceeds complexity budget (lines=3, cyclomatic=5, cognitive=1)"
    );
}

#[test]
fn complexity_python_blocks_end_at_dedent() {
    let text = "def f(x):\n    if x:\n        return 1\n    return 2\n\ndef g():\n    pass\n";
    let fns = extract_functions("a.py", text);
    assert_eq!(fns.len(), 2);
    assert_eq!((fns[0].start_line, fns[0].lines.len(), fns[0].symbol.as_str()), (1, 5, "f"));
    assert_eq!((fns[1].start_line, fns[1].lines.len(), fns[1].symbol.as_str()), (6, 2, "g"));
    assert_eq!(cyclomatic(&fns[0].lines), 2);
    assert_eq!(cognitive(&fns[0].lines, true), 1);
    let out = run_complexity_budget_check(&cfg(4, 10, 10), Ok(vec![("a.py".to_string(), Ok(text.to_string()))]));
    assert_eq!(out.scanned_functions, 2);
    assert_eq!(out.violations.len(), 1);
    assert_eq!(
        out.violations[0].message,
        "function f exceeds complexity budget (lines=5, cyclomatic=2, cognitive=1)"
    );
}

#[test]
fn complexity_reports_selection_and_read_failures() {
    let out = run_complexity_budget_check(&cfg(1, 1, 1), Err("walk failed".to_string()));
    assert_eq!(out.scanned_functions, 0);
    assert_eq!(out.violations.len(), 1);
    assert_eq!(out.violations[0].code, "complexity_budget.check_failed");
    assert_eq!(out.violations[0].message, "complexity_budget check failed (id=cx): walk failed");

    let out = run_complexity_budget_check(
        &cfg(100, 100, 100),
        Ok(vec![
            ("README.md".to_string(), Err("denied".to_string())),
            ("src/x.rs".to_string(), Err("denied".to_string())),
        ]),
    );
    assert_eq!(out.violations.len(), 1);
    assert_eq!(out.violations[0].code, "complexity_budget.read_failed");
    assert_eq!(out.violations[0].message, "failed to read src/x.rs: denied");
    assert_eq!(out.violations[0].path.as_deref(), Some("src/x.rs"));
}

#[test]
fn lines_follow_str_lines() {
    assert_eq!(lines_of("a\r\nb\n\nc\r"), vec!["a", "b", "", "c\r"]);
    assert_eq!(lines_of(""), Vec::<String>::new());
    assert_eq!(lines_of("x\n"), vec!["x"]);
}

#[test]
fn symbols_come_from_the_first_matching_pattern() {
    assert_eq!(parse_symbol("pub fn alpha(x: u8)"), "alpha");
    assert_eq!(parse_symbol("def beta():"), "beta");
    assert_eq!(parse_symbol("{ }"), "anonymous");
    assert_eq!(parse_symbol_from_line("function gamma() {"), Some("gamma".to_string()));
    assert_eq!(parse_symbol_from_line("const x = () => 1"), None);
}
