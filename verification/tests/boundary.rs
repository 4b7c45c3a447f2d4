use ai_dx_mcp::api::DetailValue;
use ai_dx_mcp::boundary::{
    brace_delta, line_for_offset, looks_like_rust_mod_decl_with_body, run_boundary_check, strip_rust_cfg_test_modules,
};
use ai_dx_mcp::config::{BoundaryCheckConfigV2, BoundaryRuleConfigV2};

fn rule(id: &str, deny: &str, message: Option<&str>) -> BoundaryRuleConfigV2 {
    BoundaryRuleConfigV2 { id: id.to_string(), message: message.map(|m| m.to_string()), deny_regex: deny.to_string() }
}

fn cfg(strip: bool, rules: Vec<BoundaryRuleConfigV2>) -> BoundaryCheckConfigV2 {
    BoundaryCheckConfigV2 {
        id: "boundary".to_string(),
        include_globs: vec![],
        exclude_globs: vec![],
        strip_rust_cfg_test_blocks: strip,
        rules,
    }
}

fn files(list: &[(&str, Result<&str, &str>)]) -> Vec<(String, Result<String, String>)> {
    list.iter()
        .map(|(p, r)| (p.to_string(), r.map(|s| s.to_string()).map_err(|e| e.to_string())))
        .collect()
}

#[test]
fn boundary_reports_rule_with_line_and_match() {
    let out = run_boundary_check(
        &cfg(false, vec![rule(" no-process ", " std::process ", None)]),
        &files(&[
            ("crates/a/src/lib.rs", Ok("fn a() {}\nuse std::process::Command;\n")),
            ("target/debug/x.rs", Ok("use std::process;")),
            ("README.md", Ok("std::process")),
        ]),
    )
    .unwrap();
    assert_eq!(out.files_scanned, 1);
    assert_eq!(out.rules_checked, 1);
    assert_eq!(out.violations.len(), 1);
    let v = &out.violations[0];
    assert_eq!(v.code, "boundary.rule_violation");
    assert_eq!(v.message, "boundary rule violation (rule_id=no-process)");
    assert_eq!(v.path.as_deref(), Some("crates/a/src/lib.rs"));
    let fields = &v.details.as_ref().unwrap().fields;
    assert!(matches!(&fields[0], (k, DetailValue::Str(id)) if k == "rule_id" && id == "no-process"));
    assert!(matches!(&fields[1], (k, DetailValue::UWide(2)) if k == "line"));
    assert!(matches!(&fields[2], (k, DetailValue::Str(m)) if k == "matched" && m == "std::process"));
}

#[test]
fn boundary_skips_test_modules_when_asked() {
    let text = "fn a() {}\n#[cfg(test)]\nmod tests {\n    use std::process;\n}\n";
    let rules = vec![rule("p", "std::process", Some("no process"))];
    let out = run_boundary_check(&cfg(true, rules.clone()), &files(&[("crates/a/src/lib.rs", Ok(text))])).unwrap();
    assert!(out.violations.is_empty());
    let out = run_boundary_check(&cfg(false, rules), &files(&[("crates/a/src/lib.rs", Ok(text))])).unwrap();
    assert_eq!(out.violations.len(), 1);
    assert_eq!(out.violations[0].message, "no process (rule_id=p)");
    let fields = &out.violations[0].details.as_ref().unwrap().fields;
    assert!(matches!(&fields[1], (k, DetailValue::UWide(4)) if k == "line"));
}

#[test]
fn boundary_reports_read_failures_of_selected_files() {
    let out = run_boundary_check(
        &cfg(false, vec![]),
        &files(&[("crates/a/src/lib.rs", Err("denied")), ("other/x.rs", Err("denied"))]),
    )
    .unwrap();
    assert_eq!(out.files_scanned, 1);
    assert_eq!(out.violations.len(), 1);
    assert_eq!(out.violations[0].code, "boundary.read_failed");
    assert_eq!(out.violations[0].message, "failed to read file for boundary check: denied");
}

#[test]
fn boundary_rejects_bad_configuration() {
    let err = run_boundary_check(&cfg(false, vec![rule("  ", "x", None)]), &vec![]).err().unwrap();
    assert_eq!(err, "boundary rule has empty id");
    let err = run_boundary_check(&cfg(false, vec![rule("r", "(", None)]), &vec![]).err().unwrap();
    assert!(err.starts_with("failed to compile boundary rule regex id=r regex=\"(\": "), "{err}");
    let mut c = cfg(false, vec![]);
    c.include_globs = vec!["a[".to_string()];
    let err = run_boundary_check(&c, &vec![]).err().unwrap();
    assert!(err.starts_with("bad glob \"a[\": "), "{err}");
}

#[test]
fn boundary_text_helpers() {
    assert_eq!(line_for_offset("a\nb\nc", 0), 1);
    assert_eq!(line_for_offset("a\nb\nc", 4), 3);
    assert_eq!(brace_delta("{ { }"), 1);
    assert!(looks_like_rust_mod_decl_with_body("  pub(crate) mod x {"));
    assert!(!looks_like_rust_mod_decl_with_body("mod x;"));
    assert_eq!(
        strip_rust_cfg_test_modules("a\n#[cfg(test)]\n#[allow(x)]\nmod t {\n  f();\n}\nb"),
        "a\n\n\n\n\n\nb"
    );
}
