use ai_dx_mcp::api::ViolationTier;
use ai_dx_mcp::config::{SurfaceCheckConfigV2, SurfaceRuleConfigV2};
use ai_dx_mcp::surface::run_surface_check;

fn rule(regex: &str, description: Option<&str>, file_globs: &[&str]) -> SurfaceRuleConfigV2 {
    SurfaceRuleConfigV2 {
        file_globs: file_globs.iter().map(|g| g.to_string()).collect(),
        regex: regex.to_string(),
        description: description.map(|d| d.to_string()),
    }
}

fn cfg(max_items: usize, rules: Vec<SurfaceRuleConfigV2>) -> SurfaceCheckConfigV2 {
    SurfaceCheckConfigV2 {
        id: "s".to_string(),
        max_items,
        include_globs: vec![],
        exclude_globs: vec![],
        rules,
        baseline_path: ".agents/mcp/compas/baselines/surface.json".to_string(),
    }
}

fn files(list: &[(&str, Result<&str, &str>)]) -> Vec<(String, Result<String, String>)> {
    list.iter()
        .map(|(p, r)| (p.to_string(), r.map(|s| s.to_string()).map_err(|e| e.to_string())))
        .collect()
}

#[test]
fn surface_collects_items_and_reports_over_limit() {
    let out = run_surface_check(
        &cfg(1, vec![rule(r"^pub fn (\w+)", Some(" fn "), &[])]),
        &files(&[
            ("crates/a/src/lib.rs", Ok("pub fn beta() {}\n  pub fn alpha();\nfn x() {}\npub fn beta() {}\n")),
            ("docs/readme.rs", Ok("pub fn ignored() {}")),
        ]),
        None,
    )
    .unwrap();
    assert_eq!(out.files_universe, 1);
    assert_eq!(out.files_scanned, 1);
    assert_eq!(
        out.current_items,
        vec!["crates/a/src/lib.rs::fn:alpha".to_string(), "crates/a/src/lib.rs::fn:beta".to_string()]
    );
    assert_eq!(out.items_total, 2);
    assert_eq!(out.max_items, 1);
    assert_eq!(out.violations.len(), 1);
    assert_eq!(out.violations[0].code, "public_surface.max_exceeded");
    assert_eq!(out.violations[0].message, "surface exceeds max_items=1 (current=2)");
    assert_eq!(out.violations[0].tier, ViolationTier::Observation);
}

#[test]
fn surface_values_fall_back_to_whole_match_without_semicolons() {
    let out = run_surface_check(
        &cfg(10, vec![rule(r"^use [a-z:]+;+", None, &["**/*.rs"])]),
        &files(&[("crates/a/src/lib.rs", Ok("use std::io;;\n"))]),
        None,
    )
    .unwrap();
    assert_eq!(out.current_items, vec!["crates/a/src/lib.rs::rule0:use std::io".to_string()]);
    assert!(out.violations.is_empty());
    let out = run_surface_check(
        &cfg(10, vec![rule(r"^use [a-z:]+;+", None, &["other/**"])]),
        &files(&[("crates/a/src/lib.rs", Ok("use std::io;;\n"))]),
        None,
    )
    .unwrap();
    assert!(out.current_items.is_empty());
}

#[test]
fn surface_errors() {
    let err = run_surface_check(&cfg(1, vec![]), &vec![], None).err().unwrap();
    assert_eq!(err, "surface rules are required (id=s); add checks.surface.rules");
    let err = run_surface_check(&cfg(1, vec![rule("(", None, &[])]), &vec![], None).err().unwrap();
    assert!(err.starts_with("bad surface rule regex: "), "{err}");
    let err = run_surface_check(
        &cfg(1, vec![rule("x", None, &[])]),
        &files(&[("crates/a.rs", Err("denied")), ("crates/b.rs", Err("also"))]),
        None,
    )
    .err()
    .unwrap();
    assert_eq!(err, "failed to read crates/a.rs for surface scan: denied");
}

#[test]
fn surface_ratchet_flags_new_items() {
    let baseline = vec!["crates/a/src/lib.rs::fn:alpha".to_string()];
    let out = run_surface_check(
        &cfg(10, vec![rule(r"^pub fn (\w+)", Some(" fn "), &[])]),
        &files(&[("crates/a/src/lib.rs", Ok("pub fn beta() {}\npub fn alpha();\n"))]),
        Some(&baseline),
    )
    .unwrap();
    assert_eq!(out.violations.len(), 1);
    assert_eq!(out.violations[0].code, "public_surface.ratchet_regression");
    assert_eq!(out.violations[0].message, "new public item vs baseline: crates/a/src/lib.rs::fn:beta");
    assert_eq!(out.violations[0].tier, ViolationTier::Blocking);
}

#[test]
fn surface_codes_are_classified() {
    assert_eq!(ai_dx_mcp::judge::registry::classify("public_surface.ratchet_regression").1, ViolationTier::Blocking);
    assert_eq!(ai_dx_mcp::judge::registry::classify("public_surface.max_exceeded").1, ViolationTier::Observation);
}
