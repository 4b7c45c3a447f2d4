use ai_dx_mcp::api::ViolationTier;
use ai_dx_mcp::config::LocCheckConfigV2;
use ai_dx_mcp::loc::run_loc_check;

fn cfg(max_loc: usize) -> LocCheckConfigV2 {
    LocCheckConfigV2 {
        id: "loc".to_string(),
        max_loc,
        include_globs: vec!["crates/**/*.rs".to_string()],
        exclude_globs: vec![],
        baseline_path: ".agents/mcp/compas/baselines/loc.json".to_string(),
    }
}

fn lib_file() -> Vec<(String, Result<Vec<u8>, String>)> {
    vec![("crates/x/lib.rs".to_string(), Ok(b"fn a() {}\nfn b() {}\n\n".to_vec()))]
}

#[test]
fn loc_marks_over_limit_as_observation() {
    let r = run_loc_check(&cfg(1), &lib_file()).unwrap();
    assert!(r.violations.iter().any(|v| v.code == "loc.max_exceeded"));
    assert!(r.violations.iter().all(|v| v.tier == ViolationTier::Observation));
}

#[test]
fn loc_reports_per_file_map_for_quality_delta() {
    let r = run_loc_check(&cfg(100), &lib_file()).unwrap();
    assert_eq!(r.files_scanned, 1);
    assert_eq!(r.files_universe, 1);
    assert!(r.loc_per_file.iter().any(|(p, _)| p == "crates/x/lib.rs"));
}

#[test]
fn loc_orders_files_and_reports_read_failures_first() {
    let files = vec![
        ("crates/z.rs".to_string(), Ok(b"a\nb\nc\n".to_vec())),
        ("crates/a.rs".to_string(), Ok(b"a\n".to_vec())),
        ("crates/bad.rs".to_string(), Err("denied".to_string())),
        ("docs/x.rs".to_string(), Ok(b"a\nb\nc\nd\n".to_vec())),
    ];
    let r = run_loc_check(&cfg(2), &files).unwrap();
    assert_eq!(r.files_universe, 3);
    assert_eq!(r.loc_per_file, vec![("crates/a.rs".to_string(), 1), ("crates/z.rs".to_string(), 3)]);
    assert_eq!(r.max_loc, 3);
    assert_eq!(r.worst_path.as_deref(), Some("crates/z.rs"));
    let got: Vec<(&str, &str)> = r.violations.iter().map(|v| (v.code.as_str(), v.message.as_str())).collect();
    assert_eq!(
        got,
        vec![
            ("loc.read_failed", "failed to read file for LOC scan: denied"),
            ("loc.max_exceeded", "file exceeds max_loc=2 (loc=3)"),
        ]
    );
}
