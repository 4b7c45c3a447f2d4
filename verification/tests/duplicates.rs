use ai_dx_mcp::api::DetailValue;
use ai_dx_mcp::config::DuplicatesCheckConfigV2;
use ai_dx_mcp::duplicates::{run_duplicates_check, FileProbe};

const ABC: &str = "ba7816bf8f01cfea414140de5dae2223b00361a396177a9cb410ff61f20015ad";

fn cfg(allowlist: &[&str]) -> DuplicatesCheckConfigV2 {
    DuplicatesCheckConfigV2 {
        id: "dups".to_string(),
        include_globs: vec![],
        exclude_globs: vec![],
        max_file_bytes: 10,
        allowlist_globs: allowlist.iter().map(|g| g.to_string()).collect(),
        baseline_path: ".agents/mcp/compas/baselines/duplicates.json".to_string(),
    }
}

fn probe(rel: &str, size: Result<u64, &str>, bytes: Result<&[u8], &str>) -> FileProbe {
    FileProbe {
        rel: rel.to_string(),
        size: size.map_err(|e| e.to_string()),
        bytes: bytes.map(|b| b.to_vec()).map_err(|e| e.to_string()),
    }
}

fn walk() -> Vec<FileProbe> {
    vec![
        probe("rd.txt", Ok(1), Err("io")),
        probe("c.txt", Ok(3), Ok(b"xyz")),
        probe("b.txt", Ok(3), Ok(b"abc")),
        probe("target/x.txt", Ok(3), Ok(b"abc")),
        probe("big.bin", Ok(100), Ok(b"abc")),
        probe("err.txt", Err("stat"), Ok(b"abc")),
        probe("a.txt", Ok(3), Ok(b"abc")),
    ]
}

#[test]
fn duplicates_groups_files_by_hash() {
    let out = run_duplicates_check(&cfg(&[]), &walk(), None).unwrap();
    assert_eq!(out.files_universe, 6);
    assert_eq!(out.files_scanned, 3);
    assert_eq!(out.groups_total, 1);
    assert_eq!(out.duplicate_files_total, 2);
    assert_eq!(out.groups, vec![(ABC.to_string(), vec!["a.txt".to_string(), "b.txt".to_string()])]);
    let codes: Vec<&str> = out.violations.iter().map(|v| v.code.as_str()).collect();
    assert_eq!(codes, vec!["duplicates.stat_failed", "duplicates.read_failed", "duplicates.found"]);
    assert_eq!(out.violations[0].message, "failed to stat file for duplicates scan: stat");
    assert_eq!(out.violations[1].message, "failed to read file for duplicates scan: io");
    assert_eq!(out.violations[2].message, "duplicate files found (groups=1, files=2)");
    let fields = &out.violations[2].details.as_ref().unwrap().fields;
    match &fields[2] {
        (k, DetailValue::Groups(examples)) => {
            assert_eq!(k, "examples");
            assert_eq!(examples, &vec![("ba7816bf8f01".to_string(), vec!["a.txt".to_string(), "b.txt".to_string()])]);
        }
        _ => panic!("examples missing"),
    }
}

#[test]
fn duplicates_fully_allowlisted_groups_are_dropped() {
    let out = run_duplicates_check(&cfg(&["*.txt"]), &walk(), None).unwrap();
    assert_eq!(out.groups_total, 0);
    assert_eq!(out.violations.len(), 2);
    let out = run_duplicates_check(&cfg(&["a.txt"]), &walk(), None).unwrap();
    assert_eq!(out.groups_total, 1);
}

#[test]
fn duplicates_reject_bad_globs() {
    let err = run_duplicates_check(&cfg(&["a["]), &walk(), None).err().unwrap();
    assert!(err.starts_with("bad glob \"a[\": "), "{err}");
}

#[test]
fn duplicates_ratchet_flags_new_and_grown_groups() {
    let same = vec![(ABC.to_string(), vec!["a.txt".to_string(), "b.txt".to_string()])];
    let out = run_duplicates_check(&cfg(&[]), &walk(), Some(&same)).unwrap();
    assert!(out.violations.iter().all(|v| v.code != "duplicates.ratchet_regression"));

    let smaller = vec![(ABC.to_string(), vec!["a.txt".to_string()])];
    let out = run_duplicates_check(&cfg(&[]), &walk(), Some(&smaller)).unwrap();
    let last = out.violations.last().unwrap();
    assert_eq!(last.code, "duplicates.ratchet_regression");
    assert_eq!(last.tier, ai_dx_mcp::api::ViolationTier::Blocking);
    assert_eq!(last.message, format!("duplicate group is new or has grown against the baseline: sha256={}", ABC));

    let out = run_duplicates_check(&cfg(&[]), &walk(), Some(&vec![])).unwrap();
    assert_eq!(out.violations.iter().filter(|v| v.code == "duplicates.ratchet_regression").count(), 1);
    assert_eq!(ai_dx_mcp::judge::registry::classify("duplicates.ratchet_regression").1, ai_dx_mcp::api::ViolationTier::Blocking);
    assert_eq!(ai_dx_mcp::judge::registry::classify("env.required_missing").1, ai_dx_mcp::api::ViolationTier::Observation);
}
