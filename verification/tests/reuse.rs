use ai_dx_mcp::api::DetailValue;
use ai_dx_mcp::config::ReuseFirstCheckConfigV2;
use ai_dx_mcp::fingerprint::sha256_hex;
use ai_dx_mcp::reuse_first::{extract_blocks_for_file, normalize_block, run_reuse_first_check, strip_inline_comments};

fn cfg(min_block_lines: usize) -> ReuseFirstCheckConfigV2 {
    ReuseFirstCheckConfigV2 {
        id: "reuse".to_string(),
        include_globs: vec!["src/**/*.rs".to_string()],
        exclude_globs: vec![],
        min_block_lines,
    }
}

const A: &str = r#"
pub fn normalize(v: &str) -> String {
    let x = v.trim();
    if x.is_empty() { return String::new(); }
    x.to_ascii_lowercase()
}
"#;

const B: &str = r#"
pub fn normalize_copy(v: &str) -> String {
    let x = v.trim();
    if x.is_empty() { return String::new(); }
    x.to_ascii_lowercase()
}
"#;

#[test]
fn detects_exact_duplicate_blocks() {
    let out = run_reuse_first_check(
        &cfg(3),
        Ok(vec![
            ("src/a.rs".to_string(), Ok(A.to_string())),
            ("src/b.rs".to_string(), Ok(B.to_string())),
        ]),
    );
    assert!(out
        .violations
        .iter()
        .any(|v| v.code == "reuse_first.exact_duplicate"));
}

#[test]
fn reuse_reports_the_duplicate_group_in_full() {
    let out = run_reuse_first_check(
        &cfg(3),
        Ok(vec![
            ("src/a.rs".to_string(), Ok(A.to_string())),
            ("src/b.rs".to_string(), Ok(B.to_string())),
        ]),
    );
    assert_eq!(out.scanned_blocks, 2);
    assert_eq!(out.violations.len(), 1);
    let v = &out.violations[0];
    assert_eq!(v.message, "detected duplicate implementation blocks across 2 files");
    assert_eq!(v.path, None);
    let fields = &v.details.as_ref().unwrap().fields;
    let norm = normalize_block(&A.lines().skip(1).take(5).map(|l| l.to_string()).collect::<Vec<_>>());
    assert!(matches!(&fields[1], (k, DetailValue::Str(fp)) if k == "fingerprint" && *fp == sha256_hex(&norm)));
    match &fields[2] {
        (k, DetailValue::StrList(blocks)) => {
            assert_eq!(k, "blocks");
            assert_eq!(blocks, &vec!["src/a.rs:2:normalize".to_string(), "src/b.rs:2:normalize_copy".to_string()]);
        }
        _ => panic!("blocks field missing"),
    }
}

#[test]
fn reuse_ignores_repeats_within_one_file() {
    let text = format!("{A}{B}");
    let out = run_reuse_first_check(&cfg(3), Ok(vec![("src/a.rs".to_string(), Ok(text))]));
    assert_eq!(out.scanned_blocks, 2);
    assert!(out.violations.is_empty());
}

#[test]
fn reuse_skips_short_blocks() {
    let blocks = extract_blocks_for_file("src/a.rs", A, 6);
    assert!(blocks.is_empty());
    let blocks = extract_blocks_for_file("src/a.rs", "fn f() { 1 }\n", 1);
    assert!(blocks.is_empty());
    let blocks = extract_blocks_for_file("src/a.rs", A, 5);
    assert_eq!(blocks.len(), 1);
    assert_eq!(blocks[0].start_line, 2);
    assert_eq!(blocks[0].symbol, "normalize");
}

#[test]
fn reuse_normalizes_case_names_comments_and_space() {
    let lines = vec![
        "pub fn Foo(x) { // c".to_string(),
        "  return X # y".to_string(),
        "}".to_string(),
    ];
    assert_eq!(normalize_block(&lines), "pubfn_(x){returnx}");
    let cs: Vec<char> = "a // b # c".chars().collect();
    assert_eq!(strip_inline_comments(&cs).into_iter().collect::<String>(), "a ");
    let cs: Vec<char> = "a # c".chars().collect();
    assert_eq!(strip_inline_comments(&cs).into_iter().collect::<String>(), "a ");
}

#[test]
fn reuse_reports_selection_and_read_failures() {
    let out = run_reuse_first_check(&cfg(3), Err("bad glob".to_string()));
    assert_eq!(out.scanned_blocks, 0);
    assert_eq!(out.violations[0].code, "reuse_first.check_failed");
    assert_eq!(out.violations[0].message, "reuse_first check failed (id=reuse): bad glob");
    let out = run_reuse_first_check(&cfg(3), Ok(vec![("src/a.rs".to_string(), Err("gone".to_string()))]));
    assert_eq!(out.violations.len(), 1);
    assert_eq!(out.violations[0].code, "reuse_first.read_failed");
    assert_eq!(out.violations[0].message, "failed to read src/a.rs: gone");
}

#[test]
fn fingerprint_is_sha256_in_lowercase_hex() {
    assert_eq!(
        sha256_hex("abc"),
        "ba7816bf8f01cfea414140de5dae2223b00361a396177a9cb410ff61f20015ad"
    );
}
