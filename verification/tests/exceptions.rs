use ai_dx_mcp::api::Violation;
use ai_dx_mcp::exceptions::{
    allowlist_rel_path, apply_allowlist_entries, has_glob_chars, is_relative_and_safe, normalize_exception_path,
    ExceptionEntry,
};
use chrono::{Datelike, NaiveDate};

fn v(code: &str, path: &str) -> Violation {
    Violation::blocking(code.to_string(), "m".to_string(), Some(path.to_string()), None)
}

fn ex(path: &str, expires: &str) -> ExceptionEntry {
    ExceptionEntry {
        id: "ex-1".to_string(),
        rule: "loc.max_exceeded".to_string(),
        path: path.to_string(),
        owner: "team".to_string(),
        reason: "temporary".to_string(),
        expires_at: Some(expires.to_string()),
    }
}

fn day(y: i32, m: u32, d: u32) -> i32 {
    NaiveDate::from_ymd_opt(y, m, d).unwrap().num_days_from_ce()
}

#[test]
fn allowlist_entries_suppress_matching_violation() {
    let today = day(2026, 1, 1);
    let r = apply_allowlist_entries(vec![v("loc.max_exceeded", "crates/x/lib.rs")], &[ex("crates/x/lib.rs", "2999-01-01")], today, None);
    assert!(r.violations.is_empty());
    assert_eq!(r.suppressed.len(), 1);
    assert_eq!(r.suppressed[0].code, "loc.max_exceeded");
}

#[test]
fn allowlist_entries_expired_do_not_suppress() {
    let today = day(2026, 1, 1);
    let r = apply_allowlist_entries(vec![v("loc.max_exceeded", "crates/x/lib.rs")], &[ex("crates/x/lib.rs", "2000-01-01")], today, None);
    assert!(r.suppressed.is_empty());
    assert!(r.violations.iter().any(|v| v.code == "exception.expired"));
    assert!(r.violations.iter().any(|v| v.code == "loc.max_exceeded"));
}

#[test]
fn allowlist_entries_with_globs_fail_closed() {
    let today = day(2026, 1, 1);
    let r = apply_allowlist_entries(vec![v("loc.max_exceeded", "crates/x/lib.rs")], &[ex("crates/*/lib.rs", "2999-01-01")], today, None);
    assert!(r.suppressed.is_empty());
    assert_eq!(r.violations[0].code, "exception.allowlist_invalid");
    assert!(r.violations.iter().any(|v| v.code == "loc.max_exceeded"));
}

#[test]
fn allowlist_entries_beyond_the_window_do_not_suppress() {
    let today = day(2026, 1, 1);
    let r = apply_allowlist_entries(vec![v("loc.max_exceeded", "crates/x/lib.rs")], &[ex("crates/x/lib.rs", "2999-01-01")], today, Some(90));
    assert!(r.suppressed.is_empty());
    assert!(r.violations.iter().any(|v| v.code == "exception.window_exceeded"));
}

#[test]
fn allowlist_entries_with_bad_dates_fail_closed() {
    let today = day(2026, 1, 1);
    let r = apply_allowlist_entries(vec![v("loc.max_exceeded", "a.rs")], &[ex("a.rs", "2026-13-01")], today, None);
    assert!(r.suppressed.is_empty());
    assert_eq!(r.violations[0].code, "exception.allowlist_invalid");
    assert_eq!(r.violations.len(), 2);
}

#[test]
fn exception_paths() {
    assert_eq!(allowlist_rel_path(), ".agents/mcp/compas/allowlist.toml");
    assert_eq!(normalize_exception_path("./a\\b.rs"), "a/b.rs");
    assert!(has_glob_chars("a/*.rs"));
    assert!(!has_glob_chars("a/b.rs"));
    assert!(is_relative_and_safe("a/b.rs"));
    assert!(!is_relative_and_safe("../a"));
    assert!(!is_relative_and_safe("/a"));
}

#[test]
fn allowlist_invalid_expiry_is_debug_quoted() {
    let r = apply_allowlist_entries(vec![], &[ex("a.rs", "2026-1\"3")], day(2026, 1, 1), None);
    assert_eq!(r.violations.len(), 1);
    assert!(
        r.violations[0].message.starts_with("exception id=ex-1 has invalid expires_at=\"2026-1\\\"3\": "),
        "{}",
        r.violations[0].message
    );
}
