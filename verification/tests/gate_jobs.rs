use ai_dx_mcp::api::{ApiError, GateJobState, GateOp};
use ai_dx_mcp::gate_jobs::{
    expired_job_error, job_not_found_error, job_setting, new_job_expiry, prune_expired, record_status,
    refresh_stored_job, register_job, status_poll_done, status_wait_budget, validate_gate_status_args, JobRefresh,
    StoredJob,
};

fn strings(xs: &[&str]) -> Vec<String> {
    xs.iter().map(|s| s.to_string()).collect()
}

fn job(state: GateJobState, expires_at_ms: i64, owner_pid: u32) -> StoredJob {
    StoredJob {
        job_id: "gate-1".to_string(),
        state,
        updated_at_ms: 10,
        expires_at_ms,
        owner_pid,
        has_result: true,
        job_error: None,
    }
}

#[test]
fn status_requires_a_job_id() {
    let e = validate_gate_status_args(GateOp::Status, None).unwrap_err();
    assert_eq!(e.code, "gate.job_invalid_op");
    assert_eq!(e.message, "compas.gate op=status requires non-empty job_id");
    assert!(validate_gate_status_args(GateOp::Status, Some("   ")).is_err());
    assert!(validate_gate_status_args(GateOp::Status, Some("gate-1")).is_ok());
    assert!(validate_gate_status_args(GateOp::Run, None).is_ok());
    assert!(validate_gate_status_args(GateOp::Start, Some("")).is_ok());
}

#[test]
fn settings_fall_back_to_the_default() {
    assert_eq!(job_setting(None, 200), 200);
    assert_eq!(job_setting(Some(" 5 "), 200), 5);
    assert_eq!(job_setting(Some("0"), 200), 200);
    assert_eq!(job_setting(Some("five"), 200), 200);
    assert_eq!(job_setting(Some("-3"), 200), 200);
}

#[test]
fn status_wait_is_capped() {
    assert_eq!(status_wait_budget(None, 15_000), 0);
    assert_eq!(status_wait_budget(Some(500), 15_000), 500);
    assert_eq!(status_wait_budget(Some(60_000), 15_000), 15_000);
    assert!(status_poll_done(GateJobState::Succeeded, 0, 1000));
    assert!(status_poll_done(GateJobState::Expired, 0, 1000));
    assert!(!status_poll_done(GateJobState::Running, 999, 1000));
    assert!(status_poll_done(GateJobState::Pending, 1000, 1000));
}

#[test]
fn new_job_expires_after_its_ttl() {
    assert_eq!(new_job_expiry(1_000, 86_400), 86_401_000);
    assert_eq!(new_job_expiry(-5, 0), -5);
}

#[test]
fn registering_moves_the_job_to_the_end() {
    let mut entries = strings(&["a", "b", "c"]);
    let removed = register_job(&mut entries, "b", 3);
    assert_eq!(entries, strings(&["a", "c", "b"]));
    assert!(removed.is_empty());
}

#[test]
fn registering_trims_the_oldest_entries() {
    let mut entries = strings(&["a", "b", "c"]);
    let removed = register_job(&mut entries, "d", 2);
    assert_eq!(removed, strings(&["a", "b"]));
    assert_eq!(entries, strings(&["c", "d"]));
}

#[test]
fn registering_twice_changes_nothing_more() {
    let mut entries = strings(&["a", "b", "c"]);
    register_job(&mut entries, "d", 3);
    let once = entries.clone();
    let removed = register_job(&mut entries, "d", 3);
    assert!(removed.is_empty());
    assert_eq!(entries, once);
}

#[test]
fn pruning_drops_missing_and_expired_records() {
    let entries = strings(&["a", "b", "c", "d"]);
    let expiry = vec![Some(200), None, Some(100), Some(101)];
    assert_eq!(prune_expired(&entries, &expiry, 100), strings(&["a", "d"]));
}

#[test]
fn expired_job_loses_its_result() {
    let mut j = job(GateJobState::Succeeded, 100, 7);
    assert_eq!(refresh_stored_job(&mut j, 100, 7), JobRefresh::Expired);
    assert_eq!(j.state, GateJobState::Expired);
    assert!(!j.has_result);
    let e = j.job_error.unwrap();
    assert_eq!(e.code, "gate.job_expired");
    assert_eq!(e.message, "gate job gate-1 expired");
}

#[test]
fn job_of_another_process_is_interrupted() {
    let mut j = job(GateJobState::Running, 500, 41);
    assert_eq!(refresh_stored_job(&mut j, 100, 7), JobRefresh::Interrupted);
    assert_eq!(j.state, GateJobState::Failed);
    assert_eq!(j.updated_at_ms, 100);
    let e = j.job_error.unwrap();
    assert_eq!(e.code, "gate.runner_interrupted");
    assert_eq!(e.message, "gate job gate-1 was created in another session/process (pid=41)");
}

#[test]
fn finished_or_own_job_is_left_alone() {
    let mut j = job(GateJobState::Succeeded, 500, 41);
    assert_eq!(refresh_stored_job(&mut j, 100, 7), JobRefresh::Current);
    assert_eq!(j.state, GateJobState::Succeeded);
    assert!(j.has_result);
    let mut own = job(GateJobState::Running, 500, 7);
    assert_eq!(refresh_stored_job(&mut own, 100, 7), JobRefresh::Current);
    assert_eq!(own.state, GateJobState::Running);
    let mut again = job(GateJobState::Running, 500, 41);
    refresh_stored_job(&mut again, 100, 7);
    assert_eq!(refresh_stored_job(&mut again, 100, 7), JobRefresh::Current);
    assert_eq!(again.state, GateJobState::Failed);
}

#[test]
fn status_answers_without_a_result() {
    let (ok, e) = record_status(GateJobState::Running, "g", &None);
    assert!(ok);
    assert!(e.is_none());
    let (ok, e) = record_status(GateJobState::Failed, "g", &None);
    assert!(!ok);
    let e = e.unwrap();
    assert_eq!(e.code, "gate.job_failed");
    assert_eq!(e.message, "gate job g failed");
    let own = Some(ApiError { code: "x.y".to_string(), message: "boom".to_string() });
    let (_, e) = record_status(GateJobState::Failed, "g", &own);
    assert_eq!(e.unwrap().message, "boom");
    let (_, e) = record_status(GateJobState::Succeeded, "g", &None);
    assert_eq!(e.unwrap().message, "gate job g has no result payload");
    let (_, e) = record_status(GateJobState::Expired, "g", &None);
    assert_eq!(e.unwrap().code, "gate.job_expired");
    assert_eq!(expired_job_error("g").message, "gate job g expired");
    assert_eq!(job_not_found_error("g").message, "gate job not found: g");
}
