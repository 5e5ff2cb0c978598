use pr_monitor::record::MonitorLogEntry;
use pr_monitor::registry::ProcessRegistry;
use pr_monitor::status::{ExitReason, MonitorError, MonitorStatus};
use pr_monitor::store::MonitorLog;
use pr_monitor::supervisor::{StopOrigin, Supervisor};

const NOW: &str = "2026-01-05T10:00:00+00:00";
const LATER: &str = "2026-01-05T10:05:00+00:00";

fn start(sup: &mut Supervisor, pr_id: &str, number: i32, repo: &str) -> pr_monitor::record::Monitor {
    sup.start_monitor(
        pr_id.to_string(),
        number,
        repo.to_string(),
        Some(3),
        Some(1),
        format!("/tmp/monitor-{}.log", number),
    )
    .expect("start should succeed for a fresh subject")
}

#[test]
fn test_process_registry_new() {
    let registry = ProcessRegistry::new();
    assert!(!registry.is_running("nonexistent"));
}

#[test]
fn start_returns_running_monitor_at_iteration_zero() {
    let mut sup = Supervisor::new();
    let m = start(&mut sup, "acme/widgets#42", 42, "acme/widgets");
    assert_eq!(m.status, MonitorStatus::Running);
    assert_eq!(m.iteration, 0);
    assert_eq!(m.pr_id, "acme/widgets#42");
    assert_eq!(m.repo, "acme/widgets");
    assert_eq!(m.max_iterations, 3);
    assert_eq!(m.interval_minutes, 1);
    assert_eq!(m.comments_fixed, 0);
    assert!(m.pid.is_none());
    assert!(m.exit_reason.is_none());
    // The generated identifier is always 36 characters.
    assert_eq!(m.id.len(), 36);
}

#[test]
fn second_start_for_same_subject_is_a_conflict() {
    let mut sup = Supervisor::new();
    let _m = start(&mut sup, "acme/widgets#42", 42, "acme/widgets");
    let second = sup.start_monitor(
        "acme/widgets#42".to_string(),
        42,
        "acme/widgets".to_string(),
        Some(3),
        Some(1),
        "/tmp/other.log".to_string(),
    );
    assert_eq!(second.unwrap_err(), MonitorError::AlreadyActive);
    assert_eq!(sup.get_active_monitor_count(), 1);
}

#[test]
fn start_defaults_are_ten_iterations_and_fifteen_minutes() {
    let mut sup = Supervisor::new();
    let m = sup
        .start_monitor(
            "acme/widgets#7".to_string(),
            7,
            "acme/widgets".to_string(),
            None,
            None,
            "/tmp/seven.log".to_string(),
        )
        .unwrap();
    assert_eq!(m.max_iterations, 10);
    assert_eq!(m.interval_minutes, 15);
}

#[test]
fn duplicate_id_is_refused_as_store_error() {
    let mut sup = Supervisor::new();
    let first = sup
        .start_monitor_internal(
            "id-1".to_string(),
            "acme/widgets#1".to_string(),
            1,
            "acme/widgets".to_string(),
            3,
            1,
            NOW.to_string(),
            LATER.to_string(),
            "/tmp/a.log".to_string(),
        )
        .unwrap();
    assert_eq!(first.id, "id-1");
    // Finish the first so the subject is free but the id is taken.
    sup.fail_monitor("id-1", ExitReason::ProcessExited, LATER).unwrap();
    let again = sup.start_monitor_internal(
        "id-1".to_string(),
        "acme/widgets#2".to_string(),
        2,
        "acme/widgets".to_string(),
        3,
        1,
        NOW.to_string(),
        LATER.to_string(),
        "/tmp/b.log".to_string(),
    );
    assert_eq!(again.unwrap_err(), MonitorError::StoreError);
}

#[test]
fn attach_process_registers_handle_and_pid() {
    let mut sup = Supervisor::new();
    let m = start(&mut sup, "acme/widgets#42", 42, "acme/widgets");
    assert!(!sup.is_running(&m.id));
    sup.attach_process(&m.id, 4242).unwrap();
    assert!(sup.is_running(&m.id));
    assert_eq!(sup.get_pid(&m.id), Some(4242));
    let fetched = sup.get_monitor(&m.id).unwrap();
    assert_eq!(fetched.pid, Some(4242));
    assert_eq!(fetched.status, MonitorStatus::Running);
}

#[test]
fn spawn_failure_rolls_the_record_back_to_failed() {
    let mut sup = Supervisor::new();
    let m = start(&mut sup, "acme/widgets#42", 42, "acme/widgets");
    sup.spawn_failed(&m.id, LATER).unwrap();
    let fetched = sup.get_monitor(&m.id).unwrap();
    assert_eq!(fetched.status, MonitorStatus::Failed);
    assert_eq!(fetched.exit_reason, Some(ExitReason::SpawnFailed));
    assert_eq!(fetched.ended_at.as_deref(), Some(LATER));
    assert_eq!(sup.get_active_monitor_count(), 0);
    // The subject is free again.
    let again = start(&mut sup, "acme/widgets#42", 42, "acme/widgets");
    assert_eq!(again.status, MonitorStatus::Running);
}

#[test]
fn stop_kills_the_process_and_stops_the_record() {
    let mut sup = Supervisor::new();
    let m = start(&mut sup, "acme/widgets#42", 42, "acme/widgets");
    sup.attach_process(&m.id, 555).unwrap();
    assert_eq!(sup.state_change_payload().active_count, 1);
    let (stopped, killed) = sup.stop_monitor(&m.id, StopOrigin::User, LATER).unwrap();
    assert_eq!(killed, Some(555));
    assert_eq!(stopped.status, MonitorStatus::Stopped);
    assert_eq!(stopped.exit_reason, Some(ExitReason::UserStopped));
    assert_eq!(stopped.pid, None);
    assert!(!sup.is_running(&m.id));
    // The state-changed event reflects the decremented active count.
    assert_eq!(sup.state_change_payload().active_count, 0);
}

#[test]
fn stop_is_idempotent_and_second_stop_kills_nothing() {
    let mut sup = Supervisor::new();
    let m = start(&mut sup, "acme/widgets#42", 42, "acme/widgets");
    sup.attach_process(&m.id, 555).unwrap();
    let (first, killed_first) = sup.stop_monitor(&m.id, StopOrigin::User, LATER).unwrap();
    assert_eq!(first.status, MonitorStatus::Stopped);
    assert_eq!(killed_first, Some(555));
    let (second, killed_second) = sup
        .stop_monitor(&m.id, StopOrigin::User, "2026-01-05T11:00:00+00:00")
        .unwrap();
    assert_eq!(second.status, MonitorStatus::Stopped);
    assert_eq!(killed_second, None);
    // The record kept the first stop's reason and timestamp.
    assert_eq!(second.exit_reason, Some(ExitReason::UserStopped));
    assert_eq!(second.ended_at.as_deref(), Some(LATER));
}

#[test]
fn stop_via_api_writes_api_stopped() {
    let mut sup = Supervisor::new();
    let m = start(&mut sup, "acme/widgets#42", 42, "acme/widgets");
    let (stopped, _) = sup.stop_monitor(&m.id, StopOrigin::Api, LATER).unwrap();
    assert_eq!(stopped.exit_reason, Some(ExitReason::ApiStopped));
}

#[test]
fn stop_of_unknown_id_is_not_found() {
    let mut sup = Supervisor::new();
    let r = sup.stop_monitor("no-such-id", StopOrigin::User, NOW);
    assert_eq!(r.unwrap_err(), MonitorError::NotFound);
}

#[test]
fn get_monitor_for_pr_finds_only_active_records() {
    let mut sup = Supervisor::new();
    let m = start(&mut sup, "acme/widgets#42", 42, "acme/widgets");
    let active = sup.get_monitor_for_pr("acme/widgets#42").unwrap();
    assert_eq!(active.id, m.id);
    sup.stop_monitor(&m.id, StopOrigin::User, LATER).unwrap();
    assert!(sup.get_monitor_for_pr("acme/widgets#42").is_none());
}

#[test]
fn get_monitors_filters_by_status_and_repo_newest_first() {
    let mut sup = Supervisor::new();
    let a = start(&mut sup, "acme/widgets#1", 1, "acme/widgets");
    let b = start(&mut sup, "acme/gadgets#2", 2, "acme/gadgets");
    let c = start(&mut sup, "acme/widgets#3", 3, "acme/widgets");
    sup.stop_monitor(&a.id, StopOrigin::User, LATER).unwrap();

    let all = sup.get_monitors(Some("all".to_string()), None);
    assert_eq!(all.len(), 3);
    // Newest first: the reverse of creation order.
    assert_eq!(all[0].id, c.id);
    assert_eq!(all[1].id, b.id);
    assert_eq!(all[2].id, a.id);

    let running = sup.get_monitors(Some("running".to_string()), None);
    assert_eq!(running.len(), 2);
    assert_eq!(running[0].id, c.id);
    assert_eq!(running[1].id, b.id);

    let stopped = sup.get_monitors(Some("stopped".to_string()), None);
    assert_eq!(stopped.len(), 1);
    assert_eq!(stopped[0].id, a.id);

    let widgets = sup.get_monitors(None, Some("acme/widgets".to_string()));
    assert_eq!(widgets.len(), 2);
    assert_eq!(widgets[0].id, c.id);
    assert_eq!(widgets[1].id, a.id);
}

#[test]
fn update_monitor_iteration_accumulates_and_never_goes_backwards() {
    let mut sup = Supervisor::new();
    let m = start(&mut sup, "acme/widgets#42", 42, "acme/widgets");
    sup.update_monitor_iteration(&m.id, 1, 2, NOW).unwrap();
    sup.update_monitor_iteration(&m.id, 2, 1, LATER).unwrap();
    let r = sup.get_monitor(&m.id).unwrap();
    assert_eq!(r.iteration, 2);
    assert_eq!(r.comments_fixed, 3);
    assert_eq!(r.last_check_at.as_deref(), Some(LATER));
    // A stale, lower iteration is ignored.
    sup.update_monitor_iteration(&m.id, 1, 5, "2026-01-05T12:00:00+00:00").unwrap();
    let r = sup.get_monitor(&m.id).unwrap();
    assert_eq!(r.iteration, 2);
    assert_eq!(r.comments_fixed, 3);
    assert_eq!(r.last_check_at.as_deref(), Some(LATER));
}

#[test]
fn update_after_terminal_state_is_ignored() {
    let mut sup = Supervisor::new();
    let m = start(&mut sup, "acme/widgets#42", 42, "acme/widgets");
    sup.stop_monitor(&m.id, StopOrigin::User, LATER).unwrap();
    sup.update_monitor_iteration(&m.id, 5, 1, LATER).unwrap();
    let r = sup.get_monitor(&m.id).unwrap();
    assert_eq!(r.status, MonitorStatus::Stopped);
    assert_eq!(r.iteration, 0);
    assert_eq!(r.comments_fixed, 0);
}

#[test]
fn update_of_unknown_id_is_not_found() {
    let mut sup = Supervisor::new();
    let r = sup.update_monitor_iteration("missing", 1, 0, NOW);
    assert_eq!(r.unwrap_err(), MonitorError::NotFound);
}

#[test]
fn complete_monitor_marks_completed() {
    let mut sup = Supervisor::new();
    let m = start(&mut sup, "acme/widgets#42", 42, "acme/widgets");
    sup.attach_process(&m.id, 99).unwrap();
    let reaped = sup.complete_monitor(&m.id, ExitReason::PrClean, LATER).unwrap();
    assert_eq!(reaped, Some(99));
    let r = sup.get_monitor(&m.id).unwrap();
    assert_eq!(r.status, MonitorStatus::Completed);
    assert_eq!(r.exit_reason, Some(ExitReason::PrClean));
}

#[test]
fn kill_all_drops_every_handle_but_no_record() {
    let mut sup = Supervisor::new();
    let a = start(&mut sup, "acme/widgets#1", 1, "acme/widgets");
    let b = start(&mut sup, "acme/widgets#2", 2, "acme/widgets");
    sup.attach_process(&a.id, 10).unwrap();
    sup.attach_process(&b.id, 20).unwrap();
    let pids = sup.kill_all();
    assert_eq!(pids, vec![10, 20]);
    assert_eq!(sup.handle_count(), 0);
    // Shutdown is not a stop: the records keep their status.
    assert_eq!(sup.get_active_monitor_count(), 2);
}

#[test]
fn cleanup_finished_removes_only_the_exited_handles() {
    let mut sup = Supervisor::new();
    let a = start(&mut sup, "acme/widgets#1", 1, "acme/widgets");
    let b = start(&mut sup, "acme/widgets#2", 2, "acme/widgets");
    sup.attach_process(&a.id, 10).unwrap();
    sup.attach_process(&b.id, 20).unwrap();
    let removed = sup.cleanup_finished(&vec![a.id.clone(), "unrelated".to_string()]);
    assert_eq!(removed, vec![a.id.clone()]);
    assert!(!sup.is_running(&a.id));
    assert!(sup.is_running(&b.id));
}

#[test]
fn monitor_log_is_append_only() {
    let mut log = MonitorLog::new();
    assert_eq!(log.len(), 0);
    log.append(MonitorLogEntry {
        monitor_id: "id-1".to_string(),
        iteration: 1,
        timestamp: NOW.to_string(),
        action: "check".to_string(),
        message: Some("2 unresolved threads".to_string()),
        comments_found: 2,
        comments_fixed: 1,
        error_type: None,
        error_message: None,
    });
    log.append(MonitorLogEntry {
        monitor_id: "id-1".to_string(),
        iteration: 2,
        timestamp: LATER.to_string(),
        action: "check".to_string(),
        message: None,
        comments_found: 0,
        comments_fixed: 0,
        error_type: Some("network".to_string()),
        error_message: Some("timed out".to_string()),
    });
    assert_eq!(log.len(), 2);
    assert_eq!(log.entry(0).iteration, 1);
    assert_eq!(log.entry(0).comments_found, 2);
    assert_eq!(log.entry(1).error_type.as_deref(), Some("network"));
}

#[test]
fn reconcile_startup_orphans_active_records() {
    let mut sup = Supervisor::new();
    let a = start(&mut sup, "acme/widgets#1", 1, "acme/widgets");
    let b = start(&mut sup, "acme/widgets#2", 2, "acme/widgets");
    sup.stop_monitor(&b.id, StopOrigin::User, LATER).unwrap();
    let resolved = sup.reconcile_startup("2026-01-06T08:00:00+00:00");
    assert_eq!(resolved, 1);
    let ra = sup.get_monitor(&a.id).unwrap();
    assert_eq!(ra.status, MonitorStatus::Failed);
    assert_eq!(ra.exit_reason, Some(ExitReason::Orphaned));
    // The stopped record is left exactly as it was.
    let rb = sup.get_monitor(&b.id).unwrap();
    assert_eq!(rb.status, MonitorStatus::Stopped);
    assert_eq!(rb.exit_reason, Some(ExitReason::UserStopped));
    assert_eq!(sup.get_active_monitor_count(), 0);
}
