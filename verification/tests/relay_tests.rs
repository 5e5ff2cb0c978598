use pr_monitor::relay::{classify_exit, classify_line, LineMarker, RelayState, StatusKind};
use pr_monitor::status::{ExitReason, MonitorStatus};
use pr_monitor::supervisor::Supervisor;

const NOW: &str = "2026-01-05T10:00:00+00:00";

#[test]
fn iteration_marker_is_parsed() {
    assert_eq!(
        classify_line("@@ITERATION:1/3@@"),
        LineMarker::Progress { iteration: 1, max: 3 }
    );
    assert_eq!(
        classify_line("@@ITERATION:12/100@@"),
        LineMarker::Progress { iteration: 12, max: 100 }
    );
}

#[test]
fn malformed_iteration_markers_are_ignored() {
    assert_eq!(classify_line("@@ITERATION:1-3@@"), LineMarker::Opaque);
    assert_eq!(classify_line("@@ITERATION:x/3@@"), LineMarker::Opaque);
    assert_eq!(classify_line("@@ITERATION:1/@@"), LineMarker::Opaque);
    assert_eq!(classify_line("@@ITERATION:/3@@"), LineMarker::Opaque);
    assert_eq!(classify_line("@@ITERATION:1/3"), LineMarker::Opaque);
    assert_eq!(classify_line("ITERATION:1/3"), LineMarker::Opaque);
    // A number beyond the counter's range makes the marker malformed.
    assert_eq!(classify_line("@@ITERATION:99999999999/3@@"), LineMarker::Opaque);
}

#[test]
fn status_markers_are_recognized_anywhere_in_a_line() {
    assert_eq!(
        classify_line("@@STATUS:clean@@"),
        LineMarker::Status { kind: StatusKind::Clean }
    );
    assert_eq!(
        classify_line("done -> @@STATUS:max_iterations@@ <-"),
        LineMarker::Status { kind: StatusKind::MaxIterations }
    );
    assert_eq!(
        classify_line("@@STATUS:weird@@"),
        LineMarker::Status { kind: StatusKind::Other }
    );
    assert_eq!(classify_line("checking PR once more"), LineMarker::Opaque);
}

#[test]
fn exit_classification_follows_the_last_status_marker() {
    // No marker at all: the exit is unclassified.
    assert_eq!(
        classify_exit(None),
        (ExitReason::ProcessExited, MonitorStatus::Failed)
    );
    assert_eq!(
        classify_exit(Some(StatusKind::Clean)),
        (ExitReason::PrClean, MonitorStatus::Completed)
    );
    assert_eq!(
        classify_exit(Some(StatusKind::MaxIterations)),
        (ExitReason::MaxIterations, MonitorStatus::Failed)
    );
    assert_eq!(
        classify_exit(Some(StatusKind::Other)),
        (ExitReason::ProcessExited, MonitorStatus::Failed)
    );
}

#[test]
fn relay_remembers_the_last_status_marker() {
    let mut relay = RelayState::new();
    assert_eq!(relay.last_status, None);
    relay.observe_line("starting up");
    assert_eq!(relay.last_status, None);
    relay.observe_line("@@STATUS:weird@@");
    assert_eq!(relay.last_status, Some(StatusKind::Other));
    relay.observe_line("@@STATUS:clean@@");
    assert_eq!(relay.last_status, Some(StatusKind::Clean));
    relay.observe_line("plain text keeps the memory");
    assert_eq!(relay.last_status, Some(StatusKind::Clean));
}

#[test]
fn output_events_preserve_arrival_order() {
    let mut sup = Supervisor::new();
    let m = sup
        .start_monitor(
            "acme/widgets#42".to_string(),
            42,
            "acme/widgets".to_string(),
            Some(5),
            Some(1),
            "/tmp/w.log".to_string(),
        )
        .unwrap();
    let mut relay = RelayState::new();
    let lines: Vec<String> = (0..20).map(|i| format!("line {}", i)).collect();
    let events = sup.relay_lines(&mut relay, &m.id, &m.pr_id, &lines, NOW);
    assert_eq!(events.len(), 20);
    for (i, ev) in events.iter().enumerate() {
        assert_eq!(ev.line, format!("line {}", i));
        assert_eq!(ev.monitor_id, m.id);
        assert_eq!(ev.pr_id, m.pr_id);
    }
}

#[test]
fn progress_markers_update_the_record_through_the_relay() {
    let mut sup = Supervisor::new();
    let m = sup
        .start_monitor(
            "acme/widgets#42".to_string(),
            42,
            "acme/widgets".to_string(),
            Some(3),
            Some(1),
            "/tmp/w.log".to_string(),
        )
        .unwrap();
    let mut relay = RelayState::new();
    sup.relay_line(&mut relay, &m.id, &m.pr_id, "@@ITERATION:1/3@@", NOW);
    sup.relay_line(&mut relay, &m.id, &m.pr_id, "@@ITERATION:2/3@@", NOW);
    // A stale marker does not move the counter backwards.
    sup.relay_line(&mut relay, &m.id, &m.pr_id, "@@ITERATION:1/3@@", NOW);
    let r = sup.get_monitor(&m.id).unwrap();
    assert_eq!(r.iteration, 2);
}

#[test]
fn clean_child_run_completes_the_monitor() {
    let mut sup = Supervisor::new();
    let m = sup
        .start_monitor(
            "acme/widgets#42".to_string(),
            42,
            "acme/widgets".to_string(),
            Some(3),
            Some(1),
            "/tmp/w.log".to_string(),
        )
        .unwrap();
    sup.attach_process(&m.id, 777).unwrap();
    let mut relay = RelayState::new();
    let lines = vec!["@@ITERATION:1/3@@".to_string(), "@@STATUS:clean@@".to_string()];
    let events = sup.relay_lines(&mut relay, &m.id, &m.pr_id, &lines, NOW);
    assert_eq!(events.len(), 2);
    let (done, count) = sup.handle_process_exit(&m.id, &m.pr_id, relay.last_status, NOW);
    assert_eq!(done.status, MonitorStatus::Completed);
    assert_eq!(done.exit_reason, ExitReason::PrClean);
    assert_eq!(done.iteration, 1);
    assert_eq!(done.max_iterations, 3);
    assert_eq!(done.pr_number, Some(42));
    assert_eq!(count, 0);
    let r = sup.get_monitor(&m.id).unwrap();
    assert_eq!(r.status, MonitorStatus::Completed);
    assert_eq!(r.exit_reason, Some(ExitReason::PrClean));
    assert_eq!(r.iteration, 1);
    assert!(!sup.is_running(&m.id));
}

#[test]
fn silent_child_exit_fails_the_monitor() {
    let mut sup = Supervisor::new();
    let m = sup
        .start_monitor(
            "acme/widgets#42".to_string(),
            42,
            "acme/widgets".to_string(),
            Some(3),
            Some(1),
            "/tmp/w.log".to_string(),
        )
        .unwrap();
    sup.attach_process(&m.id, 778).unwrap();
    let relay = RelayState::new();
    let (done, count) = sup.handle_process_exit(&m.id, &m.pr_id, relay.last_status, NOW);
    assert_eq!(done.status, MonitorStatus::Failed);
    assert_eq!(done.exit_reason, ExitReason::ProcessExited);
    assert_eq!(count, 0);
    let r = sup.get_monitor(&m.id).unwrap();
    assert_eq!(r.status, MonitorStatus::Failed);
    assert_eq!(r.exit_reason, Some(ExitReason::ProcessExited));
}

#[test]
fn exhausted_budget_fails_the_monitor_with_max_iterations() {
    let mut sup = Supervisor::new();
    let m = sup
        .start_monitor(
            "acme/widgets#42".to_string(),
            42,
            "acme/widgets".to_string(),
            Some(2),
            Some(1),
            "/tmp/w.log".to_string(),
        )
        .unwrap();
    let mut relay = RelayState::new();
    relay.observe_line("@@STATUS:max_iterations@@");
    let (done, _) = sup.handle_process_exit(&m.id, &m.pr_id, relay.last_status, NOW);
    assert_eq!(done.status, MonitorStatus::Failed);
    assert_eq!(done.exit_reason, ExitReason::MaxIterations);
}

#[test]
fn exit_of_unknown_monitor_still_reports_an_event() {
    let mut sup = Supervisor::new();
    let (done, count) = sup.handle_process_exit("ghost", "acme/widgets#9", None, NOW);
    assert_eq!(done.monitor_id, "ghost");
    assert_eq!(done.pr_id, "acme/widgets#9");
    assert_eq!(done.pr_number, None);
    assert_eq!(done.iteration, 0);
    assert_eq!(done.max_iterations, 0);
    assert_eq!(count, 0);
}
