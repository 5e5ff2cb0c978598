use pr_monitor::power::SleepState;
use pr_monitor::pr_meta::{
    determine_category, determine_ci_status, determine_review_status, parse_repo_path, StatusCheck,
};
use pr_monitor::status::{ExitReason, MonitorStatus};
use pr_monitor::text::{parse_i32_digits, str_contains, str_eq, str_eq_ignore_ascii_case};

fn check(state: Option<&str>, status: Option<&str>, conclusion: Option<&str>) -> StatusCheck {
    StatusCheck {
        state: state.map(|s| s.to_string()),
        status: status.map(|s| s.to_string()),
        conclusion: conclusion.map(|s| s.to_string()),
    }
}

#[test]
fn ci_status_is_none_without_checks() {
    assert_eq!(determine_ci_status(&None), None);
    assert_eq!(determine_ci_status(&Some(vec![])), None);
}

#[test]
fn ci_status_failing_takes_priority() {
    let checks = vec![
        check(None, Some("IN_PROGRESS"), None),
        check(None, None, Some("FAILURE")),
    ];
    assert_eq!(determine_ci_status(&Some(checks)).as_deref(), Some("failing"));
    // The conclusion may arrive in lower case.
    let checks = vec![check(None, None, Some("failure"))];
    assert_eq!(determine_ci_status(&Some(checks)).as_deref(), Some("failing"));
}

#[test]
fn ci_status_pending_and_passing() {
    let pending = vec![check(None, Some("QUEUED"), None), check(None, None, Some("SUCCESS"))];
    assert_eq!(determine_ci_status(&Some(pending)).as_deref(), Some("pending"));
    let pending_state = vec![check(Some("PENDING"), None, None)];
    assert_eq!(determine_ci_status(&Some(pending_state)).as_deref(), Some("pending"));
    // An empty conclusion means a check is still running.
    let pending_empty = vec![check(None, None, Some(""))];
    assert_eq!(determine_ci_status(&Some(pending_empty)).as_deref(), Some("pending"));
    let passing = vec![check(None, None, Some("SUCCESS")), check(None, None, Some("NEUTRAL"))];
    assert_eq!(determine_ci_status(&Some(passing)).as_deref(), Some("passing"));
}

#[test]
fn review_status_rules() {
    let s = |v: &str| Some(v.to_string());
    assert_eq!(determine_review_status(&s("APPROVED"), &None), "approved");
    assert_eq!(
        determine_review_status(&s("CHANGES_REQUESTED"), &None),
        "changes_requested"
    );
    assert_eq!(determine_review_status(&s("REVIEW_REQUIRED"), &None), "pending");
    assert_eq!(determine_review_status(&None, &None), "pending");
    // Merge conflicts outrank the review decision.
    assert_eq!(
        determine_review_status(&s("APPROVED"), &s("CONFLICTING")),
        "conflicts"
    );
}

#[test]
fn category_rules() {
    assert_eq!(determine_category("open", false), "todo");
    assert_eq!(determine_category("OPEN", false), "todo");
    assert_eq!(determine_category("merged", false), "done");
    assert_eq!(determine_category("closed", false), "done");
    assert_eq!(determine_category("draft", false), "todo");
    assert_eq!(determine_category("merged", true), "monitoring");
}

#[test]
fn repo_path_is_read_out_of_addresses() {
    assert_eq!(parse_repo_path("https://github.com/acme/widgets"), "acme/widgets");
    assert_eq!(parse_repo_path("https://github.com/acme/widgets.git"), "acme/widgets");
    assert_eq!(
        parse_repo_path("https://github.com/acme/widgets/pull/42"),
        "acme/widgets"
    );
    assert_eq!(parse_repo_path("acme/widgets"), "acme/widgets");
    // An address with no path after the host is handed back unchanged.
    assert_eq!(parse_repo_path("https://github.com/acme"), "https://github.com/acme");
    assert_eq!(parse_repo_path("github.com"), "github.com");
}

#[test]
fn status_text_round_trips() {
    let all = [
        MonitorStatus::Running,
        MonitorStatus::Sleeping,
        MonitorStatus::Completed,
        MonitorStatus::Failed,
        MonitorStatus::Stopped,
    ];
    for s in all {
        assert_eq!(MonitorStatus::from_str(s.as_str()), s);
    }
    assert_eq!(MonitorStatus::Running.as_str(), "running");
    assert_eq!(MonitorStatus::from_str("anything else"), MonitorStatus::Running);
}

#[test]
fn exit_reason_text() {
    assert_eq!(ExitReason::UserStopped.as_str(), "user_stopped");
    assert_eq!(ExitReason::ApiStopped.as_str(), "api_stopped");
    assert_eq!(ExitReason::PrClean.as_str(), "pr_clean");
    assert_eq!(ExitReason::MaxIterations.as_str(), "max_iterations");
    assert_eq!(ExitReason::ProcessExited.as_str(), "process_exited");
    assert_eq!(ExitReason::Orphaned.as_str(), "orphaned");
    assert_eq!(ExitReason::SpawnFailed.as_str(), "spawn_failed");
}

#[test]
fn sleep_state_follows_count_and_setting() {
    let mut sleep = SleepState::new();
    assert!(!sleep.is_sleep_prevented());
    assert!(sleep.update_sleep_state(2, true));
    assert!(sleep.is_sleep_prevented());
    assert!(!sleep.update_sleep_state(0, true));
    assert!(!sleep.is_sleep_prevented());
    assert!(!sleep.update_sleep_state(3, false));
    assert!(!sleep.is_sleep_prevented());
    sleep.prevent_sleep().unwrap();
    assert!(sleep.is_sleep_prevented());
    sleep.allow_sleep().unwrap();
    assert!(!sleep.is_sleep_prevented());
}

#[test]
fn text_helpers_behave_like_their_specifications() {
    assert!(str_eq("abc", "abc"));
    assert!(!str_eq("abc", "abd"));
    assert!(!str_eq("abc", "ab"));
    assert!(str_contains("a needle in a haystack", "needle"));
    assert!(!str_contains("a haystack", "needle"));
    assert!(str_eq_ignore_ascii_case("In_Progress", "IN_PROGRESS"));
    assert!(!str_eq_ignore_ascii_case("queued", "queue"));
    assert_eq!(parse_i32_digits("42"), Some(42));
    assert_eq!(parse_i32_digits("0042"), Some(42));
    assert_eq!(parse_i32_digits(""), None);
    assert_eq!(parse_i32_digits("4a2"), None);
    assert_eq!(parse_i32_digits("2147483647"), Some(i32::MAX));
    assert_eq!(parse_i32_digits("2147483648"), None);
}
