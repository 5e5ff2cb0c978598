//! The monitor record: one observed review-resolution session.

use vstd::prelude::*;
use crate::status::{ExitReason, MonitorStatus};

verus! {

/// One monitoring session, as the store keeps it.
///
/// `pr_id` is the subject key (`repo#number`); at most one record per
/// subject may be active at a time. Timestamps are opaque text in the
/// form the embedding's clock writes them.
#[derive(Debug)]
pub struct Monitor {
    pub id: String,
    pub pr_id: String,
    pub pr_number: i32,
    pub repo: String,
    pub pid: Option<i32>,
    pub status: MonitorStatus,
    pub iteration: i32,
    pub max_iterations: i32,
    pub interval_minutes: i32,
    pub started_at: String,
    pub last_check_at: Option<String>,
    pub next_check_at: Option<String>,
    pub ended_at: Option<String>,
    pub comments_fixed: i32,
    pub exit_reason: Option<ExitReason>,
    pub log_file: String,
}

/// The mathematical image of a record: every text field as its
/// character sequence.
pub ghost struct MonitorView {
    pub id: Seq<char>,
    pub pr_id: Seq<char>,
    pub pr_number: int,
    pub repo: Seq<char>,
    pub pid: Option<int>,
    pub status: MonitorStatus,
    pub iteration: int,
    pub max_iterations: int,
    pub interval_minutes: int,
    pub started_at: Seq<char>,
    pub last_check_at: Option<Seq<char>>,
    pub next_check_at: Option<Seq<char>>,
    pub ended_at: Option<Seq<char>>,
    pub comments_fixed: int,
    pub exit_reason: Option<ExitReason>,
    pub log_file: Seq<char>,
}

/// The view of an optional text field.
pub open spec fn opt_str_view(o: Option<String>) -> Option<Seq<char>> {
    match o {
        Option::Some(s) => Option::Some(s@),
        Option::None => Option::None,
    }
}

/// The view of an optional numeric field.
pub open spec fn opt_i32_view(o: Option<i32>) -> Option<int> {
    match o {
        Option::Some(v) => Option::Some(v as int),
        Option::None => Option::None,
    }
}

impl View for Monitor {
    type V = MonitorView;

    open spec fn view(&self) -> MonitorView {
        MonitorView {
            id: self.id@,
            pr_id: self.pr_id@,
            pr_number: self.pr_number as int,
            repo: self.repo@,
            pid: opt_i32_view(self.pid),
            status: self.status,
            iteration: self.iteration as int,
            max_iterations: self.max_iterations as int,
            interval_minutes: self.interval_minutes as int,
            started_at: self.started_at@,
            last_check_at: opt_str_view(self.last_check_at),
            next_check_at: opt_str_view(self.next_check_at),
            ended_at: opt_str_view(self.ended_at),
            comments_fixed: self.comments_fixed as int,
            exit_reason: self.exit_reason,
            log_file: self.log_file@,
        }
    }
}

/// Duplicate an optional text field.
fn clone_opt_string(o: &Option<String>) -> (r: Option<String>)
    ensures
        opt_str_view(r) == opt_str_view(*o),
{
    match o {
        Option::Some(s) => Option::Some(s.clone()),
        Option::None => Option::None,
    }
}

impl Clone for Monitor {
    /// A copy with the same view.
    fn clone(&self) -> (r: Self)
        ensures
            r@ == self@,
    {
        Monitor {
            id: self.id.clone(),
            pr_id: self.pr_id.clone(),
            pr_number: self.pr_number,
            repo: self.repo.clone(),
            pid: self.pid,
            status: self.status,
            iteration: self.iteration,
            max_iterations: self.max_iterations,
            interval_minutes: self.interval_minutes,
            started_at: self.started_at.clone(),
            last_check_at: clone_opt_string(&self.last_check_at),
            next_check_at: clone_opt_string(&self.next_check_at),
            ended_at: clone_opt_string(&self.ended_at),
            comments_fixed: self.comments_fixed,
            exit_reason: self.exit_reason,
            log_file: self.log_file.clone(),
        }
    }
}

/// A view is active when its status is.
pub open spec fn view_is_active(m: MonitorView) -> bool {
    crate::status::is_active_status(m.status)
}

/// One iteration's outcome, appended to a monitor's log. The core only
/// ever writes these; reading them back is the embedding's concern.
#[derive(Debug)]
pub struct MonitorLogEntry {
    pub monitor_id: String,
    pub iteration: i32,
    pub timestamp: String,
    pub action: String,
    pub message: Option<String>,
    pub comments_found: i32,
    pub comments_fixed: i32,
    pub error_type: Option<String>,
    pub error_message: Option<String>,
}

/// The mathematical image of a log entry.
pub ghost struct MonitorLogEntryView {
    pub monitor_id: Seq<char>,
    pub iteration: int,
    pub timestamp: Seq<char>,
    pub action: Seq<char>,
    pub message: Option<Seq<char>>,
    pub comments_found: int,
    pub comments_fixed: int,
    pub error_type: Option<Seq<char>>,
    pub error_message: Option<Seq<char>>,
}

impl View for MonitorLogEntry {
    type V = MonitorLogEntryView;

    open spec fn view(&self) -> MonitorLogEntryView {
        MonitorLogEntryView {
            monitor_id: self.monitor_id@,
            iteration: self.iteration as int,
            timestamp: self.timestamp@,
            action: self.action@,
            message: opt_str_view(self.message),
            comments_found: self.comments_found as int,
            comments_fixed: self.comments_fixed as int,
            error_type: opt_str_view(self.error_type),
            error_message: opt_str_view(self.error_message),
        }
    }
}

} // verus!
