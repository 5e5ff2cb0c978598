//! Lifecycle states and exit reasons of a monitor.

use vstd::prelude::*;

verus! {

/// Lifecycle state of a monitor record.
///
/// `Running` and `Sleeping` are the active states; `Completed`, `Failed`
/// and `Stopped` are terminal.
#[derive(Clone, Copy, Debug, PartialEq, Eq, Structural)]
pub enum MonitorStatus {
    Running,
    Sleeping,
    Completed,
    Failed,
    Stopped,
}

/// Whether a status takes part in the one-active-monitor-per-subject rule.
pub open spec fn is_active_status(s: MonitorStatus) -> bool {
    s == MonitorStatus::Running || s == MonitorStatus::Sleeping
}

/// Whether a status is terminal: no transition may leave it.
pub open spec fn is_terminal_status(s: MonitorStatus) -> bool {
    !is_active_status(s)
}

impl MonitorStatus {
    /// The stored text form of a status.
    pub fn as_str(&self) -> (r: &'static str)
        ensures
            r@ == spec_status_str(*self),
    {
        proof {
            reveal_strlit("running");
            reveal_strlit("sleeping");
            reveal_strlit("completed");
            reveal_strlit("failed");
            reveal_strlit("stopped");
        }
        match self {
            MonitorStatus::Running => "running",
            MonitorStatus::Sleeping => "sleeping",
            MonitorStatus::Completed => "completed",
            MonitorStatus::Failed => "failed",
            MonitorStatus::Stopped => "stopped",
        }
    }
}

/// The text form of each status.
pub open spec fn spec_status_str(s: MonitorStatus) -> Seq<char> {
    match s {
        MonitorStatus::Running => "running"@,
        MonitorStatus::Sleeping => "sleeping"@,
        MonitorStatus::Completed => "completed"@,
        MonitorStatus::Failed => "failed"@,
        MonitorStatus::Stopped => "stopped"@,
    }
}

/// The status a stored text form denotes; unrecognized text is read as
/// `Running`, matching how records written by older layouts are treated.
pub open spec fn spec_status_from(s: Seq<char>) -> MonitorStatus {
    if s == "running"@ {
        MonitorStatus::Running
    } else if s == "sleeping"@ {
        MonitorStatus::Sleeping
    } else if s == "completed"@ {
        MonitorStatus::Completed
    } else if s == "failed"@ {
        MonitorStatus::Failed
    } else if s == "stopped"@ {
        MonitorStatus::Stopped
    } else {
        MonitorStatus::Running
    }
}

impl MonitorStatus {
    /// Whether this status takes part in the one-active-per-subject rule.
    pub fn is_active(&self) -> (r: bool)
        ensures
            r == is_active_status(*self),
    {
        match self {
            MonitorStatus::Running => true,
            MonitorStatus::Sleeping => true,
            _ => false,
        }
    }

    /// Read a status back from its stored text form.
    pub fn from_str(s: &str) -> (r: Self)
        ensures
            r == spec_status_from(s@),
    {
        if crate::text::str_eq(s, "running") {
            MonitorStatus::Running
        } else if crate::text::str_eq(s, "sleeping") {
            MonitorStatus::Sleeping
        } else if crate::text::str_eq(s, "completed") {
            MonitorStatus::Completed
        } else if crate::text::str_eq(s, "failed") {
            MonitorStatus::Failed
        } else if crate::text::str_eq(s, "stopped") {
            MonitorStatus::Stopped
        } else {
            MonitorStatus::Running
        }
    }
}

/// Why a monitor reached a terminal state.
#[derive(Clone, Copy, Debug, PartialEq, Eq, Structural)]
pub enum ExitReason {
    /// Stopped on request from the local user interface.
    UserStopped,
    /// Stopped on request from the control surface.
    ApiStopped,
    /// The child reported the subject clean before exiting.
    PrClean,
    /// The child exhausted its configured iteration budget.
    MaxIterations,
    /// The child exited without a recognized terminal marker.
    ProcessExited,
    /// Found active in storage at startup with no live process.
    Orphaned,
    /// The child process could not be launched; the record was rolled back.
    SpawnFailed,
}

/// The text form of each exit reason.
pub open spec fn spec_reason_str(r: ExitReason) -> Seq<char> {
    match r {
        ExitReason::UserStopped => "user_stopped"@,
        ExitReason::ApiStopped => "api_stopped"@,
        ExitReason::PrClean => "pr_clean"@,
        ExitReason::MaxIterations => "max_iterations"@,
        ExitReason::ProcessExited => "process_exited"@,
        ExitReason::Orphaned => "orphaned"@,
        ExitReason::SpawnFailed => "spawn_failed"@,
    }
}

impl ExitReason {
    /// The stored text form of an exit reason.
    pub fn as_str(&self) -> (r: &'static str)
        ensures
            r@ == spec_reason_str(*self),
    {
        proof {
            reveal_strlit("user_stopped");
            reveal_strlit("api_stopped");
            reveal_strlit("pr_clean");
            reveal_strlit("max_iterations");
            reveal_strlit("process_exited");
            reveal_strlit("orphaned");
            reveal_strlit("spawn_failed");
        }
        match self {
            ExitReason::UserStopped => "user_stopped",
            ExitReason::ApiStopped => "api_stopped",
            ExitReason::PrClean => "pr_clean",
            ExitReason::MaxIterations => "max_iterations",
            ExitReason::ProcessExited => "process_exited",
            ExitReason::Orphaned => "orphaned",
            ExitReason::SpawnFailed => "spawn_failed",
        }
    }
}

/// The error taxonomy of the supervisor's operations.
#[derive(Clone, Copy, Debug, PartialEq, Eq, Structural)]
pub enum MonitorError {
    /// An active monitor already exists for the subject.
    AlreadyActive,
    /// No record carries the given monitor id.
    NotFound,
    /// The child process could not be installed or launched.
    SpawnError,
    /// The store refused the write; here only a duplicate monitor id.
    StoreError,
}

} // verus!
