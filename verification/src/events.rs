//! Payloads of the events the supervisor publishes to its observers.
//!
//! Delivery is the embedding's concern and is fire-and-forget; these
//! types fix what each event carries.

use vstd::prelude::*;
use crate::status::{ExitReason, MonitorStatus};

verus! {

/// Published whenever the number of active monitors may have changed.
pub struct MonitorStatePayload {
    pub active_count: i32,
}

/// One line of a child's output, tagged with its monitor and subject.
pub struct MonitorOutputPayload {
    pub monitor_id: String,
    pub pr_id: String,
    pub line: String,
}

/// Published once per monitor, when its process exit has been
/// reconciled with the store.
pub struct MonitorCompletedPayload {
    pub monitor_id: String,
    pub pr_id: String,
    pub pr_number: Option<i32>,
    pub exit_reason: ExitReason,
    pub status: MonitorStatus,
    pub iteration: i32,
    pub max_iterations: i32,
}

/// Published when a desktop notification has been shown.
pub struct NotificationPayload {
    pub notification_type: String,
    pub pr_id: String,
    pub pr_number: i32,
}

} // verus!
