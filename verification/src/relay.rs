//! Parsing of the marker protocol on a monitor child's output stream.
//!
//! Each line of the child's standard output is read as one of three
//! things: an iteration-progress marker (`@@ITERATION:<n>/<max>@@`), a
//! terminal-status marker (a line containing `@@STATUS:`), or opaque
//! text to relay verbatim. The relay remembers the kind of the last
//! status marker it saw; when the stream closes, that memory alone
//! decides how the exit is classified.

use vstd::prelude::*;
use vstd::string::*;
use crate::status::{ExitReason, MonitorStatus};
use crate::text::{
    all_digits, contains_at, digits_value, first_index_of, index_of_char, parse_i32_digits,
    spec_contains, str_contains, str_has_prefix, str_has_suffix,
};

verus! {

/// The kind of a terminal-status marker.
#[derive(Clone, Copy, Debug, PartialEq, Eq, Structural)]
pub enum StatusKind {
    /// The child reported the subject clean.
    Clean,
    /// The child reported its iteration budget exhausted.
    MaxIterations,
    /// A status marker whose payload is not recognized.
    Other,
}

/// What one line of child output means.
#[derive(Clone, Copy, Debug, PartialEq, Eq, Structural)]
pub enum LineMarker {
    /// An iteration-progress marker.
    Progress { iteration: i32, max: i32 },
    /// A terminal-status marker.
    Status { kind: StatusKind },
    /// Ordinary text, relayed verbatim.
    Opaque,
}

/// The iteration and cap read from a progress marker, if the line is one.
///
/// The line must carry the opening envelope, the closing envelope, and
/// between them two runs of decimal digits around a single `/`; the
/// split is at the first `/`, and a number beyond `i32::MAX` makes the
/// marker malformed. Anything malformed is ignored, never an error.
pub open spec fn spec_progress_marker(line: Seq<char>) -> Option<(int, int)> {
    let p = "@@ITERATION:"@;
    let q = "@@"@;
    if contains_at(line, p, 0) && q.len() <= line.len() && contains_at(
        line,
        q,
        line.len() - q.len(),
    ) && p.len() + q.len() <= line.len() {
        let inner = line.subrange(p.len() as int, line.len() - q.len());
        let k = first_index_of(inner, '/');
        if k >= 0 {
            let a = inner.subrange(0, k);
            let b = inner.subrange(k + 1, inner.len() as int);
            if a.len() > 0 && b.len() > 0 && all_digits(a) && all_digits(b) && digits_value(a)
                <= i32::MAX && digits_value(b) <= i32::MAX {
                Option::Some((digits_value(a), digits_value(b)))
            } else {
                Option::None
            }
        } else {
            Option::None
        }
    } else {
        Option::None
    }
}

/// The kind of the status marker a line carries.
pub open spec fn spec_status_kind(line: Seq<char>) -> StatusKind {
    if spec_contains(line, "@@STATUS:clean@@"@) {
        StatusKind::Clean
    } else if spec_contains(line, "@@STATUS:max_iterations@@"@) {
        StatusKind::MaxIterations
    } else {
        StatusKind::Other
    }
}

/// What a line means: a well-formed progress marker first, else a
/// status marker if the status envelope occurs anywhere, else opaque.
pub open spec fn spec_classify_line(line: Seq<char>) -> LineMarker {
    match spec_progress_marker(line) {
        Option::Some((i, m)) => LineMarker::Progress { iteration: i as i32, max: m as i32 },
        Option::None => if spec_contains(line, "@@STATUS:"@) {
            LineMarker::Status { kind: spec_status_kind(line) }
        } else {
            LineMarker::Opaque
        },
    }
}

/// Read one line of child output.
pub fn classify_line(line: &str) -> (r: LineMarker)
    ensures
        r == spec_classify_line(line@),
{
    proof {
        reveal_strlit("@@ITERATION:");
        reveal_strlit("@@");
    }
    let n = line.unicode_len();
    if str_has_prefix(line, "@@ITERATION:") && str_has_suffix(line, "@@") && n >= 14 {
        let inner = line.substring_char(12, n - 2);
        proof {
            assert(inner@ == line@.subrange(12, line@.len() - 2));
        }
        let inner_len = n - 14;
        proof {
            assert(inner@.len() == inner_len);
        }
        match index_of_char(inner, '/') {
            Option::Some(k) => {
                let a = inner.substring_char(0, k);
                let b = inner.substring_char(k + 1, inner_len);
                match (parse_i32_digits(a), parse_i32_digits(b)) {
                    (Option::Some(x), Option::Some(y)) => {
                        if a.unicode_len() > 0 && b.unicode_len() > 0 {
                            return LineMarker::Progress { iteration: x, max: y };
                        }
                    },
                    _ => {},
                }
            },
            Option::None => {},
        }
    }
    if str_contains(line, "@@STATUS:") {
        if str_contains(line, "@@STATUS:clean@@") {
            LineMarker::Status { kind: StatusKind::Clean }
        } else if str_contains(line, "@@STATUS:max_iterations@@") {
            LineMarker::Status { kind: StatusKind::MaxIterations }
        } else {
            LineMarker::Status { kind: StatusKind::Other }
        }
    } else {
        LineMarker::Opaque
    }
}

/// What the relay remembers after seeing a line: a status marker
/// replaces the memory, anything else leaves it alone.
pub open spec fn spec_observe(prev: Option<StatusKind>, line: Seq<char>) -> Option<StatusKind> {
    match spec_classify_line(line) {
        LineMarker::Status { kind } => Option::Some(kind),
        _ => prev,
    }
}

/// How a process exit is classified from the last status marker seen:
/// a `clean` marker completes the monitor with reason `pr_clean`; a
/// `max_iterations` marker fails it with reason `max_iterations`; any
/// other marker, or none at all, fails it with reason `process_exited`.
pub open spec fn spec_classify_exit(last: Option<StatusKind>) -> (ExitReason, MonitorStatus) {
    match last {
        Option::Some(StatusKind::Clean) => (ExitReason::PrClean, MonitorStatus::Completed),
        Option::Some(StatusKind::MaxIterations) => (
            ExitReason::MaxIterations,
            MonitorStatus::Failed,
        ),
        Option::Some(StatusKind::Other) => (ExitReason::ProcessExited, MonitorStatus::Failed),
        Option::None => (ExitReason::ProcessExited, MonitorStatus::Failed),
    }
}

/// Classify a process exit. A pure function of the last recognized
/// status marker alone.
pub fn classify_exit(last: Option<StatusKind>) -> (r: (ExitReason, MonitorStatus))
    ensures
        r == spec_classify_exit(last),
{
    match last {
        Option::Some(StatusKind::Clean) => (ExitReason::PrClean, MonitorStatus::Completed),
        Option::Some(StatusKind::MaxIterations) => (
            ExitReason::MaxIterations,
            MonitorStatus::Failed,
        ),
        Option::Some(StatusKind::Other) => (ExitReason::ProcessExited, MonitorStatus::Failed),
        Option::None => (ExitReason::ProcessExited, MonitorStatus::Failed),
    }
}

/// The per-stream state of one relay: the kind of the last status
/// marker seen on the stream, if any.
pub struct RelayState {
    pub last_status: Option<StatusKind>,
}

impl RelayState {
    /// A relay that has seen nothing yet.
    pub fn new() -> (r: Self)
        ensures
            r.last_status == Option::<StatusKind>::None,
    {
        RelayState { last_status: Option::None }
    }

    /// Take one line in: classify it and update the status memory.
    pub fn observe_line(&mut self, line: &str) -> (m: LineMarker)
        ensures
            m == spec_classify_line(line@),
            final(self).last_status == spec_observe(old(self).last_status, line@),
    {
        let marker = classify_line(line);
        match marker {
            LineMarker::Status { kind } => {
                self.last_status = Option::Some(kind);
            },
            _ => {},
        }
        marker
    }
}

} // verus!
