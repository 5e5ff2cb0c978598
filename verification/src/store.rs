//! The store of monitor records.
//!
//! The store is the single source of truth for lifecycle state. It keeps
//! every record ever created (history is never pruned here) and enforces
//! two rules as an invariant: monitor ids are unique, and at most one
//! record per subject key is in an active status. The embedding mirrors
//! each successful write to durable storage; the decision of what each
//! write does is made and proved here.

use vstd::prelude::*;
use crate::record::{Monitor, MonitorView, view_is_active};
use crate::status::{
    is_terminal_status, spec_status_str, ExitReason, MonitorError, MonitorStatus,
};
use crate::text::str_eq;

verus! {

/// The views of a sequence of records.
pub open spec fn views_of(s: Seq<Monitor>) -> Seq<MonitorView> {
    s.map_values(|m: Monitor| m@)
}

/// Some record carries the id.
pub open spec fn has_id(s: Seq<MonitorView>, id: Seq<char>) -> bool {
    exists|k: int| 0 <= k < s.len() && (#[trigger] s[k]).id == id
}

/// Some active record carries the subject key.
pub open spec fn has_active_subject(s: Seq<MonitorView>, pr_id: Seq<char>) -> bool {
    exists|k: int|
        0 <= k < s.len() && view_is_active(#[trigger] s[k]) && s[k].pr_id == pr_id
}

/// The number of active records.
pub open spec fn count_active(s: Seq<MonitorView>) -> int
    decreases s.len(),
{
    if s.len() == 0 {
        0
    } else {
        count_active(s.drop_last()) + if view_is_active(s.last()) {
            1int
        } else {
            0int
        }
    }
}

/// Addition on `i32` that sticks at the bounds instead of wrapping.
pub open spec fn spec_sat_add_i32(a: int, b: int) -> int {
    if a + b > i32::MAX {
        i32::MAX as int
    } else if a + b < i32::MIN {
        i32::MIN as int
    } else {
        a + b
    }
}

/// Saturating addition on `i32`.
pub fn sat_add_i32(a: i32, b: i32) -> (r: i32)
    ensures
        r as int == spec_sat_add_i32(a as int, b as int),
{
    if b >= 0 {
        if a > i32::MAX - b {
            i32::MAX
        } else {
            a + b
        }
    } else {
        if a < i32::MIN - b {
            i32::MIN
        } else {
            a + b
        }
    }
}

/// A record after an iteration-progress update.
pub open spec fn progress_view(m: MonitorView, iteration: int, fixed: int, now: Seq<char>) -> MonitorView {
    MonitorView {
        iteration: iteration,
        last_check_at: Option::Some(now),
        comments_fixed: spec_sat_add_i32(m.comments_fixed, fixed),
        ..m
    }
}

/// An iteration-progress update applies only to an active record and
/// never moves the iteration counter backwards; anything else is ignored.
pub open spec fn progress_applied(m: MonitorView, iteration: int, fixed: int, now: Seq<char>) -> MonitorView {
    if view_is_active(m) && iteration >= m.iteration {
        progress_view(m, iteration, fixed, now)
    } else {
        m
    }
}

/// A record after a transition to a terminal status. The process handle
/// is reaped along with the transition, so the stored pid is cleared.
pub open spec fn finished_view(m: MonitorView, status: MonitorStatus, reason: ExitReason, now: Seq<char>) -> MonitorView {
    MonitorView {
        status: status,
        ended_at: Option::Some(now),
        exit_reason: Option::Some(reason),
        pid: Option::None,
        ..m
    }
}

/// A terminal transition applies only to an active record; a record that
/// is already terminal is left exactly as it is.
pub open spec fn finish_applied(m: MonitorView, status: MonitorStatus, reason: ExitReason, now: Seq<char>) -> MonitorView {
    if view_is_active(m) {
        finished_view(m, status, reason, now)
    } else {
        m
    }
}

/// Stopping is idempotent: a record once stopped is terminal, so a
/// second stop changes nothing, whatever its reason or timestamp.
pub proof fn lemma_stop_idempotent(
    m: MonitorView,
    r1: ExitReason,
    t1: Seq<char>,
    r2: ExitReason,
    t2: Seq<char>,
)
    ensures
        finish_applied(
            finish_applied(m, MonitorStatus::Stopped, r1, t1),
            MonitorStatus::Stopped,
            r2,
            t2,
        ) == finish_applied(m, MonitorStatus::Stopped, r1, t1),
{
}

/// Iteration progress is monotonic: whatever update arrives, a record's
/// iteration counter never moves backwards, and its identity and status
/// are untouched.
pub proof fn lemma_progress_monotonic(m: MonitorView, iteration: int, fixed: int, now: Seq<char>)
    ensures
        progress_applied(m, iteration, fixed, now).iteration >= m.iteration,
        progress_applied(m, iteration, fixed, now).id == m.id,
        progress_applied(m, iteration, fixed, now).pr_id == m.pr_id,
        progress_applied(m, iteration, fixed, now).status == m.status,
{
}

/// A record after its process id is filled in.
pub open spec fn with_pid_view(m: MonitorView, pid: int) -> MonitorView {
    MonitorView { pid: Option::Some(pid), ..m }
}

/// Does a record pass the optional status and repo filters?
/// A status filter of `all` passes every record.
pub open spec fn keep_record(m: MonitorView, status: Option<Seq<char>>, repo: Option<Seq<char>>) -> bool {
    &&& match status {
        Option::Some(f) => f == "all"@ || spec_status_str(m.status) == f,
        Option::None => true,
    }
    &&& match repo {
        Option::Some(f) => m.repo == f,
        Option::None => true,
    }
}

/// The subsequence of records that pass the filters, oldest first.
pub open spec fn filtered_records(s: Seq<MonitorView>, status: Option<Seq<char>>, repo: Option<Seq<char>>) -> Seq<MonitorView>
    decreases s.len(),
{
    if s.len() == 0 {
        Seq::empty()
    } else {
        filtered_records(s.drop_last(), status, repo) + if keep_record(s.last(), status, repo) {
            seq![s.last()]
        } else {
            Seq::empty()
        }
    }
}

/// The append-only log of iteration outcomes, one entry per iteration
/// of a monitor. The core only appends; pruning and the read path
/// belong to the embedding.
pub struct MonitorLog {
    entries: Vec<crate::record::MonitorLogEntry>,
}

impl View for MonitorLog {
    type V = Seq<crate::record::MonitorLogEntryView>;

    closed spec fn view(&self) -> Seq<crate::record::MonitorLogEntryView> {
        self.entries@.map_values(|e: crate::record::MonitorLogEntry| e@)
    }
}

impl MonitorLog {
    /// An empty log.
    pub fn new() -> (r: Self)
        ensures
            r@ =~= Seq::<crate::record::MonitorLogEntryView>::empty(),
    {
        MonitorLog { entries: Vec::new() }
    }

    /// Append one iteration's outcome. Nothing is ever overwritten.
    pub fn append(&mut self, entry: crate::record::MonitorLogEntry)
        ensures
            final(self)@ =~= old(self)@.push(entry@),
    {
        let ghost pre = self@;
        self.entries.push(entry);
        proof {
            assert(self@ =~= pre.push(self.entries@.last()@));
        }
    }

    /// How many entries the log holds.
    pub fn len(&self) -> (r: usize)
        ensures
            r == self@.len(),
    {
        self.entries.len()
    }

    /// Read one entry back.
    pub fn entry(&self, i: usize) -> (r: &crate::record::MonitorLogEntry)
        requires
            i < self@.len(),
        ensures
            r@ == self@[i as int],
    {
        &self.entries[i]
    }
}

/// The store of monitor records.
pub struct MonitorStore {
    records: Vec<Monitor>,
}

impl View for MonitorStore {
    type V = Seq<MonitorView>;

    closed spec fn view(&self) -> Seq<MonitorView> {
        views_of(self.records@)
    }
}

impl MonitorStore {
    /// The store's two rules: ids unique, at most one active record per
    /// subject key; and room for the active count in an `i32`.
    pub open spec fn inv(&self) -> bool {
        &&& forall|i: int, j: int|
            0 <= i < j < self@.len() ==> (#[trigger] self@[i]).id != (#[trigger] self@[j]).id
        &&& forall|i: int, j: int|
            0 <= i < j < self@.len() && view_is_active(#[trigger] self@[i]) && view_is_active(
                #[trigger] self@[j],
            ) ==> self@[i].pr_id != self@[j].pr_id
        &&& self@.len() <= i32::MAX as int
    }

    /// An empty store.
    pub fn new() -> (r: Self)
        ensures
            r@ =~= Seq::<MonitorView>::empty(),
            r.inv(),
    {
        MonitorStore { records: Vec::new() }
    }

    /// How many records the store holds.
    pub fn len(&self) -> (r: usize)
        ensures
            r == self@.len(),
    {
        self.records.len()
    }

    /// The index of the record with the id, if any.
    fn find_index(&self, monitor_id: &str) -> (r: Option<usize>)
        ensures
            match r {
                Option::Some(k) => k < self@.len() && self@[k as int].id == monitor_id@,
                Option::None => !has_id(self@, monitor_id@),
            },
    {
        let n = self.records.len();
        let mut i: usize = 0;
        while i < n
            invariant
                n == self@.len(),
                i <= n,
                forall|k: int| 0 <= k < i ==> (#[trigger] self@[k]).id != monitor_id@,
            decreases n - i,
        {
            if str_eq(self.records[i].id.as_str(), monitor_id) {
                return Option::Some(i);
            }
            i += 1;
        }
        Option::None
    }

    /// The conditional insert: refused with `AlreadyActive` when an
    /// active record for the subject exists, with `StoreError` when the
    /// id is already taken, and recorded otherwise.
    pub fn create(&mut self, m: Monitor) -> (r: Result<(), MonitorError>)
        requires
            old(self).inv(),
            old(self)@.len() < i32::MAX as int,
        ensures
            final(self).inv(),
            match r {
                Result::Ok(()) => {
                    &&& final(self)@ =~= old(self)@.push(m@)
                    &&& !has_active_subject(old(self)@, m@.pr_id)
                    &&& !has_id(old(self)@, m@.id)
                },
                Result::Err(MonitorError::AlreadyActive) => {
                    &&& final(self)@ == old(self)@
                    &&& has_active_subject(old(self)@, m@.pr_id)
                },
                Result::Err(MonitorError::StoreError) => {
                    &&& final(self)@ == old(self)@
                    &&& !has_active_subject(old(self)@, m@.pr_id)
                    &&& has_id(old(self)@, m@.id)
                },
                Result::Err(_) => false,
            },
    {
        let n = self.records.len();
        let mut i: usize = 0;
        let mut subject_taken: bool = false;
        let mut id_taken: bool = false;
        while i < n
            invariant
                n == self@.len(),
                i <= n,
                subject_taken == exists|k: int|
                    0 <= k < i && view_is_active(#[trigger] self@[k]) && self@[k].pr_id == m@.pr_id,
                id_taken == exists|k: int| 0 <= k < i && (#[trigger] self@[k]).id == m@.id,
            decreases n - i,
        {
            proof {
                assert(self@[i as int] == self.records@[i as int]@);
            }
            let rec = &self.records[i];
            let rec_active = rec.status.is_active();
            let subj_match = str_eq(rec.pr_id.as_str(), m.pr_id.as_str());
            let id_match = str_eq(rec.id.as_str(), m.id.as_str());
            if rec_active && subj_match {
                subject_taken = true;
                proof {
                    assert(view_is_active(self@[i as int]) && self@[i as int].pr_id == m@.pr_id);
                }
            }
            if id_match {
                id_taken = true;
                proof {
                    assert(self@[i as int].id == m@.id);
                }
            }
            i += 1;
        }
        if subject_taken {
            return Result::Err(MonitorError::AlreadyActive);
        }
        if id_taken {
            return Result::Err(MonitorError::StoreError);
        }
        let ghost pre = self@;
        self.records.push(m);
        proof {
            assert(self@ =~= pre.push(m@));
            assert(forall|k: int| 0 <= k < pre.len() ==> (#[trigger] pre[k]).id != m@.id);
            assert(forall|k: int|
                0 <= k < pre.len() ==> !(view_is_active(#[trigger] pre[k]) && pre[k].pr_id
                    == m@.pr_id));
            assert(forall|k: int| 0 <= k < pre.len() ==> self@[k] == pre[k]);
            assert(self@[pre.len() as int] == m@);
        }
        Result::Ok(())
    }

    /// A copy of the record with the id.
    pub fn get_monitor(&self, monitor_id: &str) -> (r: Option<Monitor>)
        ensures
            match r {
                Option::Some(m) => exists|k: int|
                    0 <= k < self@.len() && (#[trigger] self@[k]).id == monitor_id@ && m@ == self@[k],
                Option::None => !has_id(self@, monitor_id@),
            },
    {
        match self.find_index(monitor_id) {
            Option::Some(k) => Option::Some(self.records[k].clone()),
            Option::None => Option::None,
        }
    }

    /// A copy of the active record for the subject, if any.
    pub fn get_monitor_for_pr(&self, pr_id: &str) -> (r: Option<Monitor>)
        ensures
            match r {
                Option::Some(m) => exists|k: int|
                    0 <= k < self@.len() && view_is_active(#[trigger] self@[k]) && self@[k].pr_id
                        == pr_id@ && m@ == self@[k],
                Option::None => !has_active_subject(self@, pr_id@),
            },
    {
        let n = self.records.len();
        let mut i: usize = 0;
        while i < n
            invariant
                n == self@.len(),
                i <= n,
                forall|k: int|
                    0 <= k < i ==> !(view_is_active(#[trigger] self@[k]) && self@[k].pr_id
                        == pr_id@),
            decreases n - i,
        {
            proof {
                assert(self@[i as int] == self.records@[i as int]@);
            }
            let rec = &self.records[i];
            if rec.status.is_active() && str_eq(rec.pr_id.as_str(), pr_id) {
                let found = self.records[i].clone();
                proof {
                    assert(view_is_active(self@[i as int]) && self@[i as int].pr_id == pr_id@
                        && found@ == self@[i as int]);
                }
                return Option::Some(found);
            }
            i += 1;
        }
        Option::None
    }

    /// Record iteration progress: only an active record is touched, the
    /// iteration counter never moves backwards, and the fixed-comment
    /// count accumulates.
    pub fn update_monitor_iteration(
        &mut self,
        monitor_id: &str,
        iteration: i32,
        comments_fixed: i32,
        now: &str,
    ) -> (r: Result<(), MonitorError>)
        requires
            old(self).inv(),
        ensures
            final(self).inv(),
            final(self)@.len() == old(self)@.len(),
            forall|k: int|
                0 <= k < old(self)@.len() ==> (#[trigger] final(self)@[k]).id == old(self)@[k].id
                    && final(self)@[k].status == old(self)@[k].status && final(self)@[k].pr_id
                    == old(self)@[k].pr_id && final(self)@[k].iteration >= old(self)@[k].iteration,
            match r {
                Result::Ok(()) => exists|k: int|
                    0 <= k < old(self)@.len() && (#[trigger] old(self)@[k]).id == monitor_id@
                        && final(self)@ == old(self)@.update(
                        k,
                        progress_applied(old(self)@[k], iteration as int, comments_fixed as int, now@),
                    ),
                Result::Err(MonitorError::NotFound) => {
                    &&& final(self)@ == old(self)@
                    &&& !has_id(old(self)@, monitor_id@)
                },
                Result::Err(_) => false,
            },
    {
        match self.find_index(monitor_id) {
            Option::None => Result::Err(MonitorError::NotFound),
            Option::Some(k) => {
                let ghost pre = self@;
                let active = self.records[k].status.is_active();
                if active && iteration >= self.records[k].iteration {
                    let mut m = self.records[k].clone();
                    m.iteration = iteration;
                    m.last_check_at = Option::Some(String::from_str(now));
                    m.comments_fixed = sat_add_i32(m.comments_fixed, comments_fixed);
                    self.records[k] = m;
                    proof {
                        assert(self@ =~= pre.update(
                            k as int,
                            progress_applied(pre[k as int], iteration as int, comments_fixed as int, now@),
                        ));
                    }
                } else {
                    proof {
                        assert(self@ =~= pre.update(
                            k as int,
                            progress_applied(pre[k as int], iteration as int, comments_fixed as int, now@),
                        ));
                    }
                }
                Result::Ok(())
            },
        }
    }

    /// Transition the record with the id to a terminal status. Applies
    /// only when the record is active; a record already terminal is left
    /// as it is, so terminal transitions are idempotent.
    pub fn finish(
        &mut self,
        monitor_id: &str,
        status: MonitorStatus,
        reason: ExitReason,
        now: &str,
    ) -> (r: Result<(), MonitorError>)
        requires
            old(self).inv(),
            is_terminal_status(status),
        ensures
            final(self).inv(),
            final(self)@.len() == old(self)@.len(),
            forall|k: int|
                0 <= k < old(self)@.len() ==> (#[trigger] final(self)@[k]).id == old(self)@[k].id
                    && final(self)@[k].pr_id == old(self)@[k].pr_id && final(self)@[k].iteration
                    >= old(self)@[k].iteration,
            match r {
                Result::Ok(()) => exists|k: int|
                    0 <= k < old(self)@.len() && (#[trigger] old(self)@[k]).id == monitor_id@
                        && final(self)@ == old(self)@.update(
                        k,
                        finish_applied(old(self)@[k], status, reason, now@),
                    ),
                Result::Err(MonitorError::NotFound) => {
                    &&& final(self)@ == old(self)@
                    &&& !has_id(old(self)@, monitor_id@)
                },
                Result::Err(_) => false,
            },
    {
        match self.find_index(monitor_id) {
            Option::None => Result::Err(MonitorError::NotFound),
            Option::Some(k) => {
                let ghost pre = self@;
                let active = self.records[k].status.is_active();
                if active {
                    let mut m = self.records[k].clone();
                    m.status = status;
                    m.ended_at = Option::Some(String::from_str(now));
                    m.exit_reason = Option::Some(reason);
                    m.pid = Option::None;
                    self.records[k] = m;
                    proof {
                        assert(self@ =~= pre.update(
                            k as int,
                            finish_applied(pre[k as int], status, reason, now@),
                        ));
                    }
                } else {
                    proof {
                        assert(self@ =~= pre.update(
                            k as int,
                            finish_applied(pre[k as int], status, reason, now@),
                        ));
                    }
                }
                Result::Ok(())
            },
        }
    }

    /// Fill in the process id of the record with the id.
    pub fn set_pid(&mut self, monitor_id: &str, pid: i32) -> (r: Result<(), MonitorError>)
        requires
            old(self).inv(),
        ensures
            final(self).inv(),
            match r {
                Result::Ok(()) => exists|k: int|
                    0 <= k < old(self)@.len() && (#[trigger] old(self)@[k]).id == monitor_id@
                        && final(self)@ == old(self)@.update(k, with_pid_view(old(self)@[k], pid as int)),
                Result::Err(MonitorError::NotFound) => {
                    &&& final(self)@ == old(self)@
                    &&& !has_id(old(self)@, monitor_id@)
                },
                Result::Err(_) => false,
            },
    {
        match self.find_index(monitor_id) {
            Option::None => Result::Err(MonitorError::NotFound),
            Option::Some(k) => {
                let ghost pre = self@;
                let mut m = self.records[k].clone();
                m.pid = Option::Some(pid);
                self.records[k] = m;
                proof {
                    assert(self@ =~= pre.update(k as int, with_pid_view(pre[k as int], pid as int)));
                }
                Result::Ok(())
            },
        }
    }

    /// How many records are active.
    pub fn active_count(&self) -> (r: i32)
        requires
            self.inv(),
        ensures
            r as int == count_active(self@),
            0 <= r,
    {
        let n = self.records.len();
        let mut i: usize = 0;
        let mut acc: i32 = 0;
        proof {
            assert(self@.subrange(0, 0) =~= Seq::<MonitorView>::empty());
        }
        while i < n
            invariant
                self.inv(),
                n == self@.len(),
                i <= n,
                0 <= acc as int <= i,
                acc as int == count_active(self@.subrange(0, i as int)),
            decreases n - i,
        {
            proof {
                assert(self@.subrange(0, i + 1).drop_last() =~= self@.subrange(0, i as int));
                assert(self@.subrange(0, i + 1).last() == self@[i as int]);
            }
            if self.records[i].status.is_active() {
                acc = acc + 1;
            }
            i += 1;
        }
        proof {
            assert(self@.subrange(0, n as int) =~= self@);
        }
        acc
    }

    /// Resolve every record left active with no process behind it: each
    /// becomes `failed` with reason `orphaned`. Returns how many were
    /// resolved. Meant for startup, before any process is spawned.
    pub fn orphan_active(&mut self, now: &str) -> (r: i32)
        requires
            old(self).inv(),
        ensures
            final(self).inv(),
            final(self)@.len() == old(self)@.len(),
            forall|k: int|
                0 <= k < old(self)@.len() ==> #[trigger] final(self)@[k] == finish_applied(
                    old(self)@[k],
                    MonitorStatus::Failed,
                    ExitReason::Orphaned,
                    now@,
                ),
            r as int == count_active(old(self)@),
    {
        let n = self.records.len();
        let ghost pre = self@;
        let mut i: usize = 0;
        let mut acc: i32 = 0;
        proof {
            assert(pre.subrange(0, 0) =~= Seq::<MonitorView>::empty());
        }
        while i < n
            invariant
                n == self@.len(),
                n == pre.len(),
                pre.len() <= i32::MAX as int,
                i <= n,
                0 <= acc as int <= i,
                acc as int == count_active(pre.subrange(0, i as int)),
                forall|k: int|
                    0 <= k < i ==> #[trigger] self@[k] == finish_applied(
                        pre[k],
                        MonitorStatus::Failed,
                        ExitReason::Orphaned,
                        now@,
                    ),
                forall|k: int| i <= k < n ==> #[trigger] self@[k] == pre[k],
            decreases n - i,
        {
            proof {
                assert(pre.subrange(0, i + 1).drop_last() =~= pre.subrange(0, i as int));
                assert(pre.subrange(0, i + 1).last() == pre[i as int]);
                assert(self@[i as int] == self.records@[i as int]@);
                assert(self@[i as int] == pre[i as int]);
            }
            if self.records[i].status.is_active() {
                let mut m = self.records[i].clone();
                m.status = MonitorStatus::Failed;
                m.ended_at = Option::Some(String::from_str(now));
                m.exit_reason = Option::Some(ExitReason::Orphaned);
                m.pid = Option::None;
                let ghost mid = self@;
                self.records[i] = m;
                acc = acc + 1;
                proof {
                    assert(forall|k: int|
                        0 <= k < n && k != i ==> #[trigger] self@[k] == mid[k]);
                    assert(self@[i as int] == self.records@[i as int]@);
                    assert(self@[i as int] == finished_view(
                        pre[i as int],
                        MonitorStatus::Failed,
                        ExitReason::Orphaned,
                        now@,
                    ));
                }
            }
            proof {
                assert(self@[i as int] == finish_applied(
                    pre[i as int],
                    MonitorStatus::Failed,
                    ExitReason::Orphaned,
                    now@,
                ));
            }
            i += 1;
        }
        proof {
            assert(pre.subrange(0, n as int) =~= pre);
            assert(forall|k: int| 0 <= k < n ==> !view_is_active(#[trigger] self@[k]));
        }
        acc
    }

    /// The records that pass the optional status and repo filters,
    /// newest first (the reverse of creation order).
    pub fn get_monitors(&self, status: Option<String>, repo: Option<String>) -> (r: Vec<Monitor>)
        ensures
            views_of(r@).len() == filtered_records(
                self@,
                crate::record::opt_str_view(status),
                crate::record::opt_str_view(repo),
            ).len(),
            forall|i: int|
                0 <= i < r@.len() ==> views_of(r@)[i] == filtered_records(
                    self@,
                    crate::record::opt_str_view(status),
                    crate::record::opt_str_view(repo),
                )[filtered_records(
                    self@,
                    crate::record::opt_str_view(status),
                    crate::record::opt_str_view(repo),
                ).len() - 1 - i],
    {
        let ghost stv = crate::record::opt_str_view(status);
        let ghost rpv = crate::record::opt_str_view(repo);
        let n = self.records.len();
        let mut fwd: Vec<Monitor> = Vec::new();
        let mut i: usize = 0;
        proof {
            assert(self@.subrange(0, 0) =~= Seq::<MonitorView>::empty());
            assert(views_of(fwd@) =~= Seq::<MonitorView>::empty());
        }
        while i < n
            invariant
                n == self@.len(),
                i <= n,
                stv == crate::record::opt_str_view(status),
                rpv == crate::record::opt_str_view(repo),
                views_of(fwd@) == filtered_records(self@.subrange(0, i as int), stv, rpv),
            decreases n - i,
        {
            proof {
                assert(self@.subrange(0, i + 1).drop_last() =~= self@.subrange(0, i as int));
                assert(self@.subrange(0, i + 1).last() == self@[i as int]);
            }
            let rec = &self.records[i];
            let keep_status = match &status {
                Option::Some(f) => str_eq(f.as_str(), "all") || str_eq(rec.status.as_str(), f.as_str()),
                Option::None => true,
            };
            let keep_repo = match &repo {
                Option::Some(f) => str_eq(rec.repo.as_str(), f.as_str()),
                Option::None => true,
            };
            if keep_status && keep_repo {
                let ghost pre = views_of(fwd@);
                fwd.push(self.records[i].clone());
                proof {
                    assert(views_of(fwd@) =~= pre + seq![self@[i as int]]);
                    assert(views_of(fwd@) =~= filtered_records(self@.subrange(0, i + 1), stv, rpv));
                }
            } else {
                proof {
                    assert(filtered_records(self@.subrange(0, i + 1), stv, rpv) =~= views_of(fwd@));
                }
            }
            i += 1;
        }
        proof {
            assert(self@.subrange(0, n as int) =~= self@);
        }
        let m = fwd.len();
        let mut out: Vec<Monitor> = Vec::new();
        let mut j: usize = 0;
        while j < m
            invariant
                m == fwd@.len(),
                j <= m,
                out@.len() == j,
                forall|t: int| 0 <= t < j ==> (#[trigger] out@[t])@ == fwd@[m - 1 - t]@,
            decreases m - j,
        {
            let ghost pre = out@;
            out.push(fwd[m - 1 - j].clone());
            proof {
                assert(forall|t: int| 0 <= t < j ==> #[trigger] out@[t] == pre[t]);
                assert(out@[j as int]@ == fwd@[m - 1 - j as int]@);
            }
            j += 1;
        }
        proof {
            assert forall|i: int| 0 <= i < out@.len() implies views_of(out@)[i] == filtered_records(
                self@,
                stv,
                rpv,
            )[m - 1 - i] by {
                assert(views_of(out@)[i] == out@[i]@);
                assert(views_of(fwd@)[m - 1 - i] == fwd@[m - 1 - i]@);
                assert(views_of(fwd@) == filtered_records(self@, stv, rpv));
            }
        }
        out
    }
}

} // verus!
