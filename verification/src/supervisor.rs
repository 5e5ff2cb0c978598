//! The supervisor: the public operation set over records and handles.
//!
//! A supervisor owns the record store and the handle registry and keeps
//! them consistent: every registered handle belongs to an active record.
//! Operations that need the operating system — spawning a child, sending
//! it a signal, reading the clock — are split in two: the supervisor
//! decides and accounts, the embedding acts. `start_monitor` creates the
//! record before the embedding spawns; `attach_process` or
//! `spawn_failed` records the outcome, rolling the record back to a
//! terminal state when the spawn failed, so a record is never left
//! active with no process behind it.

use vstd::prelude::*;
use vstd::string::*;
use crate::events::{MonitorCompletedPayload, MonitorOutputPayload, MonitorStatePayload};
use crate::record::{Monitor, MonitorView, view_is_active};
use crate::registry::{has_handle, HandleView, ProcessRegistry};
use crate::relay::{
    spec_classify_exit, spec_classify_line, spec_observe, LineMarker, RelayState, StatusKind,
};
use crate::status::{ExitReason, MonitorError, MonitorStatus};
use crate::store::{
    count_active, finish_applied, has_active_subject, has_id, progress_applied, with_pid_view,
    MonitorStore,
};

verus! {

/// Who asked for a stop.
#[derive(Clone, Copy, Debug, PartialEq, Eq, Structural)]
pub enum StopOrigin {
    /// The local user interface.
    User,
    /// The control surface for outside callers.
    Api,
}

/// The exit reason a stop origin writes.
pub open spec fn stop_reason(o: StopOrigin) -> ExitReason {
    match o {
        StopOrigin::User => ExitReason::UserStopped,
        StopOrigin::Api => ExitReason::ApiStopped,
    }
}

/// The exit reason a stop origin writes.
fn stop_reason_exec(o: StopOrigin) -> (r: ExitReason)
    ensures
        r == stop_reason(o),
{
    match o {
        StopOrigin::User => ExitReason::UserStopped,
        StopOrigin::Api => ExitReason::ApiStopped,
    }
}

/// Some record carries the id and is active.
pub open spec fn has_active_id(records: Seq<MonitorView>, id: Seq<char>) -> bool {
    exists|k: int|
        0 <= k < records.len() && (#[trigger] records[k]).id == id && view_is_active(records[k])
}

/// Every handle belongs to an active record.
pub open spec fn linked(handles: Seq<HandleView>, records: Seq<MonitorView>) -> bool {
    forall|h: int|
        0 <= h < handles.len() ==> has_active_id(records, (#[trigger] handles[h]).monitor_id)
}

/// `x` is one of the handles of `s`.
pub open spec fn member_of(s: Seq<HandleView>, x: HandleView) -> bool {
    exists|t: int| 0 <= t < s.len() && (#[trigger] s[t]) == x
}

/// The view of a freshly created record.
pub open spec fn new_record_view(
    id: Seq<char>,
    pr_id: Seq<char>,
    pr_number: int,
    repo: Seq<char>,
    max_iterations: int,
    interval_minutes: int,
    started_at: Seq<char>,
    next_check_at: Seq<char>,
    log_file: Seq<char>,
) -> MonitorView {
    MonitorView {
        id: id,
        pr_id: pr_id,
        pr_number: pr_number,
        repo: repo,
        pid: Option::None,
        status: MonitorStatus::Running,
        iteration: 0,
        max_iterations: max_iterations,
        interval_minutes: interval_minutes,
        started_at: started_at,
        last_check_at: Option::None,
        next_check_at: Option::Some(next_check_at),
        ended_at: Option::None,
        comments_fixed: 0,
        exit_reason: Option::None,
        log_file: log_file,
    }
}

/// Handles drawn from a linked set are themselves linked.
proof fn lemma_link_for_subset(h0: Seq<HandleView>, h1: Seq<HandleView>, s: Seq<MonitorView>)
    requires
        forall|h: int| 0 <= h < h1.len() ==> member_of(h0, #[trigger] h1[h]),
        linked(h0, s),
    ensures
        linked(h1, s),
{
    assert forall|h: int|
        0 <= h < h1.len() implies has_active_id(s, (#[trigger] h1[h]).monitor_id) by {
        let t = choose|t: int| 0 <= t < h0.len() && (#[trigger] h0[t]) == h1[h];
        assert(has_active_id(s, h0[t].monitor_id));
    }
}

/// After `kill`, every remaining handle is one of the original handles.
proof fn lemma_registry_shrank(
    h0: Seq<HandleView>,
    h1: Seq<HandleView>,
    id: Seq<char>,
    killed: Option<u32>,
)
    requires
        match killed {
            Option::Some(p) => exists|k: int|
                0 <= k < h0.len() && (#[trigger] h0[k]).monitor_id == id && h0[k].pid == p && h1
                    == h0.remove(k),
            Option::None => h1 == h0,
        },
    ensures
        forall|h: int| 0 <= h < h1.len() ==> member_of(h0, #[trigger] h1[h]),
{
    match killed {
        Option::Some(p) => {
            let hk = choose|k: int|
                0 <= k < h0.len() && (#[trigger] h0[k]).monitor_id == id && h0[k].pid == p && h1
                    == h0.remove(k);
            h0.remove_ensures(hk);
            assert forall|h: int| 0 <= h < h1.len() implies member_of(h0, #[trigger] h1[h]) by {
                if h < hk {
                    assert(h0.remove(hk)[h] == h0[h]);
                    assert((#[trigger] h0[h]) == h1[h]);
                } else {
                    assert(h0.remove(hk)[h] == h0[h + 1]);
                    assert((#[trigger] h0[h + 1]) == h1[h]);
                }
            }
        },
        Option::None => {
            assert forall|h: int| 0 <= h < h1.len() implies member_of(h0, #[trigger] h1[h]) by {
                assert((#[trigger] h0[h]) == h1[h]);
            }
        },
    }
}

/// A store change that keeps every record's id and activity away from
/// one id keeps the handles linked, provided no handle carries that id.
proof fn lemma_link_after_finish(
    handles: Seq<HandleView>,
    s0: Seq<MonitorView>,
    s1: Seq<MonitorView>,
    monitor_id: Seq<char>,
)
    requires
        linked(handles, s0),
        !has_handle(handles, monitor_id),
        s1.len() == s0.len(),
        forall|t: int| 0 <= t < s0.len() && s0[t].id != monitor_id ==> #[trigger] s1[t] == s0[t],
    ensures
        linked(handles, s1),
{
    assert forall|h: int|
        0 <= h < handles.len() implies has_active_id(s1, (#[trigger] handles[h]).monitor_id) by {
        let k = choose|k: int|
            0 <= k < s0.len() && (#[trigger] s0[k]).id == handles[h].monitor_id && view_is_active(
                s0[k],
            );
        assert(handles[h].monitor_id != monitor_id);
        assert(s1[k] == s0[k]);
    }
}

/// The supervisor.
pub struct Supervisor {
    store: MonitorStore,
    registry: ProcessRegistry,
}

impl Supervisor {
    /// The stored records, as views, in creation order.
    pub closed spec fn records(&self) -> Seq<MonitorView> {
        self.store@
    }

    /// The registered handles, as views, in registration order.
    pub closed spec fn handles(&self) -> Seq<HandleView> {
        self.registry@
    }

    /// The supervisor's invariant: the store's and the registry's own
    /// rules, and the link between them — every registered handle
    /// belongs to an active record.
    pub closed spec fn inv(&self) -> bool {
        &&& self.store.inv()
        &&& self.registry.inv()
        &&& linked(self.registry@, self.store@)
    }

    /// At most one active record per subject key, at every instant:
    /// two active records with the same subject key are the same record.
    pub proof fn lemma_one_active_per_subject(&self, i: int, j: int)
        requires
            self.inv(),
            0 <= i < self.records().len(),
            0 <= j < self.records().len(),
            view_is_active(self.records()[i]),
            view_is_active(self.records()[j]),
            self.records()[i].pr_id == self.records()[j].pr_id,
        ensures
            i == j,
    {
    }

    /// Monitor ids are unique, at every instant: two records with the
    /// same id are the same record.
    pub proof fn lemma_unique_monitor_id(&self, i: int, j: int)
        requires
            self.inv(),
            0 <= i < self.records().len(),
            0 <= j < self.records().len(),
            self.records()[i].id == self.records()[j].id,
        ensures
            i == j,
    {
    }

    /// A supervisor with no records and no handles.
    pub fn new() -> (r: Self)
        ensures
            r.inv(),
            r.records() =~= Seq::<MonitorView>::empty(),
            r.handles() =~= Seq::<HandleView>::empty(),
    {
        Supervisor { store: MonitorStore::new(), registry: ProcessRegistry::new() }
    }

    /// Create the record for a new monitor from explicit identity,
    /// timestamps and configuration. Refused with `AlreadyActive` when
    /// an active record for the subject exists, with `StoreError` when
    /// the id is taken; otherwise the record is appended, `running`,
    /// at iteration zero, with no process yet.
    pub fn start_monitor_internal(
        &mut self,
        id: String,
        pr_id: String,
        pr_number: i32,
        repo: String,
        max_iterations: i32,
        interval_minutes: i32,
        started_at: String,
        next_check_at: String,
        log_file: String,
    ) -> (r: Result<Monitor, MonitorError>)
        requires
            old(self).inv(),
            old(self).records().len() < i32::MAX as int,
        ensures
            final(self).inv(),
            final(self).handles() == old(self).handles(),
            match r {
                Result::Ok(m) => {
                    &&& m@ == new_record_view(
                        id@,
                        pr_id@,
                        pr_number as int,
                        repo@,
                        max_iterations as int,
                        interval_minutes as int,
                        started_at@,
                        next_check_at@,
                        log_file@,
                    )
                    &&& final(self).records() =~= old(self).records().push(m@)
                    &&& !has_active_subject(old(self).records(), pr_id@)
                    &&& !has_id(old(self).records(), id@)
                },
                Result::Err(MonitorError::AlreadyActive) => {
                    &&& final(self).records() == old(self).records()
                    &&& has_active_subject(old(self).records(), pr_id@)
                },
                Result::Err(MonitorError::StoreError) => {
                    &&& final(self).records() == old(self).records()
                    &&& !has_active_subject(old(self).records(), pr_id@)
                    &&& has_id(old(self).records(), id@)
                },
                Result::Err(_) => false,
            },
    {
        let m = Monitor {
            id: id,
            pr_id: pr_id,
            pr_number: pr_number,
            repo: repo,
            pid: Option::None,
            status: MonitorStatus::Running,
            iteration: 0,
            max_iterations: max_iterations,
            interval_minutes: interval_minutes,
            started_at: started_at,
            last_check_at: Option::None,
            next_check_at: Option::Some(next_check_at),
            ended_at: Option::None,
            comments_fixed: 0,
            exit_reason: Option::None,
            log_file: log_file,
        };
        let copy = m.clone();
        let ghost s0 = self.store@;
        let res = self.store.create(m);
        proof {
            assert forall|h: int|
                0 <= h < self.registry@.len() implies has_active_id(
                self.store@,
                (#[trigger] self.registry@[h]).monitor_id,
            ) by {
                let k = choose|k: int|
                    0 <= k < s0.len() && (#[trigger] s0[k]).id == self.registry@[h].monitor_id
                        && view_is_active(s0[k]);
                assert(self.store@[k] == s0[k]);
            }
        }
        match res {
            Result::Ok(()) => Result::Ok(copy),
            Result::Err(e) => Result::Err(e),
        }
    }

    /// Create the record for a new monitor: a fresh id, the clock's
    /// timestamps, and the configured caps with their defaults (ten
    /// iterations, fifteen minutes) where omitted. The embedding spawns
    /// the child next and reports through `attach_process` or
    /// `spawn_failed`.
    pub fn start_monitor(
        &mut self,
        pr_id: String,
        pr_number: i32,
        repo: String,
        max_iterations: Option<i32>,
        interval_minutes: Option<i32>,
        log_file: String,
    ) -> (r: Result<Monitor, MonitorError>)
        requires
            old(self).inv(),
            old(self).records().len() < i32::MAX as int,
        ensures
            final(self).inv(),
            final(self).handles() == old(self).handles(),
            has_active_subject(old(self).records(), pr_id@) ==> r is Err,
            match r {
                Result::Ok(m) => {
                    &&& !has_active_subject(old(self).records(), pr_id@)
                    &&& m@.id.len() == 36
                    &&& m@.pr_id == pr_id@
                    &&& m@.pr_number == pr_number as int
                    &&& m@.repo == repo@
                    &&& m@.status == MonitorStatus::Running
                    &&& m@.iteration == 0
                    &&& m@.comments_fixed == 0
                    &&& m@.pid is None
                    &&& m@.exit_reason is None
                    &&& m@.ended_at is None
                    &&& m@.last_check_at is None
                    &&& m@.next_check_at is Some
                    &&& m@.max_iterations == (match max_iterations {
                        Option::Some(v) => v as int,
                        Option::None => 10,
                    })
                    &&& m@.interval_minutes == (match interval_minutes {
                        Option::Some(v) => v as int,
                        Option::None => 15,
                    })
                    &&& m@.log_file == log_file@
                    &&& final(self).records() =~= old(self).records().push(m@)
                },
                Result::Err(MonitorError::AlreadyActive) => {
                    &&& final(self).records() == old(self).records()
                    &&& has_active_subject(old(self).records(), pr_id@)
                },
                Result::Err(MonitorError::StoreError) => {
                    &&& final(self).records() == old(self).records()
                    &&& !has_active_subject(old(self).records(), pr_id@)
                    &&& old(self).records().len() > 0
                },
                Result::Err(_) => false,
            },
    {
        let max_iter = match max_iterations {
            Option::Some(v) => v,
            Option::None => 10,
        };
        let interval = match interval_minutes {
            Option::Some(v) => v,
            Option::None => 15,
        };
        let id = crate::ambient::new_monitor_id();
        let ghost idv = id@;
        let started_at = crate::ambient::now_rfc3339();
        let next_check_at = crate::ambient::rfc3339_after_minutes(interval as i64);
        let r = self.start_monitor_internal(
            id,
            pr_id,
            pr_number,
            repo,
            max_iter,
            interval,
            started_at,
            next_check_at,
            log_file,
        );
        proof {
            // An id collision needs a record to collide with.
            if has_id(old(self).records(), idv) {
                let k = choose|k: int|
                    0 <= k < old(self).records().len() && (#[trigger] old(self).records()[k]).id
                        == idv;
                assert(old(self).records().len() > 0);
            }
        }
        r
    }

    /// Record that the child for a monitor was spawned with the given
    /// process id: the record keeps the pid and the handle is
    /// registered. A record no longer active is left alone — its
    /// process is not adopted. Exactly one handle may exist per monitor
    /// id, so the caller reports each spawn once.
    pub fn attach_process(&mut self, monitor_id: &str, pid: u32) -> (r: Result<(), MonitorError>)
        requires
            old(self).inv(),
            !has_handle(old(self).handles(), monitor_id@),
            pid <= i32::MAX as u32,
        ensures
            final(self).inv(),
            match r {
                Result::Ok(()) => exists|k: int|
                    {
                        &&& 0 <= k < old(self).records().len()
                        &&& (#[trigger] old(self).records()[k]).id == monitor_id@
                        &&& if view_is_active(old(self).records()[k]) {
                            &&& final(self).records() == old(self).records().update(
                                k,
                                with_pid_view(old(self).records()[k], pid as int),
                            )
                            &&& final(self).handles() =~= old(self).handles().push(
                                HandleView { monitor_id: monitor_id@, pid: pid },
                            )
                        } else {
                            &&& final(self).records() == old(self).records()
                            &&& final(self).handles() == old(self).handles()
                        }
                    },
                Result::Err(MonitorError::NotFound) => {
                    &&& final(self).records() == old(self).records()
                    &&& final(self).handles() == old(self).handles()
                    &&& !has_id(old(self).records(), monitor_id@)
                },
                Result::Err(_) => false,
            },
    {
        let found = self.store.get_monitor(monitor_id);
        match found {
            Option::None => Result::Err(MonitorError::NotFound),
            Option::Some(m) => {
                let ghost s0 = self.store@;
                let ghost h0 = self.registry@;
                let ghost km = choose|j: int|
                    0 <= j < s0.len() && (#[trigger] s0[j]).id == monitor_id@ && m@ == s0[j];
                if m.status.is_active() {
                    let res = self.store.set_pid(monitor_id, pid as i32);
                    proof {
                        if res is Err {
                            assert(has_id(s0, monitor_id@));
                            assert(false);
                        }
                    }
                    self.registry.register(String::from_str(monitor_id), pid);
                    proof {
                        let k = choose|k: int|
                            0 <= k < s0.len() && (#[trigger] s0[k]).id == monitor_id@
                                && self.store@ == s0.update(k, with_pid_view(s0[k], pid as int));
                        assert(km == k);
                        assert(view_is_active(self.store@[k]));
                        assert(forall|t: int|
                            0 <= t < s0.len() && t != k ==> self.store@[t] == s0[t]);
                        assert forall|h: int|
                            0 <= h < self.registry@.len() implies has_active_id(
                            self.store@,
                            (#[trigger] self.registry@[h]).monitor_id,
                        ) by {
                            if h < self.registry@.len() - 1 {
                                assert(self.registry@[h] == h0[h]);
                                let t = choose|t: int|
                                    0 <= t < s0.len() && (#[trigger] s0[t]).id
                                        == h0[h].monitor_id && view_is_active(s0[t]);
                                assert(self.store@[t].id == self.registry@[h].monitor_id
                                    && view_is_active(self.store@[t]));
                            } else {
                                assert(self.registry@[h].monitor_id == monitor_id@);
                                assert(self.store@[k].id == monitor_id@ && view_is_active(
                                    self.store@[k],
                                ));
                            }
                        }
                        assert({
                            &&& 0 <= km < old(self).records().len()
                            &&& old(self).records()[km].id == monitor_id@
                            &&& view_is_active(old(self).records()[km])
                            &&& self.records() == old(self).records().update(
                                km,
                                with_pid_view(old(self).records()[km], pid as int),
                            )
                            &&& self.handles() =~= old(self).handles().push(
                                HandleView { monitor_id: monitor_id@, pid: pid },
                            )
                        });
                    }
                    Result::Ok(())
                } else {
                    proof {
                        assert({
                            &&& 0 <= km < old(self).records().len()
                            &&& old(self).records()[km].id == monitor_id@
                            &&& !view_is_active(old(self).records()[km])
                            &&& self.records() == old(self).records()
                            &&& self.handles() == old(self).handles()
                        });
                    }
                    Result::Ok(())
                }
            },
        }
    }

    /// Record that the spawn for a monitor failed: the record is rolled
    /// back from active to `failed` with reason `spawn_failed`, so it is
    /// never left active with no process behind it.
    pub fn spawn_failed(&mut self, monitor_id: &str, now: &str) -> (r: Result<(), MonitorError>)
        requires
            old(self).inv(),
            !has_handle(old(self).handles(), monitor_id@),
        ensures
            final(self).inv(),
            final(self).handles() == old(self).handles(),
            match r {
                Result::Ok(()) => exists|k: int|
                    {
                        &&& 0 <= k < old(self).records().len()
                        &&& (#[trigger] old(self).records()[k]).id == monitor_id@
                        &&& final(self).records() == old(self).records().update(
                            k,
                            finish_applied(
                                old(self).records()[k],
                                MonitorStatus::Failed,
                                ExitReason::SpawnFailed,
                                now@,
                            ),
                        )
                    },
                Result::Err(MonitorError::NotFound) => {
                    &&& final(self).records() == old(self).records()
                    &&& !has_id(old(self).records(), monitor_id@)
                },
                Result::Err(_) => false,
            },
    {
        let ghost s0 = self.store@;
        let res = self.store.finish(
            monitor_id,
            MonitorStatus::Failed,
            ExitReason::SpawnFailed,
            now,
        );
        match res {
            Result::Ok(()) => {
                proof {
                    let k = choose|k: int|
                        0 <= k < s0.len() && (#[trigger] s0[k]).id == monitor_id@ && self.store@
                            == s0.update(
                            k,
                            finish_applied(
                                s0[k],
                                MonitorStatus::Failed,
                                ExitReason::SpawnFailed,
                                now@,
                            ),
                        );
                    assert(forall|t: int|
                        0 <= t < s0.len() && t != k ==> self.store@[t] == s0[t]);
                    lemma_link_after_finish(self.registry@, s0, self.store@, monitor_id@);
                    assert({
                        &&& 0 <= k < old(self).records().len()
                        &&& old(self).records()[k].id == monitor_id@
                        &&& self.records() == old(self).records().update(
                            k,
                            finish_applied(
                                old(self).records()[k],
                                MonitorStatus::Failed,
                                ExitReason::SpawnFailed,
                                now@,
                            ),
                        )
                    });
                }
                Result::Ok(())
            },
            Result::Err(e) => Result::Err(e),
        }
    }

    /// The shared terminal transition: drop the handle, then move an
    /// active record to the terminal status.
    fn finish_with(
        &mut self,
        monitor_id: &str,
        status: MonitorStatus,
        reason: ExitReason,
        now: &str,
    ) -> (r: Result<Option<u32>, MonitorError>)
        requires
            old(self).inv(),
            crate::status::is_terminal_status(status),
        ensures
            final(self).inv(),
            !has_handle(final(self).handles(), monitor_id@),
            match r {
                Result::Ok(killed) => {
                    &&& exists|k: int|
                        {
                            &&& 0 <= k < old(self).records().len()
                            &&& (#[trigger] old(self).records()[k]).id == monitor_id@
                            &&& final(self).records() == old(self).records().update(
                                k,
                                finish_applied(old(self).records()[k], status, reason, now@),
                            )
                        }
                    &&& (match killed {
                        Option::Some(p) => exists|h: int|
                            0 <= h < old(self).handles().len() && (#[trigger] old(
                                self,
                            ).handles()[h]).monitor_id == monitor_id@ && old(self).handles()[h].pid
                                == p && final(self).handles() == old(self).handles().remove(h),
                        Option::None => final(self).handles() == old(self).handles(),
                    })
                },
                Result::Err(MonitorError::NotFound) => {
                    &&& final(self).records() == old(self).records()
                    &&& final(self).handles() == old(self).handles()
                    &&& !has_id(old(self).records(), monitor_id@)
                },
                Result::Err(_) => false,
            },
    {
        let ghost s0 = self.store@;
        let ghost h0 = self.registry@;
        let killed = self.registry.kill(monitor_id);
        proof {
            lemma_registry_shrank(h0, self.registry@, monitor_id@, killed);
            lemma_link_for_subset(h0, self.registry@, s0);
        }
        let res = self.store.finish(monitor_id, status, reason, now);
        match res {
            Result::Ok(()) => {
                proof {
                    let k = choose|k: int|
                        0 <= k < s0.len() && (#[trigger] s0[k]).id == monitor_id@ && self.store@
                            == s0.update(k, finish_applied(s0[k], status, reason, now@));
                    assert(forall|t: int|
                        0 <= t < s0.len() && t != k ==> self.store@[t] == s0[t]);
                    lemma_link_after_finish(self.registry@, s0, self.store@, monitor_id@);
                    assert({
                        &&& 0 <= k < old(self).records().len()
                        &&& old(self).records()[k].id == monitor_id@
                        &&& self.records() == old(self).records().update(
                            k,
                            finish_applied(old(self).records()[k], status, reason, now@),
                        )
                    });
                    match killed {
                        Option::Some(p) => {
                            let h = choose|h: int|
                                0 <= h < h0.len() && (#[trigger] h0[h]).monitor_id == monitor_id@
                                    && h0[h].pid == p && self.registry@ == h0.remove(h);
                            assert(old(self).handles()[h].monitor_id == monitor_id@);
                        },
                        Option::None => {},
                    }
                }
                Result::Ok(killed)
            },
            Result::Err(e) => {
                proof {
                    lemma_link_after_finish(self.registry@, s0, self.store@, monitor_id@);
                    // With no record under the id there can be no handle
                    // either, so the kill was a no-op.
                    match killed {
                        Option::Some(p) => {
                            let h = choose|h: int|
                                0 <= h < h0.len() && (#[trigger] h0[h]).monitor_id == monitor_id@
                                    && h0[h].pid == p && self.registry@ == h0.remove(h);
                            assert(has_active_id(s0, h0[h].monitor_id));
                            let k = choose|k: int|
                                0 <= k < s0.len() && (#[trigger] s0[k]).id == monitor_id@
                                    && view_is_active(s0[k]);
                            assert(has_id(s0, monitor_id@));
                            assert(false);
                        },
                        Option::None => {},
                    }
                }
                Result::Err(e)
            },
        }
    }

    /// Mark a monitor completed. The handle, if one is still registered,
    /// is dropped and handed back for the embedding to reap.
    pub fn complete_monitor(&mut self, monitor_id: &str, reason: ExitReason, now: &str) -> (r:
        Result<Option<u32>, MonitorError>)
        requires
            old(self).inv(),
        ensures
            final(self).inv(),
            !has_handle(final(self).handles(), monitor_id@),
            match r {
                Result::Ok(killed) => {
                    &&& exists|k: int|
                        {
                            &&& 0 <= k < old(self).records().len()
                            &&& (#[trigger] old(self).records()[k]).id == monitor_id@
                            &&& final(self).records() == old(self).records().update(
                                k,
                                finish_applied(
                                    old(self).records()[k],
                                    MonitorStatus::Completed,
                                    reason,
                                    now@,
                                ),
                            )
                        }
                    &&& (match killed {
                        Option::Some(p) => exists|h: int|
                            0 <= h < old(self).handles().len() && (#[trigger] old(
                                self,
                            ).handles()[h]).monitor_id == monitor_id@ && old(self).handles()[h].pid
                                == p && final(self).handles() == old(self).handles().remove(h),
                        Option::None => final(self).handles() == old(self).handles(),
                    })
                },
                Result::Err(MonitorError::NotFound) => {
                    &&& final(self).records() == old(self).records()
                    &&& final(self).handles() == old(self).handles()
                    &&& !has_id(old(self).records(), monitor_id@)
                },
                Result::Err(_) => false,
            },
    {
        self.finish_with(monitor_id, MonitorStatus::Completed, reason, now)
    }

    /// Mark a monitor failed. The handle, if one is still registered,
    /// is dropped and handed back for the embedding to reap.
    pub fn fail_monitor(&mut self, monitor_id: &str, reason: ExitReason, now: &str) -> (r: Result<
        Option<u32>,
        MonitorError,
    >)
        requires
            old(self).inv(),
        ensures
            final(self).inv(),
            !has_handle(final(self).handles(), monitor_id@),
            match r {
                Result::Ok(killed) => {
                    &&& exists|k: int|
                        {
                            &&& 0 <= k < old(self).records().len()
                            &&& (#[trigger] old(self).records()[k]).id == monitor_id@
                            &&& final(self).records() == old(self).records().update(
                                k,
                                finish_applied(
                                    old(self).records()[k],
                                    MonitorStatus::Failed,
                                    reason,
                                    now@,
                                ),
                            )
                        }
                    &&& (match killed {
                        Option::Some(p) => exists|h: int|
                            0 <= h < old(self).handles().len() && (#[trigger] old(
                                self,
                            ).handles()[h]).monitor_id == monitor_id@ && old(self).handles()[h].pid
                                == p && final(self).handles() == old(self).handles().remove(h),
                        Option::None => final(self).handles() == old(self).handles(),
                    })
                },
                Result::Err(MonitorError::NotFound) => {
                    &&& final(self).records() == old(self).records()
                    &&& final(self).handles() == old(self).handles()
                    &&& !has_id(old(self).records(), monitor_id@)
                },
                Result::Err(_) => false,
            },
    {
        self.finish_with(monitor_id, MonitorStatus::Failed, reason, now)
    }

    /// Stop a monitor: the handle, if any, is dropped and handed back
    /// for the embedding to kill; an active record becomes `stopped`
    /// with the origin's reason; a record already terminal is returned
    /// unchanged, and no kill happens — stopping twice is harmless.
    pub fn stop_monitor(&mut self, monitor_id: &str, origin: StopOrigin, now: &str) -> (r: Result<
        (Monitor, Option<u32>),
        MonitorError,
    >)
        requires
            old(self).inv(),
        ensures
            final(self).inv(),
            match r {
                Result::Ok((m, killed)) => exists|k: int|
                    {
                        &&& 0 <= k < old(self).records().len()
                        &&& (#[trigger] old(self).records()[k]).id == monitor_id@
                        &&& final(self).records() == old(self).records().update(
                            k,
                            finish_applied(
                                old(self).records()[k],
                                MonitorStatus::Stopped,
                                stop_reason(origin),
                                now@,
                            ),
                        )
                        &&& m@ == final(self).records()[k]
                        &&& !has_handle(final(self).handles(), monitor_id@)
                        &&& (view_is_active(old(self).records()[k]) ==> m@.status
                            == MonitorStatus::Stopped && m@.exit_reason == Option::Some(
                            stop_reason(origin),
                        ))
                        &&& (!view_is_active(old(self).records()[k]) ==> {
                            &&& final(self).records() == old(self).records()
                            &&& killed is None
                            &&& final(self).handles() == old(self).handles()
                            &&& m@ == old(self).records()[k]
                        })
                        &&& (match killed {
                            Option::Some(p) => exists|h: int|
                                0 <= h < old(self).handles().len() && (#[trigger] old(
                                    self,
                                ).handles()[h]).monitor_id == monitor_id@ && old(
                                    self,
                                ).handles()[h].pid == p && final(self).handles() == old(
                                    self,
                                ).handles().remove(h),
                            Option::None => final(self).handles() == old(self).handles(),
                        })
                    },
                Result::Err(MonitorError::NotFound) => {
                    &&& final(self).records() == old(self).records()
                    &&& final(self).handles() == old(self).handles()
                    &&& !has_id(old(self).records(), monitor_id@)
                },
                Result::Err(_) => false,
            },
    {
        let found = self.store.get_monitor(monitor_id);
        match found {
            Option::None => Result::Err(MonitorError::NotFound),
            Option::Some(prev) => {
                let ghost s0 = self.store@;
                let ghost h0 = self.registry@;
                let ghost k = choose|k: int|
                    0 <= k < s0.len() && (#[trigger] s0[k]).id == monitor_id@ && prev@ == s0[k];
                if prev.status.is_active() {
                    let killed = self.registry.kill(monitor_id);
                    proof {
                        lemma_registry_shrank(h0, self.registry@, monitor_id@, killed);
                        lemma_link_for_subset(h0, self.registry@, s0);
                    }
                    let res = self.store.finish(
                        monitor_id,
                        MonitorStatus::Stopped,
                        stop_reason_exec(origin),
                        now,
                    );
                    proof {
                        if res is Err {
                            assert(has_id(s0, monitor_id@));
                            assert(false);
                        }
                    }
                    let refreshed = self.store.get_monitor(monitor_id);
                    match refreshed {
                        Option::Some(m) => {
                            proof {
                                let k2 = choose|t: int|
                                    0 <= t < s0.len() && (#[trigger] s0[t]).id == monitor_id@
                                        && self.store@ == s0.update(
                                        t,
                                        finish_applied(
                                            s0[t],
                                            MonitorStatus::Stopped,
                                            stop_reason(origin),
                                            now@,
                                        ),
                                    );
                                assert(k2 == k);
                                let k3 = choose|t: int|
                                    0 <= t < self.store@.len() && (#[trigger] self.store@[t]).id
                                        == monitor_id@ && m@ == self.store@[t];
                                assert(k3 == k);
                                assert(forall|t: int|
                                    0 <= t < s0.len() && t != k ==> self.store@[t] == s0[t]);
                                lemma_link_after_finish(
                                    self.registry@,
                                    s0,
                                    self.store@,
                                    monitor_id@,
                                );
                                match killed {
                                    Option::Some(p) => {
                                        let h = choose|h: int|
                                            0 <= h < h0.len() && (#[trigger] h0[h]).monitor_id
                                                == monitor_id@ && h0[h].pid == p && self.registry@
                                                == h0.remove(h);
                                        assert(old(self).handles()[h].monitor_id == monitor_id@);
                                    },
                                    Option::None => {},
                                }
                                assert({
                                    &&& 0 <= k < old(self).records().len()
                                    &&& old(self).records()[k].id == monitor_id@
                                    &&& self.records() == old(self).records().update(
                                        k,
                                        finish_applied(
                                            old(self).records()[k],
                                            MonitorStatus::Stopped,
                                            stop_reason(origin),
                                            now@,
                                        ),
                                    )
                                    &&& m@ == self.records()[k]
                                    &&& !has_handle(self.handles(), monitor_id@)
                                    &&& view_is_active(old(self).records()[k])
                                });
                            }
                            Result::Ok((m, killed))
                        },
                        Option::None => {
                            proof {
                                assert(self.store@[k].id == monitor_id@);
                                assert(has_id(self.store@, monitor_id@));
                                assert(false);
                            }
                            Result::Err(MonitorError::NotFound)
                        },
                    }
                } else {
                    proof {
                        // A terminal record can have no handle: a handle's record
                        // is active, and ids are unique.
                        if has_handle(h0, monitor_id@) {
                            let h = choose|h: int|
                                0 <= h < h0.len() && (#[trigger] h0[h]).monitor_id == monitor_id@;
                            assert(has_active_id(s0, h0[h].monitor_id));
                            let t = choose|t: int|
                                0 <= t < s0.len() && (#[trigger] s0[t]).id == h0[h].monitor_id
                                    && view_is_active(s0[t]);
                            assert(t == k);
                            assert(false);
                        }
                        assert(s0.update(
                            k,
                            finish_applied(
                                s0[k],
                                MonitorStatus::Stopped,
                                stop_reason(origin),
                                now@,
                            ),
                        ) =~= s0);
                        assert({
                            &&& 0 <= k < old(self).records().len()
                            &&& old(self).records()[k].id == monitor_id@
                            &&& self.records() == old(self).records().update(
                                k,
                                finish_applied(
                                    old(self).records()[k],
                                    MonitorStatus::Stopped,
                                    stop_reason(origin),
                                    now@,
                                ),
                            )
                            &&& prev@ == self.records()[k]
                            &&& !has_handle(self.handles(), monitor_id@)
                            &&& !view_is_active(old(self).records()[k])
                            &&& self.handles() == old(self).handles()
                        });
                    }
                    Result::Ok((prev, Option::None))
                }
            },
        }
    }

    /// Record iteration progress for a monitor, as relayed from its
    /// output stream: active records only, never backwards.
    pub fn update_monitor_iteration(
        &mut self,
        monitor_id: &str,
        iteration: i32,
        comments_fixed: i32,
        now: &str,
    ) -> (r: Result<(), MonitorError>)
        requires
            old(self).inv(),
        ensures
            final(self).inv(),
            final(self).handles() == old(self).handles(),
            final(self).records().len() == old(self).records().len(),
            forall|t: int|
                0 <= t < old(self).records().len() ==> (#[trigger] final(self).records()[t]).id
                    == old(self).records()[t].id && final(self).records()[t].status == old(
                    self,
                ).records()[t].status && final(self).records()[t].iteration >= old(
                    self,
                ).records()[t].iteration,
            match r {
                Result::Ok(()) => exists|k: int|
                    0 <= k < old(self).records().len() && (#[trigger] old(self).records()[k]).id
                        == monitor_id@ && final(self).records() == old(self).records().update(
                        k,
                        progress_applied(
                            old(self).records()[k],
                            iteration as int,
                            comments_fixed as int,
                            now@,
                        ),
                    ),
                Result::Err(MonitorError::NotFound) => {
                    &&& final(self).records() == old(self).records()
                    &&& !has_id(old(self).records(), monitor_id@)
                },
                Result::Err(_) => false,
            },
    {
        let ghost s0 = self.store@;
        let r = self.store.update_monitor_iteration(monitor_id, iteration, comments_fixed, now);
        proof {
            assert forall|h: int|
                0 <= h < self.registry@.len() implies has_active_id(
                self.store@,
                (#[trigger] self.registry@[h]).monitor_id,
            ) by {
                let t = choose|t: int|
                    0 <= t < s0.len() && (#[trigger] s0[t]).id == self.registry@[h].monitor_id
                        && view_is_active(s0[t]);
                assert(self.store@[t].id == s0[t].id);
                assert(self.store@[t].status == s0[t].status);
            }
        }
        r
    }

    /// Reconcile a process exit with the store: classify from the last
    /// status marker, transition the record if it is still active, drop
    /// the handle, and report the completion event and the new active
    /// count for publication.
    pub fn handle_process_exit(
        &mut self,
        monitor_id: &str,
        pr_id: &str,
        last_status: Option<StatusKind>,
        now: &str,
    ) -> (r: (MonitorCompletedPayload, i32))
        requires
            old(self).inv(),
        ensures
            final(self).inv(),
            r.0.monitor_id@ == monitor_id@,
            r.0.pr_id@ == pr_id@,
            r.0.exit_reason == spec_classify_exit(last_status).0,
            r.0.status == spec_classify_exit(last_status).1,
            !has_handle(final(self).handles(), monitor_id@),
            if has_id(old(self).records(), monitor_id@) {
                exists|k: int|
                    {
                        &&& 0 <= k < old(self).records().len()
                        &&& (#[trigger] old(self).records()[k]).id == monitor_id@
                        &&& final(self).records() == old(self).records().update(
                            k,
                            finish_applied(
                                old(self).records()[k],
                                spec_classify_exit(last_status).1,
                                spec_classify_exit(last_status).0,
                                now@,
                            ),
                        )
                        &&& r.0.pr_number == Option::Some(old(self).records()[k].pr_number as i32)
                        &&& r.0.iteration as int == old(self).records()[k].iteration
                        &&& r.0.max_iterations as int == old(self).records()[k].max_iterations
                    }
            } else {
                &&& final(self).records() == old(self).records()
                &&& r.0.pr_number is None
                &&& r.0.iteration == 0
                &&& r.0.max_iterations == 0
            },
            final(self).handles() == old(self).handles() || exists|h: int|
                0 <= h < old(self).handles().len() && (#[trigger] old(
                    self,
                ).handles()[h]).monitor_id == monitor_id@ && final(self).handles() == old(
                    self,
                ).handles().remove(h),
            r.1 as int == count_active(final(self).records()),
    {
        let (reason, status) = crate::relay::classify_exit(last_status);
        let found = self.store.get_monitor(monitor_id);
        let (pr_number, iteration, max_iterations): (Option<i32>, i32, i32) = match &found {
            Option::Some(m) => (Option::Some(m.pr_number), m.iteration, m.max_iterations),
            Option::None => (Option::None, 0, 0),
        };
        let ghost s0 = self.store@;
        match &found {
            Option::Some(m_rec) => {
                let ghost mv = m_rec@;
                let res = self.finish_with(monitor_id, status, reason, now);
                proof {
                    if res is Err {
                        assert(has_id(s0, monitor_id@));
                        assert(false);
                    }
                    let km = choose|k: int|
                        0 <= k < s0.len() && (#[trigger] s0[k]).id == monitor_id@ && mv == s0[k];
                    let k2 = choose|k: int|
                        0 <= k < s0.len() && (#[trigger] s0[k]).id == monitor_id@ && self.store@
                            == s0.update(k, finish_applied(s0[k], status, reason, now@));
                    assert(km == k2);
                    assert(has_id(old(self).records(), monitor_id@));
                    assert({
                        &&& 0 <= km < old(self).records().len()
                        &&& old(self).records()[km].id == monitor_id@
                        &&& self.records() == old(self).records().update(
                            km,
                            finish_applied(
                                old(self).records()[km],
                                spec_classify_exit(last_status).1,
                                spec_classify_exit(last_status).0,
                                now@,
                            ),
                        )
                        &&& mv.pr_number == old(self).records()[km].pr_number
                    });
                    match res {
                        Result::Ok(killed) => match killed {
                            Option::Some(p) => {
                                let h = choose|h: int|
                                    0 <= h < old(self).handles().len() && (#[trigger] old(
                                        self,
                                    ).handles()[h]).monitor_id == monitor_id@ && old(
                                        self,
                                    ).handles()[h].pid == p && self.handles() == old(
                                        self,
                                    ).handles().remove(h);
                                assert(old(self).handles()[h].monitor_id == monitor_id@
                                    && self.handles() == old(self).handles().remove(h));
                            },
                            Option::None => {},
                        },
                        Result::Err(_) => {},
                    }
                }
            },
            Option::None => {
                let ghost h0 = self.registry@;
                let killed = self.registry.kill(monitor_id);
                proof {
                    lemma_registry_shrank(h0, self.registry@, monitor_id@, killed);
                    lemma_link_for_subset(h0, self.registry@, s0);
                    match killed {
                        Option::Some(p) => {
                            let h = choose|h: int|
                                0 <= h < h0.len() && (#[trigger] h0[h]).monitor_id == monitor_id@
                                    && h0[h].pid == p && self.registry@ == h0.remove(h);
                            assert(old(self).handles()[h].monitor_id == monitor_id@
                                && self.handles() == old(self).handles().remove(h));
                        },
                        Option::None => {},
                    }
                }
            },
        }
        let count = self.store.active_count();
        let payload = MonitorCompletedPayload {
            monitor_id: String::from_str(monitor_id),
            pr_id: String::from_str(pr_id),
            pr_number: pr_number,
            exit_reason: reason,
            status: status,
            iteration: iteration,
            max_iterations: max_iterations,
        };
        (payload, count)
    }

    /// Take in one line of a monitor's output: publish it verbatim in
    /// arrival order, remember a status marker, and record a progress
    /// marker in the store. A marker for an unknown or finished monitor
    /// is ignored, never an error.
    pub fn relay_line(
        &mut self,
        relay: &mut RelayState,
        monitor_id: &str,
        pr_id: &str,
        line: &str,
        now: &str,
    ) -> (ev: MonitorOutputPayload)
        requires
            old(self).inv(),
        ensures
            final(self).inv(),
            ev.monitor_id@ == monitor_id@,
            ev.pr_id@ == pr_id@,
            ev.line@ == line@,
            final(relay).last_status == spec_observe(old(relay).last_status, line@),
            final(self).handles() == old(self).handles(),
            final(self).records().len() == old(self).records().len(),
            forall|t: int|
                0 <= t < old(self).records().len() ==> (#[trigger] final(self).records()[t]).id
                    == old(self).records()[t].id && final(self).records()[t].status == old(
                    self,
                ).records()[t].status && final(self).records()[t].iteration >= old(
                    self,
                ).records()[t].iteration,
            match spec_classify_line(line@) {
                LineMarker::Progress { iteration, max } => {
                    &&& has_id(old(self).records(), monitor_id@) ==> exists|k: int|
                        0 <= k < old(self).records().len() && (#[trigger] old(
                            self,
                        ).records()[k]).id == monitor_id@ && final(self).records() == old(
                            self,
                        ).records().update(
                            k,
                            progress_applied(old(self).records()[k], iteration as int, 0, now@),
                        )
                    &&& !has_id(old(self).records(), monitor_id@) ==> final(self).records() == old(
                        self,
                    ).records()
                },
                _ => final(self).records() == old(self).records(),
            },
    {
        let marker = relay.observe_line(line);
        match marker {
            LineMarker::Progress { iteration, max: _ } => {
                let ghost s0 = self.records();
                let res = self.update_monitor_iteration(monitor_id, iteration, 0, now);
                proof {
                    match res {
                        Result::Ok(()) => {
                            let k = choose|k: int|
                                0 <= k < s0.len() && (#[trigger] s0[k]).id == monitor_id@
                                    && self.records() == s0.update(
                                    k,
                                    progress_applied(s0[k], iteration as int, 0, now@),
                                );
                            assert(0 <= k < old(self).records().len() && old(
                                self,
                            ).records()[k].id == monitor_id@ && self.records() == old(
                                self,
                            ).records().update(
                                k,
                                progress_applied(old(self).records()[k], iteration as int, 0, now@),
                            ));
                        },
                        Result::Err(_) => {
                            assert(!has_id(old(self).records(), monitor_id@));
                        },
                    }
                }
            },
            _ => {},
        }
        MonitorOutputPayload {
            monitor_id: String::from_str(monitor_id),
            pr_id: String::from_str(pr_id),
            line: String::from_str(line),
        }
    }

    /// Take in a batch of output lines, in arrival order. The published
    /// events carry exactly the lines, in the same order — what arrives
    /// first is published first — and iteration counters never move
    /// backwards.
    pub fn relay_lines(
        &mut self,
        relay: &mut RelayState,
        monitor_id: &str,
        pr_id: &str,
        lines: &Vec<String>,
        now: &str,
    ) -> (evs: Vec<MonitorOutputPayload>)
        requires
            old(self).inv(),
        ensures
            final(self).inv(),
            final(self).handles() == old(self).handles(),
            evs@.len() == lines@.len(),
            forall|i: int|
                0 <= i < evs@.len() ==> (#[trigger] evs@[i]).line@ == lines@[i]@
                    && evs@[i].monitor_id@ == monitor_id@ && evs@[i].pr_id@ == pr_id@,
            final(self).records().len() == old(self).records().len(),
            forall|t: int|
                0 <= t < old(self).records().len() ==> (#[trigger] final(self).records()[t]).id
                    == old(self).records()[t].id && final(self).records()[t].iteration >= old(
                    self,
                ).records()[t].iteration,
    {
        let n = lines.len();
        let mut evs: Vec<MonitorOutputPayload> = Vec::new();
        let mut i: usize = 0;
        while i < n
            invariant
                self.inv(),
                n == lines@.len(),
                i <= n,
                evs@.len() == i,
                forall|t: int|
                    0 <= t < i ==> (#[trigger] evs@[t]).line@ == lines@[t]@ && evs@[t].monitor_id@
                        == monitor_id@ && evs@[t].pr_id@ == pr_id@,
                self.handles() == old(self).handles(),
                self.records().len() == old(self).records().len(),
                forall|t: int|
                    0 <= t < old(self).records().len() ==> (#[trigger] self.records()[t]).id == old(
                        self,
                    ).records()[t].id && self.records()[t].iteration >= old(
                        self,
                    ).records()[t].iteration,
            decreases n - i,
        {
            let ev = self.relay_line(relay, monitor_id, pr_id, lines[i].as_str(), now);
            evs.push(ev);
            i += 1;
        }
        evs
    }

    /// Resolve records left active by an earlier run: at startup, before
    /// any handle is registered, every active record's process is gone,
    /// so each becomes `failed` with reason `orphaned`. Returns how many
    /// records were resolved.
    pub fn reconcile_startup(&mut self, now: &str) -> (r: i32)
        requires
            old(self).inv(),
            old(self).handles().len() == 0,
        ensures
            final(self).inv(),
            final(self).handles() == old(self).handles(),
            final(self).records().len() == old(self).records().len(),
            forall|k: int|
                0 <= k < old(self).records().len() ==> #[trigger] final(self).records()[k]
                    == finish_applied(
                    old(self).records()[k],
                    MonitorStatus::Failed,
                    ExitReason::Orphaned,
                    now@,
                ),
            r as int == count_active(old(self).records()),
    {
        self.store.orphan_active(now)
    }

    /// A copy of the record with the id.
    pub fn get_monitor(&self, monitor_id: &str) -> (r: Result<Monitor, MonitorError>)
        ensures
            match r {
                Result::Ok(m) => exists|k: int|
                    0 <= k < self.records().len() && (#[trigger] self.records()[k]).id
                        == monitor_id@ && m@ == self.records()[k],
                Result::Err(MonitorError::NotFound) => !has_id(self.records(), monitor_id@),
                Result::Err(_) => false,
            },
    {
        match self.store.get_monitor(monitor_id) {
            Option::Some(m) => {
                proof {
                    let k = choose|k: int|
                        0 <= k < self.store@.len() && (#[trigger] self.store@[k]).id == monitor_id@
                            && m@ == self.store@[k];
                    assert(0 <= k < self.records().len() && self.records()[k].id == monitor_id@
                        && m@ == self.records()[k]);
                }
                Result::Ok(m)
            },
            Option::None => Result::Err(MonitorError::NotFound),
        }
    }

    /// A copy of the active record for the subject, if any.
    pub fn get_monitor_for_pr(&self, pr_id: &str) -> (r: Option<Monitor>)
        ensures
            match r {
                Option::Some(m) => exists|k: int|
                    0 <= k < self.records().len() && view_is_active(#[trigger] self.records()[k])
                        && self.records()[k].pr_id == pr_id@ && m@ == self.records()[k],
                Option::None => !has_active_subject(self.records(), pr_id@),
            },
    {
        let r = self.store.get_monitor_for_pr(pr_id);
        proof {
            match &r {
                Option::Some(m) => {
                    let k = choose|k: int|
                        0 <= k < self.store@.len() && view_is_active(#[trigger] self.store@[k])
                            && self.store@[k].pr_id == pr_id@ && m@ == self.store@[k];
                    assert(0 <= k < self.records().len() && view_is_active(self.records()[k])
                        && self.records()[k].pr_id == pr_id@ && m@ == self.records()[k]);
                },
                Option::None => {},
            }
        }
        r
    }

    /// The records passing the optional status and repo filters, newest
    /// first.
    pub fn get_monitors(&self, status: Option<String>, repo: Option<String>) -> (r: Vec<Monitor>)
        ensures
            crate::store::views_of(r@).len() == crate::store::filtered_records(
                self.records(),
                crate::record::opt_str_view(status),
                crate::record::opt_str_view(repo),
            ).len(),
            forall|i: int|
                0 <= i < r@.len() ==> crate::store::views_of(r@)[i]
                    == crate::store::filtered_records(
                    self.records(),
                    crate::record::opt_str_view(status),
                    crate::record::opt_str_view(repo),
                )[crate::store::filtered_records(
                    self.records(),
                    crate::record::opt_str_view(status),
                    crate::record::opt_str_view(repo),
                ).len() - 1 - i],
    {
        self.store.get_monitors(status, repo)
    }

    /// How many monitors are active.
    pub fn get_active_monitor_count(&self) -> (r: i32)
        requires
            self.inv(),
        ensures
            r as int == count_active(self.records()),
            0 <= r,
    {
        self.store.active_count()
    }

    /// The state-change event for the current active count.
    pub fn state_change_payload(&self) -> (r: MonitorStatePayload)
        requires
            self.inv(),
        ensures
            r.active_count as int == count_active(self.records()),
    {
        MonitorStatePayload { active_count: self.get_active_monitor_count() }
    }

    /// How many records the store holds.
    pub fn record_count(&self) -> (r: usize)
        ensures
            r == self.records().len(),
    {
        self.store.len()
    }

    /// How many handles are registered.
    pub fn handle_count(&self) -> (r: usize)
        ensures
            r == self.handles().len(),
    {
        self.registry.len()
    }

    /// Whether a handle is registered for the monitor.
    pub fn is_running(&self, monitor_id: &str) -> (r: bool)
        ensures
            r == has_handle(self.handles(), monitor_id@),
    {
        self.registry.is_running(monitor_id)
    }

    /// The process id registered for the monitor, if any.
    pub fn get_pid(&self, monitor_id: &str) -> (r: Option<u32>)
        ensures
            match r {
                Option::Some(p) => exists|k: int|
                    0 <= k < self.handles().len() && (#[trigger] self.handles()[k]).monitor_id
                        == monitor_id@ && self.handles()[k].pid == p,
                Option::None => !has_handle(self.handles(), monitor_id@),
            },
    {
        let r = self.registry.get_pid(monitor_id);
        proof {
            match r {
                Option::Some(p) => {
                    let k = choose|k: int|
                        0 <= k < self.registry@.len() && (#[trigger] self.registry@[k]).monitor_id
                            == monitor_id@ && self.registry@[k].pid == p;
                    assert(0 <= k < self.handles().len() && self.handles()[k].monitor_id
                        == monitor_id@ && self.handles()[k].pid == p);
                },
                Option::None => {},
            }
        }
        r
    }

    /// Drop every handle for shutdown, handing back the process ids for
    /// a best-effort kill of each. Records are not touched: shutdown is
    /// not a stop request.
    pub fn kill_all(&mut self) -> (r: Vec<u32>)
        requires
            old(self).inv(),
        ensures
            final(self).inv(),
            final(self).records() == old(self).records(),
            final(self).handles() =~= Seq::<HandleView>::empty(),
            r@.len() == old(self).handles().len(),
            forall|k: int| 0 <= k < r@.len() ==> r@[k] == (#[trigger] old(self).handles()[k]).pid,
    {
        self.registry.kill_all()
    }

    /// Drop the handles of monitors the embedding has seen exit, handing
    /// back their ids for exit reconciliation. The records are not
    /// touched here: a liveness probe must not mutate state.
    pub fn cleanup_finished(&mut self, exited: &Vec<String>) -> (r: Vec<String>)
        requires
            old(self).inv(),
        ensures
            final(self).inv(),
            final(self).records() == old(self).records(),
            final(self).handles() =~= crate::registry::without_ids(
                old(self).handles(),
                crate::text::str_views(exited@),
            ),
            crate::text::str_views(r@) =~= crate::registry::removed_ids(
                old(self).handles(),
                crate::text::str_views(exited@),
            ),
    {
        let ghost h0 = self.registry@;
        let r = self.registry.cleanup_finished(exited);
        proof {
            lemma_without_ids_link(h0, crate::text::str_views(exited@), self.registry@);
            lemma_link_for_subset(h0, self.registry@, self.store@);
        }
        r
    }
}

/// Every handle kept by `without_ids` is one of the original handles.
proof fn lemma_without_ids_link(s: Seq<HandleView>, ids: Seq<Seq<char>>, kept: Seq<HandleView>)
    requires
        kept == crate::registry::without_ids(s, ids),
    ensures
        forall|h: int| 0 <= h < kept.len() ==> member_of(s, #[trigger] kept[h]),
    decreases s.len(),
{
    if s.len() > 0 {
        let prev = crate::registry::without_ids(s.drop_last(), ids);
        lemma_without_ids_link(s.drop_last(), ids, prev);
        assert forall|h: int| 0 <= h < kept.len() implies member_of(s, #[trigger] kept[h]) by {
            if h < prev.len() {
                assert(kept[h] == prev[h]);
                assert(member_of(s.drop_last(), prev[h]));
                let t = choose|t: int|
                    0 <= t < s.drop_last().len() && (#[trigger] s.drop_last()[t]) == prev[h];
                assert((#[trigger] s[t]) == kept[h]);
            } else {
                assert(kept[h] == s.last());
                assert((#[trigger] s[s.len() - 1]) == kept[h]);
            }
        }
    }
}

} // verus!
