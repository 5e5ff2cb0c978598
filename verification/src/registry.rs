//! The table of live child-process handles.
//!
//! The registry maps each monitor id to the process id of its child while
//! the monitor is active. The operating-system resource itself (spawning,
//! signalling, reaping) is owned by the embedding program, which keeps its
//! raw handles keyed the same way; this table is the authority on which
//! handle belongs to which monitor, and every change to it is proved.

use vstd::prelude::*;
use crate::text::{str_eq, str_views};

verus! {

/// One registered handle: a monitor id and the process id of its child.
pub struct HandleEntry {
    pub monitor_id: String,
    pub pid: u32,
}

/// The mathematical image of an entry.
pub ghost struct HandleView {
    pub monitor_id: Seq<char>,
    pub pid: u32,
}

impl View for HandleEntry {
    type V = HandleView;

    open spec fn view(&self) -> HandleView {
        HandleView { monitor_id: self.monitor_id@, pid: self.pid }
    }
}

/// The views of a sequence of entries.
pub open spec fn handle_views(s: Seq<HandleEntry>) -> Seq<HandleView> {
    s.map_values(|e: HandleEntry| e@)
}

/// Some entry carries the monitor id.
pub open spec fn has_handle(s: Seq<HandleView>, id: Seq<char>) -> bool {
    exists|k: int| 0 <= k < s.len() && (#[trigger] s[k]).monitor_id == id
}

/// The entries whose ids are not in `ids`, in order.
pub open spec fn without_ids(s: Seq<HandleView>, ids: Seq<Seq<char>>) -> Seq<HandleView>
    decreases s.len(),
{
    if s.len() == 0 {
        Seq::empty()
    } else {
        without_ids(s.drop_last(), ids) + if ids.contains(s.last().monitor_id) {
            Seq::empty()
        } else {
            seq![s.last()]
        }
    }
}

/// The registry of live process handles.
pub struct ProcessRegistry {
    entries: Vec<HandleEntry>,
}

impl View for ProcessRegistry {
    type V = Seq<HandleView>;

    closed spec fn view(&self) -> Seq<HandleView> {
        handle_views(self.entries@)
    }
}

impl ProcessRegistry {
    /// At most one handle per monitor id.
    pub open spec fn inv(&self) -> bool {
        forall|i: int, j: int|
            0 <= i < j < self@.len() ==> (#[trigger] self@[i]).monitor_id != (
            #[trigger] self@[j]).monitor_id
    }

    /// An empty registry.
    pub fn new() -> (r: Self)
        ensures
            r@ =~= Seq::<HandleView>::empty(),
            r.inv(),
    {
        ProcessRegistry { entries: Vec::new() }
    }

    /// How many handles are registered.
    pub fn len(&self) -> (r: usize)
        ensures
            r == self@.len(),
    {
        self.entries.len()
    }

    /// The index of the entry for the id, if any.
    fn find_index(&self, monitor_id: &str) -> (r: Option<usize>)
        ensures
            match r {
                Option::Some(k) => k < self@.len() && self@[k as int].monitor_id == monitor_id@,
                Option::None => !has_handle(self@, monitor_id@),
            },
    {
        let n = self.entries.len();
        let mut i: usize = 0;
        while i < n
            invariant
                n == self@.len(),
                i <= n,
                forall|k: int| 0 <= k < i ==> (#[trigger] self@[k]).monitor_id != monitor_id@,
            decreases n - i,
        {
            if str_eq(self.entries[i].monitor_id.as_str(), monitor_id) {
                return Option::Some(i);
            }
            i += 1;
        }
        Option::None
    }

    /// Register the handle of a freshly spawned child. Exactly one handle
    /// may exist per monitor id, so registering an id twice is a caller
    /// error and is ruled out up front.
    pub fn register(&mut self, monitor_id: String, pid: u32)
        requires
            old(self).inv(),
            !has_handle(old(self)@, monitor_id@),
        ensures
            final(self).inv(),
            final(self)@ =~= old(self)@.push(HandleView { monitor_id: monitor_id@, pid: pid }),
    {
        let ghost pre = self@;
        self.entries.push(HandleEntry { monitor_id, pid });
        proof {
            assert(self@ =~= pre.push(HandleView { monitor_id: monitor_id@, pid: pid }));
            assert(forall|k: int| 0 <= k < pre.len() ==> (#[trigger] pre[k]).monitor_id != monitor_id@);
            assert(forall|k: int| 0 <= k < pre.len() ==> self@[k] == pre[k]);
            assert(self@[pre.len() as int].monitor_id == monitor_id@);
        }
    }

    /// Whether a handle is registered for the id. The embedding reaps
    /// exited children promptly (`kill`, `cleanup_finished`, exit
    /// handling), so a registered handle is presumed live.
    pub fn is_running(&self, monitor_id: &str) -> (r: bool)
        ensures
            r == has_handle(self@, monitor_id@),
    {
        match self.find_index(monitor_id) {
            Option::Some(_) => true,
            Option::None => false,
        }
    }

    /// The process id registered for the id, if any.
    pub fn get_pid(&self, monitor_id: &str) -> (r: Option<u32>)
        ensures
            match r {
                Option::Some(p) => exists|k: int|
                    0 <= k < self@.len() && (#[trigger] self@[k]).monitor_id == monitor_id@
                        && self@[k].pid == p,
                Option::None => !has_handle(self@, monitor_id@),
            },
    {
        match self.find_index(monitor_id) {
            Option::Some(k) => Option::Some(self.entries[k].pid),
            Option::None => Option::None,
        }
    }

    /// Drop the handle for the id, handing back the process id so the
    /// embedding can signal and reap the child. Idempotent: with no
    /// handle registered there is nothing to kill and nothing changes.
    pub fn kill(&mut self, monitor_id: &str) -> (r: Option<u32>)
        requires
            old(self).inv(),
        ensures
            final(self).inv(),
            !has_handle(final(self)@, monitor_id@),
            match r {
                Option::Some(p) => exists|k: int|
                    0 <= k < old(self)@.len() && (#[trigger] old(self)@[k]).monitor_id
                        == monitor_id@ && old(self)@[k].pid == p && final(self)@ == old(
                        self,
                    )@.remove(k),
                Option::None => {
                    &&& final(self)@ == old(self)@
                    &&& !has_handle(old(self)@, monitor_id@)
                },
            },
    {
        match self.find_index(monitor_id) {
            Option::None => Option::None,
            Option::Some(k) => {
                let ghost pre = self@;
                let entry = self.entries.remove(k);
                proof {
                    assert(self@ =~= pre.remove(k as int));
                    assert forall|t: int|
                        0 <= t < self@.len() implies (#[trigger] self@[t]).monitor_id
                        != monitor_id@ by {
                        if t < k {
                            assert(self@[t] == pre[t]);
                        } else {
                            assert(self@[t] == pre[t + 1]);
                        }
                    }
                }
                Option::Some(entry.pid)
            },
        }
    }

    /// Drop every handle, handing back the process ids in registration
    /// order, for a best-effort kill of each at shutdown.
    pub fn kill_all(&mut self) -> (r: Vec<u32>)
        requires
            old(self).inv(),
        ensures
            final(self).inv(),
            final(self)@ =~= Seq::<HandleView>::empty(),
            r@.len() == old(self)@.len(),
            forall|k: int| 0 <= k < r@.len() ==> r@[k] == (#[trigger] old(self)@[k]).pid,
    {
        let n = self.entries.len();
        let mut pids: Vec<u32> = Vec::new();
        let mut i: usize = 0;
        while i < n
            invariant
                n == self@.len(),
                i <= n,
                pids@.len() == i,
                forall|k: int| 0 <= k < i ==> pids@[k] == (#[trigger] self@[k]).pid,
            decreases n - i,
        {
            pids.push(self.entries[i].pid);
            i += 1;
        }
        self.entries.clear();
        pids
    }

    /// Drop the handles of the monitors the embedding has seen exit,
    /// handing back their ids in registration order. A liveness sweep
    /// never touches the record store: reconciliation of the records is
    /// the exit handler's job.
    pub fn cleanup_finished(&mut self, exited: &Vec<String>) -> (r: Vec<String>)
        requires
            old(self).inv(),
        ensures
            final(self).inv(),
            final(self)@ =~= without_ids(old(self)@, str_views(exited@)),
            str_views(r@) =~= removed_ids(
                old(self)@,
                str_views(exited@),
            ),
    {
        let ghost ids = str_views(exited@);
        let n = self.entries.len();
        let mut kept: Vec<HandleEntry> = Vec::new();
        let mut removed: Vec<String> = Vec::new();
        let mut i: usize = 0;
        let ghost pre = self@;
        proof {
            assert(pre.subrange(0, 0) =~= Seq::<HandleView>::empty());
            assert(handle_views(kept@) =~= Seq::<HandleView>::empty());
            assert(str_views(removed@) =~= Seq::<Seq<char>>::empty());
        }
        while i < n
            invariant
                n == pre.len(),
                pre == self@,
                self.inv(),
                i <= n,
                ids == str_views(exited@),
                handle_views(kept@) == without_ids(pre.subrange(0, i as int), ids),
                str_views(removed@) == removed_ids(pre.subrange(0, i as int), ids),
                forall|a: int|
                    0 <= a < handle_views(kept@).len() ==> exists|k: int|
                        0 <= k < i && #[trigger] handle_views(kept@)[a] == pre[k],
                forall|a: int, b: int|
                    0 <= a < b < handle_views(kept@).len() ==> (#[trigger] handle_views(
                        kept@,
                    )[a]).monitor_id != (#[trigger] handle_views(kept@)[b]).monitor_id,
            decreases n - i,
        {
            proof {
                assert(pre.subrange(0, i + 1).drop_last() =~= pre.subrange(0, i as int));
                assert(pre.subrange(0, i + 1).last() == pre[i as int]);
                assert(self@[i as int] == self.entries@[i as int]@);
            }
            let eid = self.entries[i].monitor_id.clone();
            let pid = self.entries[i].pid;
            let gone = contains_str(exited, eid.as_str());
            if gone {
                let ghost rpre = str_views(removed@);
                removed.push(eid);
                proof {
                    assert(str_views(removed@) =~= rpre.push(pre[i as int].monitor_id));
                    assert(str_views(removed@) =~= removed_ids(
                        pre.subrange(0, i + 1),
                        ids,
                    ));
                    assert(handle_views(kept@) =~= without_ids(pre.subrange(0, i + 1), ids));
                }
            } else {
                let ghost kpre = handle_views(kept@);
                kept.push(HandleEntry { monitor_id: eid, pid });
                proof {
                    assert(handle_views(kept@) =~= kpre.push(pre[i as int]));
                    assert(handle_views(kept@) =~= without_ids(pre.subrange(0, i + 1), ids));
                    assert(str_views(removed@) =~= removed_ids(
                        pre.subrange(0, i + 1),
                        ids,
                    ));
                    let cur = handle_views(kept@);
                    assert forall|a: int| 0 <= a < cur.len() implies exists|k: int|
                        0 <= k < i + 1 && #[trigger] cur[a] == pre[k] by {
                        if a < kpre.len() {
                            assert(cur[a] == kpre[a]);
                            let k = choose|k: int| 0 <= k < i && kpre[a] == pre[k];
                            assert(cur[a] == pre[k]);
                        } else {
                            assert(cur[a] == pre[i as int]);
                        }
                    }
                    assert forall|a: int, b: int|
                        0 <= a < b < cur.len() implies (#[trigger] cur[a]).monitor_id != (
                    #[trigger] cur[b]).monitor_id by {
                        if b == cur.len() - 1 {
                            assert(cur[a] == kpre[a]);
                            let k = choose|k: int| 0 <= k < i && kpre[a] == pre[k];
                            assert(pre[k].monitor_id != pre[i as int].monitor_id);
                        } else {
                            assert(cur[a] == kpre[a] && cur[b] == kpre[b]);
                        }
                    }
                }
            }
            i += 1;
        }
        proof {
            assert(pre.subrange(0, n as int) =~= pre);
        }
        self.entries = kept;
        removed
    }
}

/// The ids of the entries of `s` that are in `ids`, in order.
pub open spec fn removed_ids(s: Seq<HandleView>, ids: Seq<Seq<char>>) -> Seq<Seq<char>>
    decreases s.len(),
{
    if s.len() == 0 {
        Seq::empty()
    } else {
        removed_ids(s.drop_last(), ids) + if ids.contains(s.last().monitor_id) {
            seq![s.last().monitor_id]
        } else {
            Seq::empty()
        }
    }
}

/// Whether any element of `v` equals `s`.
fn contains_str(v: &Vec<String>, s: &str) -> (r: bool)
    ensures
        r == str_views(v@).contains(s@),
{
    let n = v.len();
    let mut i: usize = 0;
    while i < n
        invariant
            n == v@.len(),
            i <= n,
            forall|k: int| 0 <= k < i ==> #[trigger] str_views(v@)[k] != s@,
        decreases n - i,
    {
        if str_eq(v[i].as_str(), s) {
            proof {
                assert(str_views(v@)[i as int] == s@);
            }
            return true;
        }
        i += 1;
    }
    proof {
        assert(forall|k: int| 0 <= k < v@.len() ==> #[trigger] str_views(v@)[k] != s@);
    }
    false
}

} // verus!
