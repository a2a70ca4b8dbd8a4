//! Change detection between two consecutive snapshots.

use crate::process::{ProcessDto, ProcessUpdateEvent, ProcessView};
use crate::query::views;
use std::collections::HashMap;
use vstd::prelude::*;
use vstd::std_specs::iter::IteratorSpec;

verus! {

broadcast use vstd::std_specs::hash::group_hash_axioms;

/// A snapshot of the process table: records keyed by their pid.
pub type Snapshot = HashMap<u32, ProcessDto>;

/// Smallest change of CPU usage, in thousandths of a percent, that is still
/// ignored (a tenth of a percent).
pub const CPU_CHANGE_THRESHOLD: u32 = 100;

/// Model of a snapshot: pid to record model.
pub open spec fn snapshot_view(m: Snapshot) -> Map<u32, ProcessView> {
    m@.map_values(|p: ProcessDto| p@)
}

proof fn lemma_snapshot_view(m: Snapshot)
    ensures
        snapshot_view(m).dom() == m@.dom(),
        forall|k: u32| #[trigger] m@.contains_key(k) ==> snapshot_view(m)[k] == m@[k]@,
{
    assert(snapshot_view(m).dom() =~= m@.dom());
}

/// Every record is stored under its own pid.
pub open spec fn snapshot_wf(m: Map<u32, ProcessView>) -> bool {
    forall|k: u32| #[trigger] m.contains_key(k) ==> m[k].pid == k
}

/// Model of a change set.
pub struct EventView {
    pub added: Seq<ProcessView>,
    pub updated: Seq<ProcessView>,
    pub removed: Seq<u32>,
    pub timestamp_ms: u64,
}

impl View for ProcessUpdateEvent {
    type V = EventView;

    open spec fn view(&self) -> EventView {
        EventView {
            added: views(self.added@),
            updated: views(self.updated@),
            removed: self.removed@,
            timestamp_ms: self.timestamp_ms,
        }
    }
}

/// A change worth reporting: CPU moved by more than the threshold, or the
/// memory or the status changed at all.
pub open spec fn is_significant(old: ProcessView, new: ProcessView) -> bool {
    ||| old.cpu_millipercent - new.cpu_millipercent > CPU_CHANGE_THRESHOLD
    ||| new.cpu_millipercent - old.cpu_millipercent > CPU_CHANGE_THRESHOLD
    ||| old.memory_bytes != new.memory_bytes
    ||| old.status != new.status
}

/// Pids that only the new snapshot has.
pub open spec fn added_pids(old: Map<u32, ProcessView>, new: Map<u32, ProcessView>) -> Set<u32> {
    new.dom().difference(old.dom())
}

/// Pids that both snapshots have, with a significant change.
pub open spec fn updated_pids(old: Map<u32, ProcessView>, new: Map<u32, ProcessView>) -> Set<u32> {
    Set::new(|pid: u32| new.contains_key(pid) && old.contains_key(pid) && is_significant(old[pid], new[pid]))
}

/// Pids that only the old snapshot has.
pub open spec fn removed_pids(old: Map<u32, ProcessView>, new: Map<u32, ProcessView>) -> Set<u32> {
    old.dom().difference(new.dom())
}

/// `s` lists, once each and in some order, the records of `src` whose pids
/// make up `pids`.
pub open spec fn lists_records(s: Seq<ProcessView>, src: Map<u32, ProcessView>, pids: Set<u32>) -> bool {
    &&& forall|i: int| 0 <= i < s.len() ==> pids.contains(#[trigger] s[i].pid) && src.contains_key(s[i].pid) && s[i] == src[s[i].pid]
    &&& forall|pid: u32| #[trigger] pids.contains(pid) ==> exists|i: int| 0 <= i < s.len() && #[trigger] s[i].pid == pid
    &&& forall|i: int, j: int| 0 <= i < j < s.len() ==> #[trigger] s[i].pid != #[trigger] s[j].pid
}

/// `s` lists the members of `pids`, once each and in some order.
pub open spec fn lists_pids(s: Seq<u32>, pids: Set<u32>) -> bool {
    &&& forall|i: int| 0 <= i < s.len() ==> pids.contains(#[trigger] s[i])
    &&& forall|pid: u32| #[trigger] pids.contains(pid) ==> s.contains(pid)
    &&& s.no_duplicates()
}

/// `ev` is the change set from `old` to `new`.
pub open spec fn is_diff(old: Map<u32, ProcessView>, new: Map<u32, ProcessView>, ev: EventView) -> bool {
    &&& lists_records(ev.added, new, added_pids(old, new))
    &&& lists_records(ev.updated, new, updated_pids(old, new))
    &&& lists_pids(ev.removed, removed_pids(old, new))
}

/// The change set carries at least one entry.
pub open spec fn has_changes(ev: EventView) -> bool {
    ev.added.len() > 0 || ev.updated.len() > 0 || ev.removed.len() > 0
}

/// Whether the change from `old` to `new` is worth reporting.
pub fn is_changed(old: &ProcessDto, new: &ProcessDto) -> (r: bool)
    ensures
        r == is_significant(old@, new@),
{
    let up = new.cpu_millipercent > old.cpu_millipercent && new.cpu_millipercent - old.cpu_millipercent > CPU_CHANGE_THRESHOLD;
    let down = old.cpu_millipercent > new.cpu_millipercent && old.cpu_millipercent - new.cpu_millipercent > CPU_CHANGE_THRESHOLD;
    up || down || old.memory_bytes != new.memory_bytes || old.status != new.status
}

/// Computes the change set from `old` to `new`, stamped with `timestamp_ms`:
/// new pids are added, pids present in both with a significant change are
/// updated (with the new record), vanished pids are removed.
pub fn diff_snapshots(old: &Snapshot, new: &Snapshot, timestamp_ms: u64) -> (r: ProcessUpdateEvent)
    requires
        snapshot_wf(snapshot_view(*new)),
    ensures
        is_diff(snapshot_view(*old), snapshot_view(*new), r@),
        r.timestamp_ms == timestamp_ms,
{
    let ghost o = snapshot_view(*old);
    let ghost n = snapshot_view(*new);
    let mut added: Vec<ProcessDto> = Vec::new();
    let mut updated: Vec<ProcessDto> = Vec::new();
    let mut removed: Vec<u32> = Vec::new();

    proof {
        lemma_snapshot_view(*old);
        lemma_snapshot_view(*new);
    }
    let keys = new.keys();
    let ghost key_seq = keys.remaining().unref();
    assert(key_seq.to_set() == new@.dom());
    for pid in it: keys
        invariant
            it.seq().unref() == key_seq,
            o == snapshot_view(*old),
            n == snapshot_view(*new),
            o.dom() == old@.dom(),
            n.dom() == new@.dom(),
            forall|k: u32| #[trigger] new@.contains_key(k) ==> n[k] == new@[k]@,
            snapshot_wf(n),
            key_seq.to_set() == new@.dom(),
            key_seq.no_duplicates(),
            0 <= it.index() <= key_seq.len(),
            forall|i: int| 0 <= i < added.len() ==> {
                let p = #[trigger] added@[i]@;
                &&& added_pids(o, n).contains(p.pid)
                &&& n[p.pid] == p
                &&& forall|k: int| it.index() <= k < key_seq.len() ==> key_seq[k] != p.pid
            },
            forall|i: int| 0 <= i < updated.len() ==> {
                let p = #[trigger] updated@[i]@;
                &&& updated_pids(o, n).contains(p.pid)
                &&& n[p.pid] == p
                &&& forall|k: int| it.index() <= k < key_seq.len() ==> key_seq[k] != p.pid
            },
            forall|k: int| 0 <= k < it.index() ==> (added_pids(o, n).contains(#[trigger] key_seq[k]) ==> exists|i: int| 0 <= i < added.len() && added@[i]@.pid == key_seq[k]),
            forall|k: int| 0 <= k < it.index() ==> (updated_pids(o, n).contains(#[trigger] key_seq[k]) ==> exists|i: int| 0 <= i < updated.len() && updated@[i]@.pid == key_seq[k]),
            forall|i: int, j: int| 0 <= i < j < added.len() ==> #[trigger] added@[i]@.pid != #[trigger] added@[j]@.pid,
            forall|i: int, j: int| 0 <= i < j < updated.len() ==> #[trigger] updated@[i]@.pid != #[trigger] updated@[j]@.pid,
    {
        let ghost idx = it.index() as int;
        let ghost added0 = added@;
        let ghost updated0 = updated@;
        proof {
            assert(key_seq[idx] == *pid);
            assert(key_seq.contains(*pid));
            assert(key_seq.to_set().contains(*pid));
        }
        let new_proc = new.get(pid).unwrap();
        let ghost is_new: bool;
        let ghost is_upd: bool;
        match old.get(pid) {
            None => {
                proof {
                    is_new = true;
                    is_upd = false;
                }
                added.push(new_proc.clone());
            },
            Some(old_proc) => {
                proof {
                    is_new = false;
                }
                if is_changed(old_proc, new_proc) {
                    proof {
                        is_upd = true;
                    }
                    updated.push(new_proc.clone());
                } else {
                    proof {
                        is_upd = false;
                    }
                }
            },
        }
        proof {
            assert(is_new <==> added_pids(o, n).contains(*pid));
            assert(is_upd <==> updated_pids(o, n).contains(*pid));
            assert(n[*pid].pid == *pid);
            assert forall|k: int| idx + 1 <= k < key_seq.len() implies key_seq[k] != *pid by {
                assert(key_seq[idx] == *pid);
            }
            if is_new {
                assert(added@ == added0.push(added@[added0.len() as int]));
                assert(added@[added0.len() as int]@ == n[*pid]);
            } else {
                assert(added@ == added0);
            }
            if is_upd {
                assert(updated@ == updated0.push(updated@[updated0.len() as int]));
                assert(updated@[updated0.len() as int]@ == n[*pid]);
            } else {
                assert(updated@ == updated0);
            }
            assert forall|k: int| 0 <= k < idx + 1 && added_pids(o, n).contains(#[trigger] key_seq[k]) implies exists|i: int| 0 <= i < added.len() && added@[i]@.pid == key_seq[k] by {
                if k < idx {
                    let i = choose|i: int| 0 <= i < added0.len() && added0[i]@.pid == key_seq[k];
                    assert(added@[i] == added0[i]);
                } else {
                    assert(added@[added0.len() as int]@.pid == key_seq[k]);
                }
            }
            assert forall|k: int| 0 <= k < idx + 1 && updated_pids(o, n).contains(#[trigger] key_seq[k]) implies exists|i: int| 0 <= i < updated.len() && updated@[i]@.pid == key_seq[k] by {
                if k < idx {
                    let i = choose|i: int| 0 <= i < updated0.len() && updated0[i]@.pid == key_seq[k];
                    assert(updated@[i] == updated0[i]);
                } else {
                    assert(updated@[updated0.len() as int]@.pid == key_seq[k]);
                }
            }
        }
    }
    proof {
        let av = views(added@);
        let uv = views(updated@);
        assert forall|pid: u32| #[trigger] added_pids(o, n).contains(pid) implies exists|i: int| 0 <= i < av.len() && #[trigger] av[i].pid == pid by {
            assert(key_seq.to_set().contains(pid));
            let k = choose|k: int| 0 <= k < key_seq.len() && key_seq[k] == pid;
            assert(added_pids(o, n).contains(key_seq[k]));
            let i = choose|i: int| 0 <= i < added.len() && added@[i]@.pid == key_seq[k];
            assert(av[i].pid == pid);
        }
        assert forall|pid: u32| #[trigger] updated_pids(o, n).contains(pid) implies exists|i: int| 0 <= i < uv.len() && #[trigger] uv[i].pid == pid by {
            assert(key_seq.to_set().contains(pid));
            let k = choose|k: int| 0 <= k < key_seq.len() && key_seq[k] == pid;
            assert(updated_pids(o, n).contains(key_seq[k]));
            let i = choose|i: int| 0 <= i < updated.len() && updated@[i]@.pid == key_seq[k];
            assert(uv[i].pid == pid);
        }
        assert(lists_records(av, n, added_pids(o, n)));
        assert(lists_records(uv, n, updated_pids(o, n)));
    }

    for pid in it: old.keys()
        invariant
            o.dom() == old@.dom(),
            n.dom() == new@.dom(),
            it.seq().unref().no_duplicates(),
            it.seq().unref().to_set() == old@.dom(),
            0 <= it.index() <= it.seq().len(),
            forall|i: int| 0 <= i < removed.len() ==> removed_pids(o, n).contains(#[trigger] removed@[i]),
            forall|i: int| 0 <= i < removed.len() ==> forall|k: int| it.index() <= k < it.seq().len() ==> *it.seq()[k] != #[trigger] removed@[i],
            forall|k: int| 0 <= k < it.index() ==> removed_pids(o, n).contains(*#[trigger] it.seq()[k]) ==> removed@.contains(*it.seq()[k]),
            removed@.no_duplicates(),
    {
        let ghost ks = it.seq().unref();
        let ghost idx = it.index() as int;
        let ghost removed0 = removed@;
        proof {
            assert(ks[idx] == *pid);
            assert(ks.contains(*pid));
            assert(ks.to_set().contains(*pid));
        }
        if !new.contains_key(pid) {
            removed.push(*pid);
            proof {
                assert(removed@[removed0.len() as int] == *pid);
            }
        }
        proof {
            assert forall|k: int| idx + 1 <= k < ks.len() implies ks[k] != *pid by {
                assert(ks[idx] == *pid);
            }
            assert forall|k: int| 0 <= k < idx + 1 && removed_pids(o, n).contains(*#[trigger] it.seq()[k]) implies removed@.contains(*it.seq()[k]) by {
                if k < idx {
                    let i = choose|i: int| 0 <= i < removed0.len() && removed0[i] == *it.seq()[k];
                    assert(removed@[i] == removed0[i]);
                } else {
                    assert(ks[k] == *pid);
                    assert(removed@[removed0.len() as int] == *pid);
                }
            }
        }
    }

    proof {
        assert forall|pid: u32| #[trigger] removed_pids(o, n).contains(pid) implies removed@.contains(pid) by {
            assert(old@.dom().contains(pid));
        }
    }
    ProcessUpdateEvent { added, updated, removed, timestamp_ms }
}

/// Some record in `s` carries `pid`.
pub open spec fn reports(s: Seq<ProcessView>, pid: u32) -> bool {
    exists|i: int| 0 <= i < s.len() && #[trigger] s[i].pid == pid
}

/// Diffing a snapshot against itself reports nothing.
pub proof fn lemma_diff_of_identical_snapshots(s: Map<u32, ProcessView>, ev: EventView)
    requires
        is_diff(s, s, ev),
    ensures
        ev.added.len() == 0,
        ev.updated.len() == 0,
        ev.removed.len() == 0,
        !has_changes(ev),
{
    if ev.added.len() > 0 {
        assert(added_pids(s, s).contains(ev.added[0].pid));
    }
    if ev.updated.len() > 0 {
        assert(updated_pids(s, s).contains(ev.updated[0].pid));
    }
    if ev.removed.len() > 0 {
        assert(removed_pids(s, s).contains(ev.removed[0]));
    }
}

/// A pid that only one of the two snapshots has is reported as added (when
/// only the new one has it) or as removed (when only the old one has it),
/// never both, and never as updated.
pub proof fn lemma_one_sided_pid(
    old: Map<u32, ProcessView>,
    new: Map<u32, ProcessView>,
    ev: EventView,
    pid: u32,
)
    requires
        is_diff(old, new, ev),
        old.contains_key(pid) != new.contains_key(pid),
    ensures
        new.contains_key(pid) ==> reports(ev.added, pid) && !ev.removed.contains(pid),
        old.contains_key(pid) ==> ev.removed.contains(pid) && !reports(ev.added, pid),
        !reports(ev.updated, pid),
{
    if new.contains_key(pid) {
        assert(added_pids(old, new).contains(pid));
        if ev.removed.contains(pid) {
            let i = choose|i: int| 0 <= i < ev.removed.len() && ev.removed[i] == pid;
            assert(removed_pids(old, new).contains(ev.removed[i]));
        }
    } else {
        assert(removed_pids(old, new).contains(pid));
        if reports(ev.added, pid) {
            let i = choose|i: int| 0 <= i < ev.added.len() && #[trigger] ev.added[i].pid == pid;
            assert(added_pids(old, new).contains(ev.added[i].pid));
        }
    }
    if reports(ev.updated, pid) {
        let i = choose|i: int| 0 <= i < ev.updated.len() && #[trigger] ev.updated[i].pid == pid;
        assert(updated_pids(old, new).contains(ev.updated[i].pid));
    }
}

/// A pid present in both snapshots whose CPU usage moved by at most the
/// threshold, with the same memory and status, is not reported as updated.
pub proof fn lemma_insignificant_change_not_updated(
    old: Map<u32, ProcessView>,
    new: Map<u32, ProcessView>,
    ev: EventView,
    pid: u32,
)
    requires
        is_diff(old, new, ev),
        old.contains_key(pid),
        new.contains_key(pid),
        old[pid].cpu_millipercent - new[pid].cpu_millipercent <= CPU_CHANGE_THRESHOLD,
        new[pid].cpu_millipercent - old[pid].cpu_millipercent <= CPU_CHANGE_THRESHOLD,
        old[pid].memory_bytes == new[pid].memory_bytes,
        old[pid].status == new[pid].status,
    ensures
        !reports(ev.updated, pid),
{
    if reports(ev.updated, pid) {
        let i = choose|i: int| 0 <= i < ev.updated.len() && #[trigger] ev.updated[i].pid == pid;
        assert(updated_pids(old, new).contains(ev.updated[i].pid));
    }
}

/// A pid present in both snapshots whose memory changed by any amount is
/// reported as updated.
pub proof fn lemma_memory_change_updated(
    old: Map<u32, ProcessView>,
    new: Map<u32, ProcessView>,
    ev: EventView,
    pid: u32,
)
    requires
        is_diff(old, new, ev),
        old.contains_key(pid),
        new.contains_key(pid),
        old[pid].memory_bytes != new[pid].memory_bytes,
    ensures
        reports(ev.updated, pid),
{
    assert(updated_pids(old, new).contains(pid));
}

/// Some pid is added, updated or removed from `old` to `new`.
pub open spec fn changes_exist(old: Map<u32, ProcessView>, new: Map<u32, ProcessView>) -> bool {
    ||| added_pids(old, new) != Set::<u32>::empty()
    ||| updated_pids(old, new) != Set::<u32>::empty()
    ||| removed_pids(old, new) != Set::<u32>::empty()
}

proof fn lemma_nonempty_has_member(s: Set<u32>)
    requires
        s != Set::<u32>::empty(),
    ensures
        exists|x: u32| s.contains(x),
{
    if forall|x: u32| !s.contains(x) {
        assert(s =~= Set::<u32>::empty());
    }
}

/// A change set is non-empty exactly when some pid changed.
pub proof fn lemma_has_changes_iff(old: Map<u32, ProcessView>, new: Map<u32, ProcessView>, ev: EventView)
    requires
        is_diff(old, new, ev),
    ensures
        has_changes(ev) <==> changes_exist(old, new),
{
    let a = added_pids(old, new);
    let u = updated_pids(old, new);
    let r = removed_pids(old, new);
    if ev.added.len() > 0 {
        assert(a.contains(ev.added[0].pid));
    } else if ev.updated.len() > 0 {
        assert(u.contains(ev.updated[0].pid));
    } else if ev.removed.len() > 0 {
        assert(r.contains(ev.removed[0]));
    }
    if a != Set::<u32>::empty() {
        lemma_nonempty_has_member(a);
        let pid = choose|x: u32| a.contains(x);
        let i = choose|i: int| 0 <= i < ev.added.len() && #[trigger] ev.added[i].pid == pid;
    }
    if u != Set::<u32>::empty() {
        lemma_nonempty_has_member(u);
        let pid = choose|x: u32| u.contains(x);
        let i = choose|i: int| 0 <= i < ev.updated.len() && #[trigger] ev.updated[i].pid == pid;
    }
    if r != Set::<u32>::empty() {
        lemma_nonempty_has_member(r);
        let pid = choose|x: u32| r.contains(x);
        assert(ev.removed.contains(pid));
    }
}

} // verus!
