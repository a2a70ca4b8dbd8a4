//! Request handlers over the shared state: listing, details, refresh
//! settings and the checks around process termination.

use crate::diff::{lists_records, snapshot_view, snapshot_wf};
use crate::error::AppError;
use crate::process::{
    opt_text, KillMode, ProcessDetails, ProcessDto, ProcessFilter, ProcessView, SortDirection,
    SortField, SortSpec,
};
use crate::query::{apply_sort, filter_accepts, sorted_by, views};
use crate::state::{clamp_interval, AppState, MAX_REFRESH_INTERVAL_MS, MIN_REFRESH_INTERVAL_MS};
use vstd::prelude::*;
use vstd::std_specs::iter::IteratorSpec;

verus! {

broadcast use vstd::std_specs::hash::group_hash_axioms;

/// The filter that admits every process.
pub open spec fn open_filter() -> ProcessFilter {
    ProcessFilter {
        search: None,
        user: None,
        mine_only: None,
        system_only: None,
        non_system_only: None,
        status: None,
        cpu_gt: None,
        memory_gt_bytes: None,
    }
}

/// The filter a listing applies: the one given, or none.
pub open spec fn effective_filter(filter: Option<ProcessFilter>) -> ProcessFilter {
    match filter {
        Some(f) => f,
        None => open_filter(),
    }
}

/// Order of a listing without an explicit sort: highest CPU first.
pub open spec fn default_sort() -> SortSpec {
    SortSpec { field: SortField::CpuPercent, direction: SortDirection::Desc }
}

/// The order a listing applies: the one given, or the default.
pub open spec fn effective_sort(sort: Option<SortSpec>) -> SortSpec {
    match sort {
        Some(s) => s,
        None => default_sort(),
    }
}

/// Pids of the records in `snap` that the filter admits for user `me`.
pub open spec fn selected_pids(f: ProcessFilter, snap: Map<u32, ProcessView>, me: Seq<char>) -> Set<u32> {
    Set::new(|pid: u32| snap.contains_key(pid) && filter_accepts(f, snap[pid], me))
}

/// Reordering a listing keeps it a listing of the same records.
proof fn lemma_permutation_keeps_listing(
    a: Seq<ProcessView>,
    b: Seq<ProcessView>,
    src: Map<u32, ProcessView>,
    pids: Set<u32>,
)
    requires
        a.to_multiset() == b.to_multiset(),
        lists_records(a, src, pids),
    ensures
        lists_records(b, src, pids),
{
    broadcast use vstd::seq_lib::to_multiset_contains;

    assert forall|i: int| 0 <= i < b.len() implies pids.contains(#[trigger] b[i].pid) && src.contains_key(b[i].pid) && b[i] == src[b[i].pid] by {
        assert(b.contains(b[i]));
        assert(b.to_multiset().count(b[i]) > 0);
        assert(a.to_multiset().count(b[i]) > 0);
        let j = choose|j: int| 0 <= j < a.len() && a[j] == b[i];
        assert(pids.contains(a[j].pid));
    }
    assert forall|pid: u32| #[trigger] pids.contains(pid) implies exists|i: int| 0 <= i < b.len() && #[trigger] b[i].pid == pid by {
        let j = choose|j: int| 0 <= j < a.len() && #[trigger] a[j].pid == pid;
        assert(a.contains(a[j]));
        assert(a.to_multiset().count(a[j]) > 0);
        assert(b.to_multiset().count(a[j]) > 0);
        let i = choose|i: int| 0 <= i < b.len() && b[i] == a[j];
        assert(b[i].pid == pid);
    }
    assert(a.no_duplicates()) by {
        assert forall|i: int, j: int| 0 <= i < a.len() && 0 <= j < a.len() && i != j implies a[i] != a[j] by {
            if i < j {
                assert(a[i].pid != a[j].pid);
            } else {
                assert(a[j].pid != a[i].pid);
            }
        }
    }
    a.lemma_multiset_has_no_duplicates();
    b.lemma_multiset_has_no_duplicates_conv();
    assert forall|i: int, j: int| 0 <= i < j < b.len() implies #[trigger] b[i].pid != #[trigger] b[j].pid by {
        assert(b[i] != b[j]);
    }
}

/// Lists the processes of the current snapshot that the filter admits
/// (every process when there is no filter), in the requested order (highest
/// CPU first when there is none).
pub fn list_processes(filter: Option<ProcessFilter>, sort: Option<SortSpec>, state: &AppState) -> (r: Result<Vec<ProcessDto>, AppError>)
    requires
        state.wf(),
    ensures
        r is Ok,
        r matches Ok(v) ==> {
            &&& lists_records(
                views(v@),
                snapshot_view(state.snapshot),
                selected_pids(effective_filter(filter), snapshot_view(state.snapshot), state.current_user@),
            )
            &&& sorted_by(views(v@), effective_sort(sort))
            &&& (sort is None ==> forall|i: int, j: int| 0 <= i < j < v.len() ==> #[trigger] v@[i].cpu_millipercent >= #[trigger] v@[j].cpu_millipercent)
            &&& (filter matches Some(f) && f.mine_only == Some(true) ==> forall|i: int| 0 <= i < v.len() ==> opt_text(#[trigger] v@[i].user) == Some(state.current_user@))
        },
{
    let f = match filter {
        Some(f) => f,
        None => ProcessFilter::default(),
    };
    let ghost n = snapshot_view(state.snapshot);
    let ghost me = state.current_user@;
    let ghost sel = selected_pids(f, n, me);
    proof {
        assert(n.dom() =~= state.snapshot@.dom());
    }
    let mut result: Vec<ProcessDto> = Vec::new();
    let keys = state.snapshot.keys();
    let ghost key_seq = keys.remaining().unref();
    for pid in it: keys
        invariant
            it.seq().unref() == key_seq,
            n == snapshot_view(state.snapshot),
            me == state.current_user@,
            sel == selected_pids(f, n, me),
            n.dom() == state.snapshot@.dom(),
            forall|k: u32| #[trigger] state.snapshot@.contains_key(k) ==> n[k] == state.snapshot@[k]@,
            snapshot_wf(n),
            key_seq.to_set() == state.snapshot@.dom(),
            key_seq.no_duplicates(),
            0 <= it.index() <= key_seq.len(),
            forall|i: int| 0 <= i < result.len() ==> {
                let p = #[trigger] result@[i]@;
                &&& sel.contains(p.pid)
                &&& n[p.pid] == p
                &&& forall|k: int| it.index() <= k < key_seq.len() ==> key_seq[k] != p.pid
            },
            forall|k: int| 0 <= k < it.index() ==> (sel.contains(#[trigger] key_seq[k]) ==> exists|i: int| 0 <= i < result.len() && result@[i]@.pid == key_seq[k]),
            forall|i: int, j: int| 0 <= i < j < result.len() ==> #[trigger] result@[i]@.pid != #[trigger] result@[j]@.pid,
    {
        let ghost idx = it.index() as int;
        let ghost result0 = result@;
        proof {
            assert(key_seq[idx] == *pid);
            assert(key_seq.contains(*pid));
            assert(key_seq.to_set().contains(*pid));
        }
        let p = state.snapshot.get(pid).unwrap();
        assert(n[*pid] == p@);
        let keep = f.matches(p, state.current_user.as_str());
        if keep {
            result.push(p.clone());
        }
        proof {
            assert(keep <==> sel.contains(*pid));
            assert forall|k: int| idx + 1 <= k < key_seq.len() implies key_seq[k] != *pid by {
                assert(key_seq[idx] == *pid);
            }
            if keep {
                assert(result@ == result0.push(result@[result0.len() as int]));
                assert(result@[result0.len() as int]@ == n[*pid]);
            } else {
                assert(result@ == result0);
            }
            assert forall|k: int| 0 <= k < idx + 1 && sel.contains(#[trigger] key_seq[k]) implies exists|i: int| 0 <= i < result.len() && result@[i]@.pid == key_seq[k] by {
                if k < idx {
                    let i = choose|i: int| 0 <= i < result0.len() && result0[i]@.pid == key_seq[k];
                    assert(result@[i] == result0[i]);
                } else {
                    assert(result@[result0.len() as int]@.pid == key_seq[k]);
                }
            }
        }
    }
    proof {
        let rv = views(result@);
        assert forall|pid: u32| #[trigger] sel.contains(pid) implies exists|i: int| 0 <= i < rv.len() && #[trigger] rv[i].pid == pid by {
            assert(key_seq.to_set().contains(pid));
            let k = choose|k: int| 0 <= k < key_seq.len() && key_seq[k] == pid;
            assert(sel.contains(key_seq[k]));
            let i = choose|i: int| 0 <= i < result.len() && result@[i]@.pid == key_seq[k];
            assert(rv[i].pid == pid);
        }
        assert(lists_records(rv, n, sel));
    }
    let ghost unsorted = views(result@);
    let spec = match sort {
        Some(s) => s,
        None => SortSpec { field: SortField::CpuPercent, direction: SortDirection::Desc },
    };
    apply_sort(&mut result, &spec);
    proof {
        lemma_permutation_keeps_listing(unsorted, views(result@), n, sel);
        let rv = views(result@);
        if filter is None {
            assert(f == open_filter());
        }
        if sort is None {
            assert forall|i: int, j: int| 0 <= i < j < result.len() implies #[trigger] result@[i].cpu_millipercent >= #[trigger] result@[j].cpu_millipercent by {
                assert(rv[i].cpu_millipercent == result@[i].cpu_millipercent);
                assert(rv[j].cpu_millipercent == result@[j].cpu_millipercent);
            }
        }
        if filter is Some && f.mine_only == Some(true) {
            assert forall|i: int| 0 <= i < result.len() implies opt_text(#[trigger] result@[i].user) == Some(me) by {
                assert(sel.contains(rv[i].pid));
                assert(opt_text(result@[i].user) == rv[i].user);
            }
        }
    }
    Ok(result)
}

/// Details of one process of the current snapshot. The optional counters
/// are left absent: the collector does not supply them.
pub fn process_details(pid: u32, state: &AppState) -> (r: Result<ProcessDetails, AppError>)
    ensures
        r is Ok <==> state.snapshot@.contains_key(pid),
        r matches Ok(d) ==> {
            &&& d.dto@ == state.snapshot@[pid]@
            &&& d.threads is None
            &&& d.virtual_memory_bytes is None
            &&& d.disk_read_bytes is None
            &&& d.disk_written_bytes is None
            &&& d.open_files_count is None
            &&& d.environment is None
        },
        r matches Err(e) ==> e == (AppError::NotFound { pid }),
{
    match state.snapshot.get(&pid) {
        Some(p) => Ok(
            ProcessDetails {
                dto: p.clone(),
                threads: None,
                virtual_memory_bytes: None,
                disk_read_bytes: None,
                disk_written_bytes: None,
                open_files_count: None,
                environment: None,
            },
        ),
        None => Err(AppError::NotFound { pid }),
    }
}

/// Stores the refresh interval, brought into the range 200 to 10000 ms.
pub fn set_refresh_interval(ms: u64, state: &mut AppState) -> (r: Result<(), AppError>)
    requires
        old(state).wf(),
    ensures
        r is Ok,
        final(state).wf(),
        final(state).refresh_interval_ms == clamp_interval(ms),
        final(state).snapshot == old(state).snapshot,
        final(state).paused == old(state).paused,
        final(state).current_user == old(state).current_user,
{
    let clamped = if ms < MIN_REFRESH_INTERVAL_MS {
        MIN_REFRESH_INTERVAL_MS
    } else if ms > MAX_REFRESH_INTERVAL_MS {
        MAX_REFRESH_INTERVAL_MS
    } else {
        ms
    };
    state.refresh_interval_ms = clamped;
    Ok(())
}

/// Pauses or resumes automatic refresh.
pub fn set_paused(paused: bool, state: &mut AppState) -> (r: Result<(), AppError>)
    requires
        old(state).wf(),
    ensures
        r is Ok,
        final(state).wf(),
        final(state).paused == paused,
        final(state).snapshot == old(state).snapshot,
        final(state).refresh_interval_ms == old(state).refresh_interval_ms,
        final(state).current_user == old(state).current_user,
{
    state.paused = paused;
    Ok(())
}

/// Checks a termination request against the current snapshot. `Ok` means
/// the pid is known and the request for `mode` may be issued to the OS; an
/// unknown pid fails with `NotFound` before anything is sent.
pub fn kill_process(pid: u32, mode: KillMode, state: &AppState) -> (r: Result<KillMode, AppError>)
    ensures
        r is Ok <==> state.snapshot@.contains_key(pid),
        r matches Ok(m) ==> m == mode,
        r matches Err(e) ==> e == (AppError::NotFound { pid }),
{
    if !state.snapshot.contains_key(&pid) {
        return Err(AppError::NotFound { pid });
    }
    Ok(mode)
}

/// How the OS refused a termination request.
#[derive(Debug, Clone, Copy, PartialEq, Eq, Structural)]
pub enum KillFailure {
    /// The caller may not signal the process.
    PermissionDenied,
    /// The process no longer exists.
    NoSuchProcess,
    /// Any other failure.
    Other,
}

/// Message reported when the OS refuses to signal a process.
pub open spec fn permission_message() -> Seq<char> {
    "Insufficient permissions to signal this process"@
}

/// `e` is `PermissionDenied` for `pid` with message `msg`.
pub open spec fn is_permission_denied(e: AppError, pid: u32, msg: Seq<char>) -> bool {
    match e {
        AppError::PermissionDenied { pid: p, message } => p == pid && message@ == msg,
        _ => false,
    }
}

/// `e` is `OsError` with message `msg`.
pub open spec fn is_os_error(e: AppError, msg: Seq<char>) -> bool {
    match e {
        AppError::OsError { message } => message@ == msg,
        _ => false,
    }
}

/// The error reported to the caller for a refused termination request;
/// `os_message` is the OS's own description of the failure.
pub fn kill_error(pid: u32, failure: KillFailure, os_message: String) -> (r: AppError)
    ensures
        failure == KillFailure::PermissionDenied ==> is_permission_denied(r, pid, permission_message()),
        failure == KillFailure::NoSuchProcess ==> r == (AppError::NotFound { pid }),
        failure == KillFailure::Other ==> is_os_error(r, os_message@),
{
    match failure {
        KillFailure::PermissionDenied => {
            proof {
                reveal_strlit("Insufficient permissions to signal this process");
            }
            AppError::PermissionDenied { pid, message: "Insufficient permissions to signal this process".to_owned() }
        },
        KillFailure::NoSuchProcess => AppError::NotFound { pid },
        KillFailure::Other => AppError::OsError { message: os_message },
    }
}

/// The executable path of a process of the current snapshot, whose folder
/// the host opens. Fails with `NotFound` when the pid is unknown or its path
/// is.
pub fn open_path(pid: u32, state: &AppState) -> (r: Result<String, AppError>)
    ensures
        r is Ok <==> state.snapshot@.contains_key(pid) && state.snapshot@[pid].path is Some,
        r matches Ok(path) ==> opt_text(state.snapshot@[pid].path) == Some(path@),
        r matches Err(e) ==> e == (AppError::NotFound { pid }),
{
    match state.snapshot.get(&pid) {
        Some(p) => match &p.path {
            Some(path) => Ok(path.clone()),
            None => Err(AppError::NotFound { pid }),
        },
        None => Err(AppError::NotFound { pid }),
    }
}

} // verus!
