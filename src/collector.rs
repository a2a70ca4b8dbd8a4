//! Turning what the OS reports about each process into process records and
//! a snapshot.

use crate::diff::{snapshot_view, snapshot_wf, Snapshot};
use crate::process::{opt_text, texts, ProcessDto, ProcessStatus, ProcessView};
use crate::text::same_text;
use std::collections::HashMap;
use vstd::prelude::*;

verus! {

broadcast use vstd::std_specs::hash::group_hash_axioms;

/// What the OS reports about one process, as plain values.
pub struct ProcessSample {
    pub pid: u32,
    pub name: String,
    pub status: ProcessStatus,
    /// CPU usage in thousandths of a percent.
    pub cpu_millipercent: u32,
    pub memory_bytes: u64,
    /// Owner's user name, when the owner id resolved to a known user.
    pub user: Option<String>,
    pub path: Option<String>,
    pub parent_pid: Option<u32>,
    pub start_time: u64,
    pub cmd: Vec<String>,
}

/// The owner is known, not empty, and not the current user.
pub open spec fn elevation_needed(user: Option<Seq<char>>, me: Seq<char>) -> bool {
    match user {
        Some(u) => u != me && u.len() > 0,
        None => false,
    }
}

/// Whether acting on a process owned by `user` needs elevated rights.
pub fn needs_elevation(user: &Option<String>, current_user: &str) -> (r: bool)
    ensures
        r == elevation_needed(opt_text(*user), current_user@),
{
    match user {
        Some(u) => !same_text(u.as_str(), current_user) && !u.as_str().is_empty(),
        None => false,
    }
}

/// The record for one sampled process, for a session run by `current_user`.
pub fn map_process(sample: ProcessSample, current_user: &str) -> (r: ProcessDto)
    ensures
        r@ == (ProcessView {
            pid: sample.pid,
            name: sample.name@,
            status: sample.status,
            cpu_millipercent: sample.cpu_millipercent,
            memory_bytes: sample.memory_bytes,
            user: opt_text(sample.user),
            path: opt_text(sample.path),
            parent_pid: sample.parent_pid,
            start_time: Some(sample.start_time),
            needs_elevation: elevation_needed(opt_text(sample.user), current_user@),
            cmd: texts(sample.cmd@),
        }),
{
    let elevated = needs_elevation(&sample.user, current_user);
    ProcessDto {
        pid: sample.pid,
        name: sample.name,
        status: sample.status,
        cpu_millipercent: sample.cpu_millipercent,
        memory_bytes: sample.memory_bytes,
        user: sample.user,
        path: sample.path,
        parent_pid: sample.parent_pid,
        start_time: Some(sample.start_time),
        needs_elevation: elevated,
        cmd: sample.cmd,
    }
}

/// The session's user name: the first variable that is set, else "unknown".
pub open spec fn username_choice(first: Option<Seq<char>>, second: Option<Seq<char>>) -> Seq<char> {
    match first {
        Some(u) => u,
        None => match second {
            Some(u) => u,
            None => "unknown"@,
        },
    }
}

/// Picks the session's user name from the environment variables the host
/// read, in order of precedence (`USER` then `LOGNAME` on POSIX systems,
/// `USERNAME` on Windows).
pub fn resolve_username(first: Option<String>, second: Option<String>) -> (r: String)
    ensures
        r@ == username_choice(opt_text(first), opt_text(second)),
{
    match first {
        Some(u) => u,
        None => match second {
            Some(u) => u,
            None => {
                proof {
                    reveal_strlit("unknown");
                }
                "unknown".to_owned()
            },
        },
    }
}

/// Builds a snapshot from collected records; when two records share a pid
/// the later one is kept.
pub fn snapshot_from_records(records: Vec<ProcessDto>) -> (r: Snapshot)
    ensures
        snapshot_wf(snapshot_view(r)),
        forall|pid: u32| #[trigger] snapshot_view(r).contains_key(pid) <==> exists|i: int| 0 <= i < records.len() && records@[i].pid == pid,
        forall|i: int| 0 <= i < records.len() && (forall|j: int| i < j < records.len() ==> records@[j].pid != records@[i].pid)
            ==> #[trigger] snapshot_view(r)[records@[i].pid] == records@[i]@,
{
    let ghost recs = records@;
    let mut result: Snapshot = HashMap::new();
    let mut rest = records;
    // Records are moved out from the back, so the first insertion of a pid
    // is the one that stays.
    while rest.len() > 0
        invariant
            rest.len() <= recs.len(),
            rest@ == recs.subrange(0, rest.len() as int),
            forall|pid: u32| #[trigger] result@.contains_key(pid) <==> exists|i: int| rest.len() <= i < recs.len() && recs[i].pid == pid,
            forall|pid: u32| #[trigger] result@.contains_key(pid) ==> result@[pid].pid == pid,
            forall|i: int| rest.len() <= i < recs.len() && (forall|j: int| i < j < recs.len() ==> recs[j].pid != recs[i].pid)
                ==> #[trigger] result@[recs[i].pid]@ == recs[i]@,
        decreases rest.len(),
    {
        let p = rest.pop().unwrap();
        let ghost at = rest.len() as int;
        assert(recs[at] == p);
        if !result.contains_key(&p.pid) {
            result.insert(p.pid, p);
        }
        proof {
            assert forall|pid: u32| #[trigger] result@.contains_key(pid) implies exists|i: int| rest.len() <= i < recs.len() && recs[i].pid == pid by {
                if pid == recs[at].pid {
                    assert(recs[at].pid == pid);
                }
            }
        }
    }
    proof {
        assert(snapshot_view(result).dom() =~= result@.dom());
    }
    result
}

} // verus!
