//! Process records and the value objects that describe a query.

use vstd::prelude::*;

verus! {

/// Scheduling state of a process.
#[derive(Debug, Clone, Copy, PartialEq, Eq, Structural)]
pub enum ProcessStatus {
    Running,
    Sleeping,
    Stopped,
    Zombie,
    Unknown,
}

/// One row of the process table at snapshot time.
///
/// CPU usage is kept in thousandths of a percent (`12.5 %` is `12500`).
#[derive(Debug)]
pub struct ProcessDto {
    pub pid: u32,
    pub name: String,
    pub status: ProcessStatus,
    /// CPU usage in thousandths of a percent, normalised per core.
    pub cpu_millipercent: u32,
    /// Resident set size in bytes.
    pub memory_bytes: u64,
    /// Name of the owning user, when it could be resolved.
    pub user: Option<String>,
    /// Full path to the executable, when known.
    pub path: Option<String>,
    pub parent_pid: Option<u32>,
    /// Start time in seconds since the Unix epoch, when known.
    pub start_time: Option<u64>,
    /// True when the owner is known, non-empty and not the current user.
    pub needs_elevation: bool,
    pub cmd: Vec<String>,
}

/// Mathematical model of a [`ProcessDto`]: every string seen as its characters.
pub struct ProcessView {
    pub pid: u32,
    pub name: Seq<char>,
    pub status: ProcessStatus,
    pub cpu_millipercent: u32,
    pub memory_bytes: u64,
    pub user: Option<Seq<char>>,
    pub path: Option<Seq<char>>,
    pub parent_pid: Option<u32>,
    pub start_time: Option<u64>,
    pub needs_elevation: bool,
    pub cmd: Seq<Seq<char>>,
}

/// The characters of an optional string.
pub open spec fn opt_text(s: Option<String>) -> Option<Seq<char>> {
    match s {
        Some(t) => Some(t@),
        None => None,
    }
}

/// The characters of each string, in order.
pub open spec fn texts(v: Seq<String>) -> Seq<Seq<char>> {
    v.map_values(|s: String| s@)
}

impl View for ProcessDto {
    type V = ProcessView;

    open spec fn view(&self) -> ProcessView {
        ProcessView {
            pid: self.pid,
            name: self.name@,
            status: self.status,
            cpu_millipercent: self.cpu_millipercent,
            memory_bytes: self.memory_bytes,
            user: opt_text(self.user),
            path: opt_text(self.path),
            parent_pid: self.parent_pid,
            start_time: self.start_time,
            needs_elevation: self.needs_elevation,
            cmd: texts(self.cmd@),
        }
    }
}

/// Copies an optional string.
pub fn clone_opt_text(s: &Option<String>) -> (r: Option<String>)
    ensures
        opt_text(r) == opt_text(*s),
{
    match s {
        Some(t) => Some(t.clone()),
        None => None,
    }
}

impl Clone for ProcessDto {
    fn clone(&self) -> (r: Self)
        ensures
            r@ == self@,
    {
        let user = clone_opt_text(&self.user);
        let path = clone_opt_text(&self.path);
        let mut cmd: Vec<String> = Vec::new();
        let mut i: usize = 0;
        while i < self.cmd.len()
            invariant
                i <= self.cmd.len(),
                cmd.len() == i,
                forall|k: int| 0 <= k < i ==> #[trigger] cmd@[k]@ == self.cmd@[k]@,
            decreases self.cmd.len() - i,
        {
            let arg = self.cmd[i].clone();
            cmd.push(arg);
            i = i + 1;
        }
        assert(texts(cmd@) =~= texts(self.cmd@));
        ProcessDto {
            pid: self.pid,
            name: self.name.clone(),
            status: self.status,
            cpu_millipercent: self.cpu_millipercent,
            memory_bytes: self.memory_bytes,
            user,
            path,
            parent_pid: self.parent_pid,
            start_time: self.start_time,
            needs_elevation: self.needs_elevation,
            cmd,
        }
    }
}

} // verus!

verus! {

/// Filter applied to the process table before results are returned.
/// Every criterion that is set must hold (they are combined with "and").
#[derive(Debug, Clone)]
pub struct ProcessFilter {
    /// Case-insensitive substring of the name, the path or the decimal pid.
    pub search: Option<String>,
    /// Exact owning user.
    pub user: Option<String>,
    /// Only processes owned by the current user.
    pub mine_only: Option<bool>,
    /// Only system processes (see [`is_system`]).
    pub system_only: Option<bool>,
    /// Only processes that are not system processes.
    pub non_system_only: Option<bool>,
    /// Exact status.
    pub status: Option<ProcessStatus>,
    /// Inclusive lower bound on CPU usage, in thousandths of a percent.
    pub cpu_gt: Option<u32>,
    /// Inclusive lower bound on resident memory, in bytes.
    pub memory_gt_bytes: Option<u64>,
}

impl Default for ProcessFilter {
    fn default() -> (r: Self)
        ensures
            r.search is None,
            r.user is None,
            r.mine_only is None,
            r.system_only is None,
            r.non_system_only is None,
            r.status is None,
            r.cpu_gt is None,
            r.memory_gt_bytes is None,
    {
        ProcessFilter {
            search: None,
            user: None,
            mine_only: None,
            system_only: None,
            non_system_only: None,
            status: None,
            cpu_gt: None,
            memory_gt_bytes: None,
        }
    }
}

/// Column that a listing can be sorted by.
#[derive(Debug, Clone, Copy, PartialEq, Eq, Structural)]
pub enum SortField {
    Pid,
    Name,
    CpuPercent,
    MemoryBytes,
    User,
    Status,
    StartTime,
}

/// Sort order.
#[derive(Debug, Clone, Copy, PartialEq, Eq, Structural)]
pub enum SortDirection {
    Asc,
    Desc,
}

/// Full sort specification.
#[derive(Debug, Clone, Copy, PartialEq, Eq, Structural)]
pub struct SortSpec {
    pub field: SortField,
    pub direction: SortDirection,
}

/// How a process is asked to terminate.
#[derive(Debug, Clone, Copy, PartialEq, Eq, Structural)]
pub enum KillMode {
    /// Graceful termination (SIGTERM on POSIX systems).
    Terminate,
    /// Forceful kill (SIGKILL on POSIX systems).
    Kill,
}

/// Incremental change set produced by one refresh tick.
#[derive(Debug, Clone)]
pub struct ProcessUpdateEvent {
    pub added: Vec<ProcessDto>,
    pub updated: Vec<ProcessDto>,
    pub removed: Vec<u32>,
    pub timestamp_ms: u64,
}

/// Detailed information about one process. Optional counters are absent
/// unless the collector can supply them.
#[derive(Debug, Clone)]
pub struct ProcessDetails {
    pub dto: ProcessDto,
    pub threads: Option<u32>,
    pub virtual_memory_bytes: Option<u64>,
    pub disk_read_bytes: Option<u64>,
    pub disk_written_bytes: Option<u64>,
    pub open_files_count: Option<usize>,
    pub environment: Option<Vec<String>>,
}

} // verus!
