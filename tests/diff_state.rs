use process_monitor::collector::{
    map_process, needs_elevation, resolve_username, snapshot_from_records, ProcessSample,
};
use process_monitor::commands::{
    kill_error, kill_process, list_processes, open_path, process_details, set_paused,
    set_refresh_interval, KillFailure,
};
use process_monitor::diff::{diff_snapshots, is_changed, Snapshot};
use process_monitor::error::AppError;
use process_monitor::process::{
    KillMode, ProcessDto, ProcessFilter, ProcessStatus, SortDirection, SortField, SortSpec,
};
use process_monitor::state::AppState;

fn rec(pid: u32, cpu: f32, mem: u64) -> ProcessDto {
    ProcessDto {
        pid,
        name: format!("proc{}", pid),
        status: ProcessStatus::Running,
        cpu_millipercent: (cpu * 1000.0).round() as u32,
        memory_bytes: mem,
        user: Some("alice".to_string()),
        path: Some(format!("/usr/bin/proc{}", pid)),
        parent_pid: None,
        start_time: Some(100),
        needs_elevation: false,
        cmd: vec!["--flag".to_string()],
    }
}

fn snap(records: Vec<ProcessDto>) -> Snapshot {
    snapshot_from_records(records)
}

fn sorted(mut v: Vec<u32>) -> Vec<u32> {
    v.sort();
    v
}

#[test]
fn diff_scenario_small_cpu_jitter_add_and_remove() {
    let s1 = snap(vec![rec(1, 5.0, 100), rec(2, 10.0, 200)]);
    let s2 = snap(vec![rec(1, 5.05, 100), rec(3, 1.0, 50)]);
    let ev = diff_snapshots(&s1, &s2, 42);
    assert_eq!(ev.added.iter().map(|p| p.pid).collect::<Vec<_>>(), vec![3]);
    assert!(ev.updated.is_empty());
    assert_eq!(ev.removed, vec![2]);
    assert_eq!(ev.timestamp_ms, 42);
    assert_eq!(ev.added[0].memory_bytes, 50);
}

#[test]
fn diff_of_identical_snapshots_is_empty() {
    let s = snap(vec![rec(1, 5.0, 100), rec(2, 10.0, 200), rec(7, 0.0, 1)]);
    let ev = diff_snapshots(&s, &s, 0);
    assert!(ev.added.is_empty());
    assert!(ev.updated.is_empty());
    assert!(ev.removed.is_empty());
    let empty = snap(vec![]);
    let ev = diff_snapshots(&empty, &empty, 0);
    assert!(ev.added.is_empty() && ev.updated.is_empty() && ev.removed.is_empty());
}

#[test]
fn diff_one_sided_pids_land_in_added_or_removed() {
    let s1 = snap(vec![rec(1, 1.0, 1), rec(2, 1.0, 1), rec(3, 1.0, 1)]);
    let s2 = snap(vec![rec(3, 1.0, 1), rec(4, 1.0, 1), rec(5, 1.0, 1)]);
    let ev = diff_snapshots(&s1, &s2, 0);
    assert_eq!(sorted(ev.added.iter().map(|p| p.pid).collect()), vec![4, 5]);
    assert_eq!(sorted(ev.removed.clone()), vec![1, 2]);
    assert!(ev.updated.is_empty());
}

#[test]
fn diff_memory_change_of_one_byte_is_updated() {
    let s1 = snap(vec![rec(1, 5.0, 100)]);
    let s2 = snap(vec![rec(1, 5.0, 101)]);
    let ev = diff_snapshots(&s1, &s2, 0);
    assert_eq!(ev.updated.len(), 1);
    assert_eq!(ev.updated[0].memory_bytes, 101);
}

#[test]
fn diff_cpu_threshold_and_status_change() {
    let base = rec(1, 5.0, 100);
    let at_threshold = rec(1, 5.1, 100);
    let above = rec(1, 5.2, 100);
    let below = rec(1, 4.8, 100);
    assert!(!is_changed(&base, &at_threshold));
    assert!(is_changed(&base, &above));
    assert!(is_changed(&base, &below));
    let mut stopped = rec(1, 5.0, 100);
    stopped.status = ProcessStatus::Stopped;
    assert!(is_changed(&base, &stopped));
    let ev = diff_snapshots(&snap(vec![base]), &snap(vec![stopped]), 0);
    assert_eq!(ev.updated.len(), 1);
    assert_eq!(ev.updated[0].status, ProcessStatus::Stopped);
}

#[test]
fn refresh_interval_is_clamped() {
    let mut st = AppState::new("alice".to_string());
    assert_eq!(st.refresh_interval_ms, 1000);
    assert!(set_refresh_interval(50, &mut st).is_ok());
    assert_eq!(st.refresh_interval_ms, 200);
    assert!(set_refresh_interval(999999, &mut st).is_ok());
    assert_eq!(st.refresh_interval_ms, 10000);
    assert!(set_refresh_interval(2500, &mut st).is_ok());
    assert_eq!(st.refresh_interval_ms, 2500);
    assert!(set_paused(true, &mut st).is_ok());
    assert!(st.paused);
    assert!(set_paused(false, &mut st).is_ok());
    assert!(!st.paused);
}

#[test]
fn terminate_unknown_pid_is_not_found() {
    let st = AppState::new("alice".to_string());
    let r = kill_process(99999, KillMode::Terminate, &st);
    assert_eq!(r, Err(AppError::NotFound { pid: 99999 }));
}

#[test]
fn terminate_known_pid_is_allowed() {
    let mut st = AppState::new("alice".to_string());
    st.replace_snapshot(snap(vec![rec(10, 0.0, 0)]));
    assert_eq!(kill_process(10, KillMode::Kill, &st), Ok(KillMode::Kill));
}

#[test]
fn kill_errors_are_classified() {
    match kill_error(5, KillFailure::PermissionDenied, "EPERM".to_string()) {
        AppError::PermissionDenied { pid, message } => {
            assert_eq!(pid, 5);
            assert_eq!(message, "Insufficient permissions to signal this process");
        }
        other => panic!("unexpected {:?}", other),
    }
    assert_eq!(
        kill_error(5, KillFailure::NoSuchProcess, "ESRCH".to_string()),
        AppError::NotFound { pid: 5 }
    );
    assert_eq!(
        kill_error(5, KillFailure::Other, "boom".to_string()),
        AppError::OsError { message: "boom".to_string() }
    );
}

#[test]
fn mine_only_listing_returns_own_processes() {
    let mut st = AppState::new("alice".to_string());
    let mut other = rec(2, 50.0, 10);
    other.user = Some("bob".to_string());
    let mut unknown = rec(3, 60.0, 10);
    unknown.user = None;
    st.replace_snapshot(snap(vec![rec(1, 1.0, 10), other, unknown, rec(4, 2.0, 10)]));
    let f = ProcessFilter { mine_only: Some(true), ..Default::default() };
    let v = list_processes(Some(f), None, &st).unwrap();
    assert_eq!(v.iter().map(|p| p.pid).collect::<Vec<_>>(), vec![4, 1]);
    assert!(v.iter().all(|p| p.user.as_deref() == Some("alice")));
}

#[test]
fn default_listing_is_by_descending_cpu() {
    let mut st = AppState::new("alice".to_string());
    st.replace_snapshot(snap(vec![
        rec(1, 1.0, 0),
        rec(2, 30.0, 0),
        rec(3, 7.5, 0),
        rec(4, 99.0, 0),
    ]));
    let v = list_processes(None, None, &st).unwrap();
    assert_eq!(v.iter().map(|p| p.pid).collect::<Vec<_>>(), vec![4, 2, 3, 1]);
    let by_pid = SortSpec { field: SortField::Pid, direction: SortDirection::Asc };
    let v = list_processes(None, Some(by_pid), &st).unwrap();
    assert_eq!(v.iter().map(|p| p.pid).collect::<Vec<_>>(), vec![1, 2, 3, 4]);
}

#[test]
fn details_and_open_path() {
    let mut st = AppState::new("alice".to_string());
    let mut no_path = rec(8, 0.0, 0);
    no_path.path = None;
    st.replace_snapshot(snap(vec![rec(7, 0.0, 0), no_path]));
    let d = process_details(7, &st).unwrap();
    assert_eq!(d.dto.pid, 7);
    assert_eq!(d.dto.cmd, vec!["--flag".to_string()]);
    assert!(d.threads.is_none() && d.environment.is_none() && d.open_files_count.is_none());
    assert!(matches!(process_details(9, &st), Err(AppError::NotFound { pid: 9 })));
    assert_eq!(open_path(7, &st), Ok("/usr/bin/proc7".to_string()));
    assert_eq!(open_path(8, &st), Err(AppError::NotFound { pid: 8 }));
    assert_eq!(open_path(9, &st), Err(AppError::NotFound { pid: 9 }));
}

#[test]
fn tick_reports_only_real_changes() {
    let mut st = AppState::new("alice".to_string());
    st.replace_snapshot(snap(vec![rec(1, 5.0, 100)]));
    assert!(st.apply_tick(snap(vec![rec(1, 5.05, 100)]), 10).is_none());
    assert_eq!(st.snapshot.get(&1).unwrap().cpu_millipercent, 5050);
    let ev = st.apply_tick(snap(vec![rec(1, 5.05, 100), rec(2, 0.0, 1)]), 20).unwrap();
    assert_eq!(ev.added.len(), 1);
    assert_eq!(ev.timestamp_ms, 20);
    assert_eq!(st.snapshot.len(), 2);
}

#[test]
fn snapshot_keeps_last_record_per_pid() {
    let s = snap(vec![rec(1, 1.0, 10), rec(2, 1.0, 20), rec(1, 1.0, 30)]);
    assert_eq!(s.len(), 2);
    assert_eq!(s.get(&1).unwrap().memory_bytes, 30);
    assert_eq!(s.get(&2).unwrap().memory_bytes, 20);
}

#[test]
fn elevation_and_username() {
    assert!(needs_elevation(&Some("root".to_string()), "alice"));
    assert!(!needs_elevation(&Some("alice".to_string()), "alice"));
    assert!(!needs_elevation(&Some(String::new()), "alice"));
    assert!(!needs_elevation(&None, "alice"));
    assert_eq!(resolve_username(Some("a".to_string()), Some("b".to_string())), "a");
    assert_eq!(resolve_username(None, Some("b".to_string())), "b");
    assert_eq!(resolve_username(None, None), "unknown");
}

#[test]
fn sample_becomes_record() {
    let sample = ProcessSample {
        pid: 42,
        name: "daemon".to_string(),
        status: ProcessStatus::Sleeping,
        cpu_millipercent: 1500,
        memory_bytes: 4096,
        user: Some("root".to_string()),
        path: None,
        parent_pid: Some(1),
        start_time: 77,
        cmd: vec!["daemon".to_string(), "-d".to_string()],
    };
    let r = map_process(sample, "alice");
    assert_eq!(r.pid, 42);
    assert_eq!(r.status, ProcessStatus::Sleeping);
    assert_eq!(r.start_time, Some(77));
    assert_eq!(r.parent_pid, Some(1));
    assert!(r.needs_elevation);
    assert_eq!(r.cmd.len(), 2);
}

#[test]
fn cloned_record_is_equal_field_by_field() {
    let a = rec(3, 12.5, 9);
    let b = a.clone();
    assert_eq!(a.pid, b.pid);
    assert_eq!(a.name, b.name);
    assert_eq!(a.user, b.user);
    assert_eq!(a.path, b.path);
    assert_eq!(a.cmd, b.cmd);
    assert_eq!(a.cpu_millipercent, 12500);
}
