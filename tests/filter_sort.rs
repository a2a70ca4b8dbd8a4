use process_monitor::process::{
    ProcessDto, ProcessFilter, ProcessStatus, SortDirection, SortField, SortSpec,
};
use process_monitor::query::{apply_sort, is_system};

fn make_proc(pid: u32, name: &str, cpu: f32, mem: u64, user: &str) -> ProcessDto {
    ProcessDto {
        pid,
        name: name.to_string(),
        status: ProcessStatus::Running,
        cpu_millipercent: (cpu * 1000.0).round() as u32,
        memory_bytes: mem,
        user: Some(user.to_string()),
        path: Some(format!("/usr/bin/{}", name)),
        parent_pid: None,
        start_time: None,
        needs_elevation: false,
        cmd: vec![],
    }
}

fn cpu(percent: f32) -> u32 {
    (percent * 1000.0).round() as u32
}

#[test]
fn test_filter_search_by_name() {
    let p = make_proc(1000, "chrome", 5.0, 1024, "alice");
    let f = ProcessFilter {
        search: Some("chro".to_string()),
        ..Default::default()
    };
    assert!(f.matches(&p, "alice"));
}

#[test]
fn test_filter_search_by_pid() {
    let p = make_proc(1234, "firefox", 2.0, 512, "alice");
    let f = ProcessFilter {
        search: Some("1234".to_string()),
        ..Default::default()
    };
    assert!(f.matches(&p, "alice"));
}

#[test]
fn test_filter_mine_only() {
    let p1 = make_proc(1, "init", 0.0, 100, "root");
    let p2 = make_proc(2, "bash", 0.0, 50, "alice");
    let f = ProcessFilter {
        mine_only: Some(true),
        ..Default::default()
    };
    assert!(!f.matches(&p1, "alice"));
    assert!(f.matches(&p2, "alice"));
}

#[test]
fn test_filter_cpu_threshold() {
    let p1 = make_proc(10, "idle", 0.5, 100, "root");
    let p2 = make_proc(11, "compile", 90.0, 500, "alice");
    let f = ProcessFilter {
        cpu_gt: Some(cpu(50.0)),
        ..Default::default()
    };
    assert!(!f.matches(&p1, "alice"));
    assert!(f.matches(&p2, "alice"));
}

#[test]
fn test_sort_by_cpu_desc() {
    let mut procs = vec![
        make_proc(1, "a", 10.0, 100, "u"),
        make_proc(2, "b", 80.0, 100, "u"),
        make_proc(3, "c", 40.0, 100, "u"),
    ];
    apply_sort(
        &mut procs,
        &SortSpec {
            field: SortField::CpuPercent,
            direction: SortDirection::Desc,
        },
    );
    assert_eq!(procs[0].pid, 2);
    assert_eq!(procs[1].pid, 3);
    assert_eq!(procs[2].pid, 1);
}

#[test]
fn test_sort_by_name_asc() {
    let mut procs = vec![
        make_proc(1, "zsh", 0.0, 0, "u"),
        make_proc(2, "bash", 0.0, 0, "u"),
        make_proc(3, "ash", 0.0, 0, "u"),
    ];
    apply_sort(
        &mut procs,
        &SortSpec {
            field: SortField::Name,
            direction: SortDirection::Asc,
        },
    );
    assert_eq!(procs[0].name, "ash");
    assert_eq!(procs[1].name, "bash");
    assert_eq!(procs[2].name, "zsh");
}

#[test]
fn search_pid_matches_regardless_of_name_and_path() {
    let mut p = make_proc(1234, "zzz", 0.0, 0, "bob");
    p.path = Some("/opt/qqq".to_string());
    let f = ProcessFilter {
        search: Some("1234".to_string()),
        ..Default::default()
    };
    assert!(f.matches(&p, "alice"));
    let g = ProcessFilter {
        search: Some("999".to_string()),
        ..Default::default()
    };
    assert!(!g.matches(&p, "alice"));
}

#[test]
fn search_ignores_case_of_query_and_name() {
    let p = make_proc(4321, "Chrome", 0.0, 0, "alice");
    let f = ProcessFilter {
        search: Some("CHRO".to_string()),
        ..Default::default()
    };
    assert!(f.matches(&p, "alice"));
}

#[test]
fn search_matches_path_only() {
    let mut p = make_proc(4321, "worker", 0.0, 0, "alice");
    p.path = Some("/srv/MyService/bin/worker".to_string());
    let f = ProcessFilter {
        search: Some("myservice".to_string()),
        ..Default::default()
    };
    assert!(f.matches(&p, "alice"));
}

#[test]
fn search_without_path_and_no_match_rejects() {
    let mut p = make_proc(4321, "worker", 0.0, 0, "alice");
    p.path = None;
    let f = ProcessFilter {
        search: Some("bin".to_string()),
        ..Default::default()
    };
    assert!(!f.matches(&p, "alice"));
}

#[test]
fn user_filter_is_exact_and_case_sensitive() {
    let p = make_proc(700, "x", 0.0, 0, "Alice");
    let exact = ProcessFilter {
        user: Some("Alice".to_string()),
        ..Default::default()
    };
    let other_case = ProcessFilter {
        user: Some("alice".to_string()),
        ..Default::default()
    };
    assert!(exact.matches(&p, "bob"));
    assert!(!other_case.matches(&p, "bob"));
    let mut unknown = make_proc(701, "y", 0.0, 0, "Alice");
    unknown.user = None;
    assert!(!exact.matches(&unknown, "bob"));
}

#[test]
fn system_heuristics() {
    let low_pid = make_proc(499, "a", 0.0, 0, "alice");
    let root = make_proc(5000, "b", 0.0, 0, "root");
    let nt = make_proc(5001, "c", 0.0, 0, "NT AUTHORITY\\SYSTEM");
    let system = make_proc(5002, "d", 0.0, 0, "SYSTEM");
    let user = make_proc(500, "e", 0.0, 0, "alice");
    assert!(is_system(&low_pid));
    assert!(is_system(&root));
    assert!(is_system(&nt));
    assert!(is_system(&system));
    assert!(!is_system(&user));

    let only_system = ProcessFilter {
        system_only: Some(true),
        ..Default::default()
    };
    let no_system = ProcessFilter {
        non_system_only: Some(true),
        ..Default::default()
    };
    assert!(only_system.matches(&root, "alice"));
    assert!(!only_system.matches(&user, "alice"));
    assert!(!no_system.matches(&root, "alice"));
    assert!(no_system.matches(&user, "alice"));
}

#[test]
fn status_and_memory_thresholds() {
    let mut p = make_proc(900, "x", 0.0, 1000, "alice");
    p.status = ProcessStatus::Sleeping;
    let sleeping = ProcessFilter {
        status: Some(ProcessStatus::Sleeping),
        ..Default::default()
    };
    let running = ProcessFilter {
        status: Some(ProcessStatus::Running),
        ..Default::default()
    };
    assert!(sleeping.matches(&p, "alice"));
    assert!(!running.matches(&p, "alice"));
    let mem_eq = ProcessFilter {
        memory_gt_bytes: Some(1000),
        ..Default::default()
    };
    let mem_above = ProcessFilter {
        memory_gt_bytes: Some(1001),
        ..Default::default()
    };
    assert!(mem_eq.matches(&p, "alice"));
    assert!(!mem_above.matches(&p, "alice"));
}

#[test]
fn cpu_threshold_is_inclusive() {
    let p = make_proc(901, "x", 50.0, 0, "alice");
    let f = ProcessFilter {
        cpu_gt: Some(cpu(50.0)),
        ..Default::default()
    };
    assert!(f.matches(&p, "alice"));
}

#[test]
fn sort_by_pid_memory_start_time_and_status() {
    let mut a = make_proc(3, "a", 0.0, 30, "u");
    let mut b = make_proc(1, "b", 0.0, 10, "u");
    let mut c = make_proc(2, "c", 0.0, 20, "u");
    a.start_time = Some(5);
    b.start_time = None;
    c.start_time = Some(1);
    a.status = ProcessStatus::Zombie;
    b.status = ProcessStatus::Stopped;
    c.status = ProcessStatus::Running;
    let base = vec![a, b, c];

    let mut v = base.clone();
    apply_sort(&mut v, &SortSpec { field: SortField::Pid, direction: SortDirection::Asc });
    assert_eq!(v.iter().map(|p| p.pid).collect::<Vec<_>>(), vec![1, 2, 3]);

    let mut v = base.clone();
    apply_sort(&mut v, &SortSpec { field: SortField::MemoryBytes, direction: SortDirection::Desc });
    assert_eq!(v.iter().map(|p| p.pid).collect::<Vec<_>>(), vec![3, 2, 1]);

    let mut v = base.clone();
    apply_sort(&mut v, &SortSpec { field: SortField::StartTime, direction: SortDirection::Asc });
    assert_eq!(v.iter().map(|p| p.pid).collect::<Vec<_>>(), vec![1, 2, 3]);

    let mut v = base.clone();
    apply_sort(&mut v, &SortSpec { field: SortField::Status, direction: SortDirection::Asc });
    assert_eq!(v.iter().map(|p| p.pid).collect::<Vec<_>>(), vec![2, 1, 3]);
}

#[test]
fn sort_by_user_is_case_sensitive_with_missing_first() {
    let a = make_proc(1, "a", 0.0, 0, "bob");
    let b = make_proc(2, "b", 0.0, 0, "Zed");
    let mut c = make_proc(3, "c", 0.0, 0, "x");
    c.user = None;
    let mut v = vec![a, b, c];
    apply_sort(&mut v, &SortSpec { field: SortField::User, direction: SortDirection::Asc });
    assert_eq!(v.iter().map(|p| p.pid).collect::<Vec<_>>(), vec![3, 2, 1]);
}

#[test]
fn sort_by_name_ignores_case() {
    let mut v = vec![
        make_proc(1, "beta", 0.0, 0, "u"),
        make_proc(2, "Alpha", 0.0, 0, "u"),
        make_proc(3, "Gamma", 0.0, 0, "u"),
    ];
    apply_sort(&mut v, &SortSpec { field: SortField::Name, direction: SortDirection::Asc });
    assert_eq!(v.iter().map(|p| p.pid).collect::<Vec<_>>(), vec![2, 1, 3]);
}

#[test]
fn sort_keeps_ties_in_order_and_handles_empty() {
    let mut v = vec![
        make_proc(1, "a", 5.0, 0, "u"),
        make_proc(2, "b", 5.0, 0, "u"),
        make_proc(3, "c", 9.0, 0, "u"),
    ];
    apply_sort(&mut v, &SortSpec { field: SortField::CpuPercent, direction: SortDirection::Desc });
    assert_eq!(v.iter().map(|p| p.pid).collect::<Vec<_>>(), vec![3, 1, 2]);
    let mut empty: Vec<ProcessDto> = vec![];
    apply_sort(&mut empty, &SortSpec { field: SortField::Pid, direction: SortDirection::Asc });
    assert!(empty.is_empty());
}
