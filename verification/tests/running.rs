use nanosandbox::processes::{PROC_PGRP_ONLY, PROC_PPID_ONLY};
use nanosandbox::{MacOSExecutor, Pace, PollStep, SandboxConfig, SandboxError, TimeSpan, Usage, Watch};

fn usage() -> Usage {
    Usage { max_rss: 0, user_secs: 0, user_micros: 0, system_secs: 0, system_micros: 0 }
}

/// Process 100 leads the group {100, 101}; 102 left the group, its parent is
/// 101; 103 is a child of 102; 104 is unrelated.
fn escaped_child(kind: u32, arg: u32) -> Vec<i32> {
    match (kind, arg) {
        (PROC_PGRP_ONLY, 100) => vec![100, 101],
        (PROC_PPID_ONLY, 100) => vec![101],
        (PROC_PPID_ONLY, 101) => vec![102],
        (PROC_PPID_ONLY, 102) => vec![103],
        (PROC_PPID_ONLY, 1) => vec![100, 104],
        _ => Vec::new(),
    }
}

fn sorted(mut pids: Vec<i32>) -> Vec<i32> {
    pids.sort();
    pids
}

#[test]
fn tree_holds_group_and_descendants() {
    let pids = MacOSExecutor::sandbox_pids(100, &escaped_child);
    assert_eq!(sorted(pids), vec![100, 101, 102, 103]);
}

#[test]
fn tree_of_a_lone_process() {
    assert_eq!(MacOSExecutor::sandbox_pids(7, &|_, _| Vec::new()), vec![7]);
}

#[test]
fn tree_with_a_cycle_and_repeats() {
    let list = |kind: u32, arg: u32| match (kind, arg) {
        (PROC_PPID_ONLY, 1) => vec![2, 2, 3],
        (PROC_PPID_ONLY, 2) => vec![1, 3],
        (PROC_PPID_ONLY, 3) => vec![3, 2],
        _ => vec![1, 1],
    };
    assert_eq!(sorted(MacOSExecutor::sandbox_pids(1, &list)), vec![1, 2, 3]);
}

#[test]
fn test_macos_timeout_kills_escaped_child() {
    let config =
        SandboxConfig { wall_time_limit: Some(TimeSpan::from_secs(1)), ..Default::default() };
    let mut watch = Watch::new(100, &config);
    assert_eq!(
        watch.poll(0, &TimeSpan::new(1, 1)),
        PollStep::Continue { kill: true, measure: false }
    );
    assert!(watch.killed_by_timeout);
    let targets = MacOSExecutor::kill_targets(100, &escaped_child);
    assert_eq!(targets.last(), Some(&-100));
    assert_eq!(sorted(targets[..targets.len() - 1].to_vec()), vec![100, 101, 102, 103]);
}

#[test]
fn test_macos_memory_limit_counts_escaped_child() {
    let config = SandboxConfig {
        memory_limit: Some(50 * 1024 * 1024),
        wall_time_limit: Some(TimeSpan::from_secs(10)),
        ..Default::default()
    };
    let mut watch = Watch::new(100, &config);
    let read = |pid: i32| if pid == 103 { Some(200_000_000) } else { None };
    let used = MacOSExecutor::tree_footprint(100, &escaped_child, &read);
    assert_eq!(used, Some(200_000_000));
    assert!(watch.pace(used).kill);
    assert!(watch.killed_by_oom, "escaped child's memory should be counted");
}

#[test]
fn test_macos_memory_limit_enforced() {
    let config = SandboxConfig {
        memory_limit: Some(50 * 1024 * 1024),
        wall_time_limit: Some(TimeSpan::from_secs(10)),
        ..Default::default()
    };
    let mut watch = Watch::new(42, &config);
    watch.poll(0, &TimeSpan::from_secs(1));
    watch.pace(Some(1_000_000));
    assert_eq!(watch.poll(42, &TimeSpan::from_secs(1)), PollStep::Collect);
    let ok = watch.collect(0, &usage(), String::new(), String::new(), TimeSpan::from_secs(1));
    assert_eq!(ok.exit_code, 0);
    assert!(!ok.killed_by_oom);

    let mut watch = Watch::new(42, &config);
    watch.poll(0, &TimeSpan::from_secs(1));
    watch.pace(Some(200_000_000));
    let result = watch.collect(9, &usage(), String::new(), String::new(), TimeSpan::from_secs(1));
    assert!(result.killed_by_oom, "200MB allocation should exceed the 50MB limit");
    assert_eq!((result.exit_code, result.signal), (-1, Some(9)));
    assert!(!result.killed_by_timeout);
}

#[test]
fn test_peak_memory_collection() {
    let config = SandboxConfig {
        memory_limit: Some(256 * 1024 * 1024),
        wall_time_limit: Some(TimeSpan::from_secs(5)),
        ..Default::default()
    };
    let usage = Usage { max_rss: 11 * 1024 * 1024, ..usage() };
    let result = Watch::new(42, &config).collect(
        0,
        &usage,
        "done".to_string(),
        String::new(),
        TimeSpan::from_secs(1),
    );
    assert_eq!(result.exit_code, 0);
    assert!(result.peak_memory.is_some(), "peak_memory should be collected, got None");
    assert_eq!(result.peak_memory, Some(11 * 1024 * 1024));
    assert_eq!(result.stdout, "done");
    assert_eq!(result.stderr, "");
}

#[test]
fn test_cpu_time_collection() {
    let config =
        SandboxConfig { wall_time_limit: Some(TimeSpan::from_secs(10)), ..Default::default() };
    let usage = Usage {
        user_secs: 1,
        user_micros: 700_000,
        system_secs: 2,
        system_micros: 600_001,
        ..usage()
    };
    assert!(usage.is_representable());
    let result = Watch::new(42, &config).collect(
        0,
        &usage,
        String::new(),
        String::new(),
        TimeSpan::from_secs(5),
    );
    assert_eq!(result.exit_code, 0);
    assert_eq!(result.cpu_time, Some(TimeSpan::new(4, 300_001_000)));
    assert_eq!(result.duration, TimeSpan::from_secs(5));
}

#[test]
fn usage_that_does_not_fit() {
    assert!(!Usage { user_micros: -1, ..usage() }.is_representable());
    assert!(!Usage { system_micros: 4_294_968, ..usage() }.is_representable());
    assert!(!Usage { user_secs: -1, system_secs: 1, ..usage() }.is_representable());
    assert!(Usage { user_secs: -1, ..usage() }.is_representable());
}

#[test]
fn exit_codes_and_signals() {
    assert_eq!(MacOSExecutor::exit_status(0), (0, None));
    assert_eq!(MacOSExecutor::exit_status(3 << 8), (3, None));
    assert_eq!(MacOSExecutor::exit_status(255 << 8), (255, None));
    assert_eq!(MacOSExecutor::exit_status(9), (-1, Some(9)));
    assert_eq!(MacOSExecutor::exit_status(11 | 0x80), (-1, Some(11)));
    assert_eq!(MacOSExecutor::exit_status(0x137f), (-1, None));
}

#[test]
fn every_status_matches_libc() {
    for status in -70_000..70_000 {
        let expected = if libc::WIFEXITED(status) {
            (libc::WEXITSTATUS(status), None)
        } else if status & 0x7f != 0x7f {
            assert!(libc::WIFSIGNALED(status));
            (-1, Some(status & 0x7f))
        } else {
            assert!(!libc::WIFSIGNALED(status));
            (-1, None)
        };
        assert_eq!(MacOSExecutor::exit_status(status), expected);
    }
}

#[test]
fn timeout_kills_once() {
    let mut watch = Watch::new(42, &SandboxConfig::default());
    let go_on = |kill| PollStep::Continue { kill, measure: false };
    assert_eq!(watch.poll(0, &TimeSpan::from_secs(3600)), go_on(false));
    assert!(!watch.killed_by_timeout);
    assert_eq!(watch.poll(0, &TimeSpan::new(3600, 1)), go_on(true));
    assert_eq!(watch.poll(0, &TimeSpan::from_secs(3601)), go_on(false));
    assert!(watch.killed_by_timeout);
    assert_eq!(watch.poll(42, &TimeSpan::from_secs(3601)), PollStep::Collect);
}

#[test]
fn failed_wait() {
    let mut watch = Watch::new(42, &SandboxConfig::default());
    assert_eq!(watch.poll(-1, &TimeSpan::from_secs(9999)), PollStep::Fail);
    assert!(!watch.killed_by_timeout);
    assert!(matches!(
        Watch::wait_failure("No child processes"),
        SandboxError::ExecutionFailed(message) if message == "wait4 failed: No child processes"
    ));
}

#[test]
fn memory_sets_the_pace() {
    let config = SandboxConfig { memory_limit: Some(109), ..Default::default() };
    let mut watch = Watch::new(42, &config);
    assert_eq!(
        watch.poll(0, &TimeSpan::from_secs(0)),
        PollStep::Continue { kill: false, measure: true }
    );
    assert_eq!(watch.pace(Some(60)), Pace { kill: false, sleep_millis: 10 });
    assert_eq!(watch.pace(Some(61)), Pace { kill: false, sleep_millis: 2 });
    assert_eq!(watch.pace(Some(109)), Pace { kill: false, sleep_millis: 2 });
    assert_eq!(watch.pace(None), Pace { kill: false, sleep_millis: 10 });
    assert_eq!(watch.pace(Some(110)), Pace { kill: true, sleep_millis: 10 });
    assert!(watch.killed_by_oom);
    assert_eq!(
        watch.poll(0, &TimeSpan::from_secs(0)),
        PollStep::Continue { kill: false, measure: false }
    );
    assert_eq!(watch.pace(None), Pace { kill: false, sleep_millis: 10 });
    let mut unlimited = Watch::new(42, &SandboxConfig::default());
    assert_eq!(unlimited.pace(Some(u64::MAX)), Pace { kill: false, sleep_millis: 10 });
    assert!(!unlimited.killed_by_oom);
}

#[test]
fn footprint_of_a_tree() {
    let read = |pid: i32| if pid == 101 { None } else { Some(pid as u64) };
    assert_eq!(MacOSExecutor::tree_footprint(100, &escaped_child, &read), Some(305));
    let huge = |_: i32| Some(u64::MAX);
    assert_eq!(MacOSExecutor::tree_footprint(100, &escaped_child, &huge), None);
    assert_eq!(MacOSExecutor::total_footprint(&[]), Some(0));
    assert_eq!(MacOSExecutor::total_footprint(&[Some(u64::MAX), None]), Some(u64::MAX));
}

#[test]
fn room_for_a_listing() {
    assert!(MacOSExecutor::pid_buffer(0).is_none());
    assert!(MacOSExecutor::pid_buffer(-1).is_none());
    let buffer = MacOSExecutor::pid_buffer(10).unwrap();
    assert_eq!((buffer.slots, buffer.bytes), (18, 72));
    let buffer = MacOSExecutor::pid_buffer(i32::MAX).unwrap();
    assert_eq!(buffer.bytes, (buffer.slots * 4) as i32);
}

#[test]
fn listed_processes() {
    let buffer = [5, 0, -3, 6, 7];
    assert_eq!(MacOSExecutor::reported_pids(&buffer, 16), vec![5, 6]);
    assert_eq!(MacOSExecutor::reported_pids(&buffer, 19), vec![5, 6]);
    assert_eq!(MacOSExecutor::reported_pids(&buffer, 100), vec![5, 6, 7]);
    assert_eq!(MacOSExecutor::reported_pids(&buffer, 0), Vec::<i32>::new());
    assert_eq!(MacOSExecutor::reported_pids(&buffer, -1), Vec::<i32>::new());
}

#[test]
fn spans_of_time() {
    let span = TimeSpan::new(1, 2_500_000_000);
    assert_eq!((span.as_secs(), span.subsec_nanos()), (3, 500_000_000));
    let sum = span.plus(&TimeSpan::new(0, 600_000_000));
    assert_eq!((sum.as_secs(), sum.subsec_nanos()), (4, 100_000_000));
    assert!(sum.exceeds(&span));
    assert!(!span.exceeds(&span));
}
