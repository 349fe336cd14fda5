use nanosandbox::{
    Limit, LimitFailure, LimitRequest, LimitRun, MacOSExecutor, NetworkMode, SandboxConfig,
    SandboxError, TimeSpan,
};

fn pair(name: &str, value: &str) -> (String, String) {
    (name.to_string(), value.to_string())
}

fn all_requests(config: &SandboxConfig) -> Vec<LimitRequest> {
    let mut run =
        LimitRun::new(config.max_open_files, config.max_file_size, config.cpu_time_limit);
    let mut requests = Vec::new();
    while let Some(request) = run.next_request() {
        requests.push(request);
    }
    requests
}

#[test]
fn command_line_and_streams() {
    let executor = MacOSExecutor::new();
    let config = SandboxConfig { clear_env: true, ..Default::default() };
    let plan = executor.launch_plan(&config, "sh", &["-c", "echo ok"], true, &Vec::new());
    assert_eq!(plan.program, "/usr/bin/sandbox-exec");
    let profile = executor.generate_profile(&config);
    assert_eq!(plan.args, vec!["-p", profile.as_str(), "sh", "-c", "echo ok"]);
    assert_eq!(plan.current_dir, b"/tmp".to_vec());
    assert!(plan.clear_env);
    assert!(plan.pipe_stdin);
    let plan = executor.launch_plan(&config, "true", &[], false, &Vec::new());
    assert_eq!(plan.args.len(), 3);
    assert!(!plan.pipe_stdin);
}

#[test]
fn search_path_has_a_default() {
    let executor = MacOSExecutor::new();
    let mut config = SandboxConfig::default();
    let plan = executor.launch_plan(&config, "true", &[], false, &Vec::new());
    assert_eq!(
        plan.env.get("PATH"),
        Some("/usr/local/bin:/usr/bin:/bin:/usr/sbin:/sbin".to_string())
    );
    config.env.insert("PATH".to_string(), "/opt/bin".to_string());
    let plan = executor.launch_plan(&config, "true", &[], false, &Vec::new());
    assert_eq!(plan.env.get("PATH"), Some("/opt/bin".to_string()));
    assert_eq!(plan.env.entries().len(), 1);
}

#[test]
fn proxy_variables_replace_configured_ones() {
    let executor = MacOSExecutor::new();
    let mut config = SandboxConfig::default();
    config.env.insert("HTTP_PROXY".to_string(), "mine".to_string());
    config.env.insert("HOME".to_string(), "/home".to_string());
    let proxy = vec![pair("HTTP_PROXY", "http://127.0.0.1:1"), pair("ALL", "x"), pair("ALL", "y")];
    let plan = executor.launch_plan(&config, "true", &[], false, &proxy);
    assert_eq!(plan.env.get("HTTP_PROXY"), Some("mine".to_string()));
    assert_eq!(plan.env.get("ALL"), None);
    config.network_mode = NetworkMode::Proxied { allowed_domains: vec!["a.org".to_string()] };
    let plan = executor.launch_plan(&config, "true", &[], false, &proxy);
    assert_eq!(plan.env.get("HTTP_PROXY"), Some("http://127.0.0.1:1".to_string()));
    assert_eq!(plan.env.get("ALL"), Some("y".to_string()));
    assert_eq!(plan.env.get("HOME"), Some("/home".to_string()));
}

#[test]
fn only_a_proxied_network_has_domains() {
    let mut config = SandboxConfig::default();
    assert!(MacOSExecutor::proxied_domains(&config).is_none());
    config.network_mode = NetworkMode::Host;
    assert!(MacOSExecutor::proxied_domains(&config).is_none());
    config.network_mode = NetworkMode::Proxied { allowed_domains: vec!["a.org".to_string()] };
    assert_eq!(MacOSExecutor::proxied_domains(&config), Some(&vec!["a.org".to_string()]));
}

#[test]
fn limits_in_order() {
    let config = SandboxConfig {
        max_open_files: Some(20),
        max_file_size: Some(1 << 40),
        cpu_time_limit: Some(TimeSpan::new(2, 900_000_000)),
        ..Default::default()
    };
    let plan = MacOSExecutor::new().launch_plan(&config, "true", &[], false, &Vec::new());
    let mut run = plan.limits;
    assert_eq!(run.next_request(), Some(LimitRequest { limit: Limit::OpenFiles, value: 20 }));
    assert_eq!(run.next_request(), Some(LimitRequest { limit: Limit::FileSize, value: 1 << 40 }));
    assert_eq!(run.next_request(), Some(LimitRequest { limit: Limit::CpuTime, value: 2 }));
    assert_eq!(run.next_request(), None);
    assert_eq!(run.next_request(), None);
}

#[test]
fn cpu_time_below_a_second_sets_nothing() {
    let config = SandboxConfig {
        cpu_time_limit: Some(TimeSpan::new(0, 999_999_999)),
        ..Default::default()
    };
    assert_eq!(all_requests(&config), Vec::new());
}

#[test]
fn test_macos_max_pids_not_enforced_intentionally() {
    let config = SandboxConfig {
        max_pids: Some(5),
        wall_time_limit: Some(TimeSpan::from_secs(5)),
        ..Default::default()
    };
    assert_eq!(all_requests(&config), Vec::new());
    let memory = SandboxConfig { memory_limit: Some(1), ..Default::default() };
    assert_eq!(all_requests(&memory), Vec::new());
}

#[test]
fn test_max_open_files_enforced() {
    let config = SandboxConfig {
        max_open_files: Some(20),
        wall_time_limit: Some(TimeSpan::from_secs(5)),
        ..Default::default()
    };
    assert_eq!(all_requests(&config), vec![LimitRequest { limit: Limit::OpenFiles, value: 20 }]);
}

#[test]
fn test_macos_rejected_rlimit_names_the_setting() {
    let config = SandboxConfig { max_file_size: Some(u64::MAX), ..Default::default() };
    let mut run =
        LimitRun::new(config.max_open_files, config.max_file_size, config.cpu_time_limit);
    let request = run.next_request().unwrap();
    let report = run.reject(request.limit, Some(1));
    assert_eq!(run.next_request(), None);

    let err = match MacOSExecutor::spawn_failure(&config, "true", false, &report, "errno") {
        SandboxError::ExecutionFailed(message) => message,
        other => panic!("unexpected error {:?}", other),
    };
    assert!(
        err.contains("max_file_size") && err.contains("RLIMIT_FSIZE"),
        "error should name the rejected limit, got: {err}"
    );
    let reason = std::io::Error::from_raw_os_error(1).to_string();
    assert_eq!(
        err,
        format!("cannot apply max_file_size=18446744073709551615 (RLIMIT_FSIZE): {}", reason)
    );
}

#[test]
fn report_layout() {
    assert_eq!(
        MacOSExecutor::report_limit_failure(Limit::OpenFiles, Some(0x0102_0304)),
        [1, 4, 3, 2, 1]
    );
    assert_eq!(MacOSExecutor::report_limit_failure(Limit::FileSize, Some(-1)), [2, 255, 255, 255, 255]);
    assert_eq!(MacOSExecutor::report_limit_failure(Limit::CpuTime, None), [3, 0, 0, 0, 0]);
    let native = (-22i32).to_le_bytes();
    let report = MacOSExecutor::report_limit_failure(Limit::CpuTime, Some(-22));
    assert_eq!(&report[1..], &native[..]);
}

#[test]
fn report_reads_back() {
    let config = SandboxConfig {
        max_open_files: Some(7),
        max_file_size: Some(8),
        cpu_time_limit: Some(TimeSpan::new(9, 5)),
        ..Default::default()
    };
    for request in all_requests(&config) {
        for errno in [0, 1, 22, 300, 70_000, i32::MAX, i32::MIN, -1] {
            let report = MacOSExecutor::report_limit_failure(request.limit, Some(errno));
            assert_eq!(
                MacOSExecutor::decode_report(&report, &config),
                Some(LimitFailure { limit: request.limit, value: request.value, errno })
            );
        }
    }
}

#[test]
fn report_that_says_nothing() {
    let config = SandboxConfig { max_open_files: Some(7), ..Default::default() };
    assert_eq!(MacOSExecutor::decode_report(&[], &config), None);
    assert_eq!(MacOSExecutor::decode_report(&[1, 0, 0, 0], &config), None);
    assert_eq!(MacOSExecutor::decode_report(&[1, 0, 0, 0, 0, 0], &config), None);
    assert_eq!(MacOSExecutor::decode_report(&[0, 0, 0, 0, 0], &config), None);
    assert_eq!(MacOSExecutor::decode_report(&[4, 0, 0, 0, 0], &config), None);
    assert_eq!(MacOSExecutor::decode_report(&[2, 0, 0, 0, 0], &config), None);
    assert_eq!(MacOSExecutor::decode_report(&[3, 0, 0, 0, 0], &config), None);
    assert!(MacOSExecutor::limit_failure(&[3, 0, 0, 0, 0], &config).is_none());
}

#[test]
fn message_for_each_limit() {
    let message = |limit, value| {
        MacOSExecutor::limit_failure_message(&LimitFailure { limit, value, errno: 1 }, "no")
    };
    assert_eq!(message(Limit::OpenFiles, 1024), "cannot apply max_open_files=1024 (RLIMIT_NOFILE): no");
    assert_eq!(message(Limit::FileSize, 0), "cannot apply max_file_size=0 (RLIMIT_FSIZE): no");
    assert_eq!(message(Limit::CpuTime, 10), "cannot apply cpu_time_limit=10s (RLIMIT_CPU): no");
}

#[test]
fn reason_is_asked_for_the_reported_number() {
    let config = SandboxConfig { max_open_files: Some(7), ..Default::default() };
    let describe = |errno: i32| format!("number {}", errno);
    assert_eq!(
        MacOSExecutor::describe_report(&[1, 22, 0, 0, 0], &config, &describe),
        Some("cannot apply max_open_files=7 (RLIMIT_NOFILE): number 22".to_string())
    );
}

#[test]
fn spawn_failures() {
    let config = SandboxConfig::default();
    assert!(matches!(
        MacOSExecutor::spawn_failure(&config, "nope", true, &[], "gone"),
        SandboxError::CommandNotFound(name) if name == "nope"
    ));
    assert!(matches!(
        MacOSExecutor::spawn_failure(&config, "nope", false, &[], "denied"),
        SandboxError::ExecutionFailed(message) if message == "denied"
    ));
    assert!(matches!(
        MacOSExecutor::report_pipe_failure("no fds"),
        SandboxError::Internal(message) if message == "create limit report pipe: no fds"
    ));
}

#[test]
fn decimal_numbers() {
    for value in [0, 9, 10, 100, 1_234_567_890, u64::MAX] {
        assert_eq!(nanosandbox::text::decimal(value), value.to_string());
    }
}
