use nanosandbox::{
    is_supported, EnvTable, MacOSExecutor, Mount, NetworkMode, Permission, SandboxConfig,
    SandboxError, SeccompProfile,
};

fn bytes(path: &str) -> Vec<u8> {
    path.as_bytes().to_vec()
}

fn mount(source: &str, permission: Permission) -> Mount {
    Mount { source: bytes(source), target: bytes("/sandbox/test"), permission }
}

const PREAMBLE: &str = "(version 1)
(deny default)
(allow process-fork)
(allow process-exec)
(allow process-exec-interpreter)
(allow signal)
(allow sysctl-read)
(allow sysctl-write)
(allow mach-lookup)
(allow mach-register)
(allow mach-priv-host-port)
(allow mach-priv-task-port)
(allow mach-task-name)
(allow ipc-posix-shm-read-data)
(allow ipc-posix-shm-write-data)
(allow ipc-posix-shm-read-metadata)
(allow ipc-posix-shm-write-create)
(allow ipc-posix-sem)
(allow iokit-open)
(allow pseudo-tty)
(allow process-info-pidinfo)
(allow process-info-setcontrol)
(allow process-info-dirtycontrol)
(allow process-info-codesignature)
(allow file-read* (subpath \"/\"))
(allow file-write* (subpath \"/tmp\"))
(allow file-write* (subpath \"/private/tmp\"))
(allow file-write* (subpath \"/private/var/folders\"))
(allow file-write* (subpath \"/dev\"))
";

#[test]
fn test_macos_is_supported() {
    let on_disk = std::path::Path::new("/usr/bin/sandbox-exec").exists();
    assert_eq!(is_supported(), on_disk);
    // On macOS, sandbox-exec should exist
    let macos = std::path::Path::new("/System/Library/CoreServices").exists();
    assert!(!macos || is_supported());
}

#[test]
fn test_generate_profile() {
    let executor = MacOSExecutor::new();
    let config = SandboxConfig::default();
    let profile = executor.generate_profile(&config);

    assert!(profile.contains("(version 1)"));
    assert!(profile.contains("(deny default)"));
}

#[test]
fn test_generate_profile_with_mounts() {
    let executor = MacOSExecutor::new();
    let mut config = SandboxConfig::default();
    // Use ReadWrite permission since that adds explicit rules
    config.mounts.push(Mount {
        source: bytes("/tmp/test_mount"),
        target: bytes("/sandbox/test"),
        permission: Permission::ReadWrite,
    });

    let profile = executor.generate_profile(&config);
    // Should contain write access for ReadWrite mounts
    assert!(profile.contains("/tmp/test_mount"));
}

#[test]
fn test_generate_profile_network_none() {
    let executor = MacOSExecutor::new();
    let config = SandboxConfig { network_mode: NetworkMode::Denied, ..Default::default() };

    let profile = executor.generate_profile(&config);
    // Should not contain network* allow
    assert!(!profile.contains("(allow network*)"));
}

#[test]
fn test_generate_profile_network_host() {
    let executor = MacOSExecutor::new();
    let config = SandboxConfig { network_mode: NetworkMode::Host, ..Default::default() };

    let profile = executor.generate_profile(&config);
    assert!(profile.contains("(allow network*)"));
}

#[test]
fn whole_profile_in_order() {
    let mut config = SandboxConfig { working_dir: bytes("/work"), ..Default::default() };
    config.mounts.push(mount("/a", Permission::ReadWrite));
    config.mounts.push(mount("/b", Permission::ReadOnly));
    config.mounts.push(mount("/c", Permission::ReadWrite));
    config.tmpfs_mounts.push((bytes("/t"), 4096));
    config.rootfs = Some(bytes("/root"));
    config.network_mode = NetworkMode::Proxied { allowed_domains: vec!["example.com".to_string()] };
    let mut expected = PREAMBLE.to_string();
    for path in ["/work", "/a", "/c", "/t", "/root"] {
        expected.push_str(&format!("(allow file-write* (subpath \"{}\"))\n", path));
    }
    expected.push_str("(allow network*)\n");
    assert_eq!(MacOSExecutor::new().generate_profile(&config), expected);
}

#[test]
fn read_only_mount_changes_nothing() {
    let executor = MacOSExecutor::default();
    let mut config = SandboxConfig::default();
    let before = executor.generate_profile(&config);
    config.mounts.push(mount("/b", Permission::ReadOnly));
    assert_eq!(executor.generate_profile(&config), before);
}

#[test]
fn network_rule_comes_last() {
    let executor = MacOSExecutor::new();
    let mut config = SandboxConfig::default();
    let offline = executor.generate_profile(&config);
    config.network_mode = NetworkMode::Host;
    assert_eq!(executor.generate_profile(&config), offline + "(allow network*)\n");
}

#[test]
fn path_that_spells_the_network_rule() {
    let config = SandboxConfig { working_dir: bytes("/(allow network*)"), ..Default::default() };
    let profile = MacOSExecutor::new().generate_profile(&config);
    assert!(profile.contains("(allow network*)"));
    assert!(profile.ends_with("(allow file-write* (subpath \"/(allow network*)\"))\n"));
}

#[test]
fn path_text_is_read_as_utf8() {
    let executor = MacOSExecutor::new();
    let mut config = SandboxConfig { working_dir: bytes("/caf\u{e9}"), ..Default::default() };
    assert!(executor.generate_profile(&config).contains("(subpath \"/caf\u{e9}\")"));
    config.working_dir = vec![b'/', 0xff, b'x'];
    assert!(executor.generate_profile(&config).contains("(subpath \"/\u{fffd}x\")"));
}

#[test]
fn default_configuration() {
    let config = SandboxConfig::default();
    assert!(config.rootfs.is_none());
    assert_eq!(config.working_dir, b"/tmp".to_vec());
    assert!(config.mounts.is_empty());
    assert!(matches!(config.network_mode, NetworkMode::Denied));
    assert_eq!(config.seccomp_profile, SeccompProfile::Standard);
    assert!(config.env.entries().is_empty());
    assert!(!config.clear_env);
}

#[test]
fn support_depends_on_sandbox_exec_alone() {
    let config = SandboxConfig { seccomp_profile: SeccompProfile::Custom, ..Default::default() };
    assert!(MacOSExecutor::support_verdict(true, &config).is_ok());
    assert!(matches!(
        MacOSExecutor::support_verdict(false, &config),
        Err(SandboxError::SandboxExecUnavailable)
    ));
    let verdict = MacOSExecutor::new().check_support(&config);
    assert_eq!(verdict.is_ok(), std::path::Path::new("/usr/bin/sandbox-exec").exists());
}

#[test]
fn later_setting_replaces_earlier() {
    let mut table = EnvTable::new();
    assert!(!table.contains_key("A"));
    table.insert("A".to_string(), "1".to_string());
    table.insert("B".to_string(), "2".to_string());
    table.insert("A".to_string(), "3".to_string());
    assert_eq!(table.get("A"), Some("3".to_string()));
    assert_eq!(table.get("B"), Some("2".to_string()));
    assert_eq!(table.get("C"), None);
    assert_eq!(table.entries().len(), 2);
}
