//! What a sandbox is configured with.

use crate::environment::EnvTable;
use crate::time::TimeSpan;
use vstd::prelude::*;

verus! {

/// What a sandboxed command may do with a mount.
#[derive(Clone, Copy, Debug, PartialEq, Eq, Structural)]
pub enum Permission {
    ReadOnly,
    ReadWrite,
}

/// A directory of the host that the command may use. Paths are the bytes of
/// the file name.
#[derive(Debug)]
pub struct Mount {
    pub source: Vec<u8>,
    pub target: Vec<u8>,
    pub permission: Permission,
}

/// What the command may reach over the network.
#[derive(Debug)]
pub enum NetworkMode {
    /// Nothing.
    Denied,
    /// Everything that the host reaches.
    Host,
    /// The listed domains, through an HTTP proxy.
    Proxied { allowed_domains: Vec<String> },
}

/// System call filter. Seatbelt has none; each setting maps to the profile.
#[derive(Clone, Copy, Debug, PartialEq, Eq, Structural)]
pub enum SeccompProfile {
    Disabled,
    Standard,
    Custom,
}

/// Configuration of a sandbox. Paths are the bytes of the file name.
pub struct SandboxConfig {
    pub rootfs: Option<Vec<u8>>,
    pub working_dir: Vec<u8>,
    pub mounts: Vec<Mount>,
    /// Paths of in-memory file systems, with their sizes in bytes.
    pub tmpfs_mounts: Vec<(Vec<u8>, u64)>,
    pub memory_limit: Option<u64>,
    pub max_pids: Option<u32>,
    pub max_open_files: Option<u32>,
    pub max_file_size: Option<u64>,
    pub cpu_time_limit: Option<TimeSpan>,
    pub wall_time_limit: Option<TimeSpan>,
    pub network_mode: NetworkMode,
    pub seccomp_profile: SeccompProfile,
    pub env: EnvTable,
    pub clear_env: bool,
}

impl Default for SandboxConfig {
    /// No mounts, limits, network or variables; works in `/tmp`.
    fn default() -> (config: Self)
        ensures
            config.rootfs is None,
            config.working_dir@ == vstd::utf8::encode_utf8("/tmp"@),
            config.mounts@.len() == 0,
            config.tmpfs_mounts@.len() == 0,
            config.memory_limit is None,
            config.max_pids is None,
            config.max_open_files is None,
            config.max_file_size is None,
            config.cpu_time_limit is None,
            config.wall_time_limit is None,
            config.network_mode is Denied,
            config.seccomp_profile is Standard,
            config.env@ == Map::<Seq<char>, Seq<char>>::empty(),
            !config.clear_env,
    {
        SandboxConfig {
            rootfs: None,
            working_dir: "/tmp".as_bytes_vec(),
            mounts: Vec::new(),
            tmpfs_mounts: Vec::new(),
            memory_limit: None,
            max_pids: None,
            max_open_files: None,
            max_file_size: None,
            cpu_time_limit: None,
            wall_time_limit: None,
            network_mode: NetworkMode::Denied,
            seccomp_profile: SeccompProfile::Standard,
            env: EnvTable::new(),
            clear_env: false,
        }
    }
}

} // verus!
