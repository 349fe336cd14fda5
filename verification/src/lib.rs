//! Runs a command under the macOS `sandbox-exec` (Seatbelt) sandbox.
//!
//! - **Process isolation**: a generated Seatbelt profile ([`profile`])
//! - **Environment and arguments**: a launch plan ([`launch`])
//! - **Resource limits**: requests for `setrlimit` and the report of a rejected
//!   one ([`limits`])
//! - **Process tree**: what a kill reaches and what memory is counted
//!   ([`processes`])
//! - **Waiting**: time limit, memory limit and result ([`wait`])
//!
//! The library decides; the calls into the system are made by its user.

pub mod config;
pub mod environment;
pub mod error;
pub mod executor;
pub mod launch;
pub mod limits;
pub mod network_grant;
pub mod processes;
pub mod profile;
pub mod text;
pub mod time;
pub mod wait;

pub use config::{Mount, NetworkMode, Permission, SandboxConfig, SeccompProfile};
pub use environment::EnvTable;
pub use error::SandboxError;
pub use executor::{is_supported, MacOSExecutor};
pub use launch::LaunchPlan;
pub use limits::{Limit, LimitFailure, LimitRequest, LimitRun};
pub use processes::PidBuffer;
pub use time::TimeSpan;
pub use wait::{ExecutionResult, Pace, PollStep, Usage, Watch};
