//! The executor and what it needs from the system.

use crate::config::SandboxConfig;
use crate::error::SandboxError;
use crate::launch::SANDBOX_EXEC;
use vstd::prelude::*;

verus! {

/// Calls `std::path::Path::exists`. What is on disk can change at any time, so
/// nothing is claimed of the answer.
#[verifier::external_body]
fn path_exists(path: &str) -> (exists: bool) {
    std::path::Path::new(path).exists()
}

/// `answer` is what the system said when it was asked whether `path` exists.
pub closed spec fn disk_said(path: &str, answer: bool) -> bool {
    call_ensures(path_exists, (path,), answer)
}

proof fn lemma_disk_said(path: &str, answer: bool)
    ensures
        disk_said(path, answer) == call_ensures(path_exists, (path,), answer),
{
}

fn ask<'a, A: Fn(&'a str) -> bool>(asked: A, path: &'a str) -> (answer: bool)
    requires
        call_requires(asked, (path,)),
    ensures
        call_ensures(asked, (path,), answer),
{
    asked(path)
}

/// Check if sandbox-exec is available
pub fn is_supported() -> (supported: bool)
    ensures
        disk_said("/usr/bin/sandbox-exec", supported),
{
    let supported = ask(path_exists, SANDBOX_EXEC);
    proof {
        lemma_disk_said("/usr/bin/sandbox-exec", supported);
    }
    supported
}

/// macOS sandbox executor using sandbox-exec
pub struct MacOSExecutor {
    _private: (),
}

impl MacOSExecutor {
    /// The only executor: it has no state.
    pub closed spec fn unit() -> Self {
        MacOSExecutor { _private: () }
    }

    pub fn new() -> (executor: Self)
        ensures
            executor == Self::unit(),
    {
        Self { _private: () }
    }

    /// The verdict on a system, given whether it has sandbox-exec. Every seccomp
    /// setting is accepted: none is supported directly, and the profile stands
    /// in for all of them.
    pub fn support_verdict(supported: bool, config: &SandboxConfig) -> (verdict: Result<
        (),
        SandboxError,
    >)
        ensures
            verdict == (if supported {
                Ok::<(), SandboxError>(())
            } else {
                Err::<(), SandboxError>(SandboxError::SandboxExecUnavailable)
            }),
    {
        if !supported {
            return Err(SandboxError::SandboxExecUnavailable);
        }
        Ok(())
    }

    /// Check that this system can run a sandbox with the given configuration.
    pub fn check_support(&self, config: &SandboxConfig) -> (verdict: Result<(), SandboxError>)
        ensures
            verdict is Ok ==> disk_said("/usr/bin/sandbox-exec", true),
            verdict is Err ==> disk_said("/usr/bin/sandbox-exec", false) && verdict->Err_0
                == SandboxError::SandboxExecUnavailable,
    {
        Self::support_verdict(is_supported(), config)
    }
}

impl Default for MacOSExecutor {
    fn default() -> (executor: Self)
        ensures
            executor == Self::unit(),
    {
        Self::new()
    }
}

} // verus!
