//! Why a command could not be run.

use vstd::prelude::*;

verus! {

#[derive(Debug)]
pub enum SandboxError {
    /// The command does not exist.
    CommandNotFound(String),
    /// The command could not be started or waited for.
    ExecutionFailed(String),
    /// The sandbox itself could not be set up.
    Internal(String),
    /// This system has no `sandbox-exec`.
    SandboxExecUnavailable,
}

} // verus!
