//! Errors reported to the caller of a query or a command.

use vstd::prelude::*;

verus! {

/// Structured error returned by queries and lifecycle commands.
#[derive(Debug, Clone, PartialEq, Eq)]
pub enum AppError {
    /// No process with this id is known (or the OS reports it gone).
    NotFound { pid: u32 },
    /// The OS refused the request for lack of privileges.
    PermissionDenied { pid: u32, message: String },
    /// The id cannot name a process.
    InvalidPid { pid: u32 },
    /// Any other failure reported by the OS.
    OsError { message: String },
    /// The platform offers no way to perform the request.
    Unsupported { feature: String },
}

} // verus!
