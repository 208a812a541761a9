//! The four outcomes a lookup can report.

use vstd::prelude::*;

verus! {

/// Error number for "no such entry".
pub const ENOENT: i32 = 2;

/// Error number for "result too large": the buffer was too small.
pub const ERANGE: i32 = 34;

/// Error number for "address family not supported".
pub const EAFNOSUPPORT: i32 = 97;

/// Resolver error number for an internal error; the error number says which.
pub const NETDB_INTERNAL: i32 = -1;

/// Resolver error number for an unknown host.
pub const HOST_NOT_FOUND: i32 = 1;

/// Resolver error number for a failure that a retry will not mend.
pub const NO_RECOVERY: i32 = 3;

/// Outcome of a lookup, in the vocabulary of the name-service dispatcher.
#[derive(Clone, Copy, Debug, PartialEq, Eq, Structural)]
pub enum Status {
    /// The caller's buffer is too small; it should retry with a larger one.
    TryAgain,
    /// The operation is not supported.
    Unavailable,
    /// This resolver has no record for the query.
    NotFound,
    /// A record was produced.
    Success,
}

impl Status {
    /// The number the dispatcher knows this status by.
    pub open spec fn spec_code(self) -> int {
        match self {
            Status::TryAgain => -2,
            Status::Unavailable => -1,
            Status::NotFound => 0,
            Status::Success => 1,
        }
    }

    /// The number the dispatcher knows this status by.
    pub fn code(self) -> (c: i32)
        ensures
            c == self.spec_code(),
    {
        match self {
            Status::TryAgain => -2,
            Status::Unavailable => -1,
            Status::NotFound => 0,
            Status::Success => 1,
        }
    }

    /// The error number to report with this status; none with a success.
    pub open spec fn spec_errno(self) -> Option<i32> {
        match self {
            Status::TryAgain => Some(ERANGE),
            Status::Unavailable => Some(EAFNOSUPPORT),
            Status::NotFound => Some(ENOENT),
            Status::Success => None,
        }
    }

    /// The resolver error number to report with this status; none with a
    /// success. A buffer that was too small is reported as an internal error
    /// together with `ERANGE`, which is how the dispatcher knows to come
    /// back with a larger one.
    pub open spec fn spec_h_errno(self) -> Option<i32> {
        match self {
            Status::TryAgain => Some(NETDB_INTERNAL),
            Status::Unavailable => Some(NO_RECOVERY),
            Status::NotFound => Some(HOST_NOT_FOUND),
            Status::Success => None,
        }
    }

    /// The error number to report with this status; none with a success.
    pub fn errno(self) -> (e: Option<i32>)
        ensures
            e == self.spec_errno(),
    {
        match self {
            Status::TryAgain => Some(ERANGE),
            Status::Unavailable => Some(EAFNOSUPPORT),
            Status::NotFound => Some(ENOENT),
            Status::Success => None,
        }
    }

    /// The resolver error number to report with this status; none with a
    /// success.
    pub fn h_errno(self) -> (e: Option<i32>)
        ensures
            e == self.spec_h_errno(),
    {
        match self {
            Status::TryAgain => Some(NETDB_INTERNAL),
            Status::Unavailable => Some(NO_RECOVERY),
            Status::NotFound => Some(HOST_NOT_FOUND),
            Status::Success => None,
        }
    }
}

} // verus!
