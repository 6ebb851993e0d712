//! Error handling module.
//!
//! Defines the common error type [`Error`] returned by every call against
//! the remote registry.  A convenience method, [`Error::into_status`],
//! extracts the HTTP status code from an error that was caused by a failed
//! call, so that callers can react to specific statuses (the reconciler
//! reacts to a "not found" status by creating the missing box).

use vstd::prelude::*;

verus! {

/// The HTTP status a registry reports for a missing resource.
pub const NOT_FOUND: u16 = 404;

/// The HTTP status a registry reports for a request it cannot process,
/// such as creating a resource that already exists.
pub const UNPROCESSABLE: u16 = 422;

/// Common error type for calls against the remote registry.
#[derive(Debug)]
pub enum Error {
    /// Communication with the service failed for an external reason
    /// (service down, no network connection); carries a description of
    /// the transport failure.
    Io(String),
    /// The service reported an error.
    ///
    /// The first element is the HTTP status code of the reply, the second
    /// a comma separated list of the human readable errors reported by
    /// the service.
    ApiCallFailure(u16, String),
    /// The service replied with data that could not be read as the
    /// expected shape; carries the raw reply text.
    UnexpectedResponse(String),
    /// An internal error occurred; callers should never see this kind of
    /// error under normal use.
    InternalError(String),
}

impl Error {
    /// The status code this error carries, if it came from a failed call.
    pub open spec fn spec_status(&self) -> Option<u16> {
        match self {
            Error::ApiCallFailure(st, _) => Some(*st),
            _ => None,
        }
    }

    /// Extract the status code of this error if it was caused by a failed
    /// call against the service, otherwise return `None`.
    pub fn into_status(&self) -> (r: Option<u16>)
        ensures
            r == self.spec_status(),
    {
        match self {
            Error::ApiCallFailure(st, _) => Some(*st),
            _ => None,
        }
    }
}

} // verus!
