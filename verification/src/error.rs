//! The error a service call reports to the HTTP layer.

use vstd::prelude::*;
verus! {

/// Why a service call did not succeed. Each variant maps onto one HTTP
/// status in the web layer; the text is what the client is told.
#[derive(Debug, Clone, PartialEq, Eq)]
pub enum AppError {
    /// The thing addressed does not exist (or is not the caller's).
    NotFound(String),
    /// The request itself is malformed or violates a rule.
    BadRequest(String),
    /// The caller may not do this.
    Forbidden,
    /// The caller is not authenticated.
    Unauthorized,
    /// The resource is locked by someone else; the text names it.
    Locked(String),
    /// Something on the server's side failed.
    Internal(String),
    /// The upload would exceed the owner's storage quota.
    QuotaExceeded,
    /// An operation was stopped before it finished.
    OperationFailed(String),
}

/// Whether `e` is a `BadRequest` whose message is `msg`.
pub open spec fn is_bad_request(e: AppError, msg: Seq<char>) -> bool {
    e matches AppError::BadRequest(m) && m@ == msg
}

/// Whether `e` is a `NotFound` whose message is `msg`.
pub open spec fn is_not_found(e: AppError, msg: Seq<char>) -> bool {
    e matches AppError::NotFound(m) && m@ == msg
}

/// A `BadRequest` carrying a literal message.
pub fn bad_request(msg: &str) -> (e: AppError)
    ensures
        is_bad_request(e, msg@),
{
    AppError::BadRequest(msg.to_owned())
}

/// A `NotFound` carrying a literal message.
pub fn not_found(msg: &str) -> (e: AppError)
    ensures
        is_not_found(e, msg@),
{
    AppError::NotFound(msg.to_owned())
}

} // verus!
