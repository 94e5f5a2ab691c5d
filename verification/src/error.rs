//! Error classification for control calls.
//!
//! A failed control call hands back a raw error number from the peer.  Two of
//! those numbers are recoverable signals with fixed meanings — "operation not
//! supported", which drives version fallback, and "result range too small",
//! which drives capacity growth — and everything else is passed through
//! verbatim.

use vstd::prelude::*;

verus! {

/// The error number the peer uses for a request generation it does not
/// implement.
pub const NOT_SUPPORTED_ERRNO: i32 = 25;

/// The error number the peer uses when the response needs more room than the
/// request offered.
pub const RANGE_ERRNO: i32 = 34;

/// The error number for an argument the library rejects before sending
/// anything: an unknown state name, a path with a zero byte in it, a size
/// that shrinks, a zero bucket size from the peer.
pub const INVALID_ARG_ERRNO: i32 = 22;

/// How a failed control call is classified.
#[derive(Clone, Copy, Debug, PartialEq, Eq, Structural)]
pub enum ErrorKind {
    /// The peer does not implement this request generation; recoverable by
    /// falling back to the older wire format.
    NotSupported,
    /// The response needs more room than the request offered; recoverable by
    /// re-issuing the request with the peer-reported capacity.
    RangeTooSmall,
    /// The peer handed back fewer bytes than its own fixed response header;
    /// non-fatal, the decoders degrade to partial results.
    Truncated,
    /// Any other error number, passed through without interpretation.
    System(i32),
}

impl ErrorKind {
    /// The raw error number this kind classifies.  `Truncated` is produced by
    /// the library itself, never by classification, so it maps to no number.
    pub open spec fn spec_errno(self) -> i32 {
        match self {
            ErrorKind::NotSupported => NOT_SUPPORTED_ERRNO,
            ErrorKind::RangeTooSmall => RANGE_ERRNO,
            ErrorKind::Truncated => 0,
            ErrorKind::System(code) => code,
        }
    }
}

/// Relies on `libc::ENOTTY`: the error number Linux defines for an
/// inappropriate or unimplemented device-control request.
#[verifier::external_body]
fn errno_not_supported() -> (r: i32)
    ensures
        r == NOT_SUPPORTED_ERRNO,
{
    libc::ENOTTY
}

/// Relies on `libc::ERANGE`: the error number Linux defines for a result out
/// of range.
#[verifier::external_body]
fn errno_range() -> (r: i32)
    ensures
        r == RANGE_ERRNO,
{
    libc::ERANGE
}

/// What a raw error number from the peer means.
pub open spec fn spec_classify(code: i32) -> ErrorKind {
    if code == NOT_SUPPORTED_ERRNO {
        ErrorKind::NotSupported
    } else if code == RANGE_ERRNO {
        ErrorKind::RangeTooSmall
    } else {
        ErrorKind::System(code)
    }
}

/// Classify a raw error number from the peer.
pub fn classify_errno(code: i32) -> (r: ErrorKind)
    ensures
        r == spec_classify(code),
{
    if code == errno_not_supported() {
        ErrorKind::NotSupported
    } else if code == errno_range() {
        ErrorKind::RangeTooSmall
    } else {
        ErrorKind::System(code)
    }
}

/// A failed query, with any diagnostic text the peer left in the request's
/// message buffer.
#[derive(Debug, PartialEq, Eq)]
pub struct QueryError {
    pub kind: ErrorKind,
    /// Diagnostic bytes from the peer; empty when the peer offered none.
    pub message: Vec<u8>,
}

impl QueryError {
    /// A failure without diagnostic text.
    pub fn bare(kind: ErrorKind) -> (r: QueryError)
        ensures
            r.kind == kind,
            r.message@.len() == 0,
    {
        QueryError { kind, message: Vec::new() }
    }
}

} // verus!
