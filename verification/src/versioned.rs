//! Version fallback between two request generations.
//!
//! The newer generation of a request additionally carries a diagnostic
//! message buffer the peer can fill with human-readable context.  The pair
//! addresses one logical operation; one of the two is sent per call.  A peer
//! that answers the newer form with "not supported" gets the older form, and
//! nothing else triggers the fallback: the message-carrying generation is
//! strictly additive, so treating any other failure as format incompatibility
//! would mask real errors.  Fallback runs one way only, new to old, never
//! back.

use crate::bytes::{is_nul_prefix, nul_prefix};
use crate::error::{classify_errno, spec_classify, ErrorKind, QueryError};
use crate::port::{ControlPort, ControlRequest};
use vstd::prelude::*;

verus! {

/// Byte size of the scratch buffer offered to the peer for diagnostic text.
pub const DIAG_BUF_LEN: usize = 8192;

/// What the newer generation's result decides, at the specification level.
#[derive(Clone, Copy, Debug, PartialEq, Eq, Structural)]
pub enum VersionedDecision {
    /// The newer form succeeded.
    Done,
    /// The peer does not implement the newer form: send the older one.
    Fallback,
    /// A real failure: surface it with the diagnostic text, and do not try
    /// the older form.
    Fail(ErrorKind),
}

/// The decision taken on the newer generation's raw result.
pub open spec fn spec_versioned_decision(code: i32) -> VersionedDecision {
    if code == 0 {
        VersionedDecision::Done
    } else if spec_classify(code) is NotSupported {
        VersionedDecision::Fallback
    } else {
        VersionedDecision::Fail(spec_classify(code))
    }
}

/// Decide what the newer generation's raw result means.
pub fn versioned_decision(code: i32) -> (r: VersionedDecision)
    ensures
        r == spec_versioned_decision(code),
{
    if code == 0 {
        VersionedDecision::Done
    } else {
        match classify_errno(code) {
            ErrorKind::NotSupported => VersionedDecision::Fallback,
            k => VersionedDecision::Fail(k),
        }
    }
}

/// Send the newer form of a request with a diagnostic buffer attached at
/// `diag_ptr_off`/`diag_len_off`; fall back to the older form only when the
/// peer reports the newer one as not supported.  `path_a` and `path_b`, when
/// non-empty, are resource names whose addresses the port patches into both
/// payloads at `a_off` and `b_off`.
///
/// A failure of any other kind carries the peer's message: the returned text
/// never holds a zero byte, and a `NotSupported` failure — possible only when
/// the older form is unsupported too — carries none, since the older
/// generation has no message buffer.
pub fn send_versioned<P: ControlPort>(
    port: &mut P,
    new_req: &ControlRequest,
    new_payload: &mut Vec<u8>,
    diag_ptr_off: usize,
    diag_len_off: usize,
    old_req: &ControlRequest,
    old_payload: &mut Vec<u8>,
    path_a: &Vec<u8>,
    a_off: usize,
    path_b: &Vec<u8>,
    b_off: usize,
) -> (r: Result<(), QueryError>)
    requires
        new_req.wf(),
        old_req.wf(),
        old(new_payload)@.len() >= new_req.payload_size,
        old(old_payload)@.len() >= old_req.payload_size,
        diag_ptr_off + 8 <= old(new_payload)@.len(),
        diag_len_off + 4 <= old(new_payload)@.len(),
        path_a@.len() > 0 ==> a_off + 8 <= old(new_payload)@.len() && a_off + 8 <= old(
            old_payload,
        )@.len(),
        path_b@.len() > 0 ==> b_off + 8 <= old(new_payload)@.len() && b_off + 8 <= old(
            old_payload,
        )@.len(),
    ensures
        r matches Err(e) ==> e.kind == spec_classify(e.kind.spec_errno()) && e.kind.spec_errno()
            != 0,
        r matches Err(e) ==> forall|k: int| 0 <= k < e.message@.len() ==> e.message@[k] != 0,
        r matches Err(e) ==> (e.kind is NotSupported ==> e.message@.len() == 0),
{
    let mut diag: Vec<u8> = vec![0u8; DIAG_BUF_LEN];
    let code = port.submit_patched(
        new_req.wire(),
        new_payload,
        path_a,
        a_off,
        path_b,
        b_off,
        &mut diag,
        diag_ptr_off,
        diag_len_off,
    );
    match versioned_decision(code) {
        VersionedDecision::Done => Ok(()),
        VersionedDecision::Fallback => {
            let mut no_diag: Vec<u8> = Vec::new();
            let code2 = port.submit_patched(
                old_req.wire(),
                old_payload,
                path_a,
                a_off,
                path_b,
                b_off,
                &mut no_diag,
                0,
                0,
            );
            if code2 == 0 {
                Ok(())
            } else {
                Err(QueryError::bare(classify_errno(code2)))
            }
        },
        VersionedDecision::Fail(kind) => {
            let message = nul_prefix(&diag);
            Err(QueryError { kind, message })
        },
    }
}

} // verus!
