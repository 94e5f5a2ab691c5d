//! The control-call boundary and the fixed query.
//!
//! A [`ControlPort`] stands for an open file descriptor to the filesystem
//! engine: submitting a wire number and a payload buffer performs one
//! synchronous control call, and the peer may rewrite the buffer in place.
//! The trait promises nothing about what comes back, so everything built on
//! it is verified for every possible peer behaviour.  The library never
//! touches a descriptor itself; callers supply a port.

use crate::error::{classify_errno, spec_classify, ErrorKind};
use crate::ioctl::{spec_wire_number, wire_number, Direction, MAX_PAYLOAD_SIZE};
use vstd::prelude::*;

verus! {

/// One synchronous control call on a resource the implementor owns.
///
/// Return value convention: `0` on success, otherwise the peer's raw error
/// number.  The payload buffer is handed to the peer, which may rewrite it in
/// place.
pub trait ControlPort {
    /// Submit `payload` under `wire` and block until the peer answers.
    fn submit(&mut self, wire: u64, payload: &mut Vec<u8>) -> (code: i32);

    /// Submit `payload` under `wire` after patching resource addresses into
    /// it: when `path_a` is non-empty, the address of its bytes is written
    /// into the payload at `a_off`, and likewise `path_b` at `b_off`; when
    /// `diag` is non-empty, its address goes in at `diag_ptr_off` and its
    /// length at `diag_len_off`, and the peer may fill it with diagnostic
    /// text.
    fn submit_patched(
        &mut self,
        wire: u64,
        payload: &mut Vec<u8>,
        path_a: &Vec<u8>,
        a_off: usize,
        path_b: &Vec<u8>,
        b_off: usize,
        diag: &mut Vec<u8>,
        diag_ptr_off: usize,
        diag_len_off: usize,
    ) -> (code: i32)
        requires
            path_a@.len() > 0 ==> a_off + 8 <= old(payload)@.len(),
            path_b@.len() > 0 ==> b_off + 8 <= old(payload)@.len(),
            old(diag)@.len() > 0 ==> diag_ptr_off + 8 <= old(payload)@.len() && diag_len_off + 4
                <= old(payload)@.len() && old(diag)@.len() <= u32::MAX,
    ;
}

/// A control request: direction, opcode, and the byte size of the fixed
/// payload.  For a response with a flexible record array the size is the
/// header's alone, never the whole buffer's.
#[derive(Clone, Copy, Debug, PartialEq, Eq, Structural)]
pub struct ControlRequest {
    pub direction: Direction,
    pub opcode: u8,
    pub payload_size: usize,
}

impl ControlRequest {
    /// The fixed payload must fit the wire number's size field.
    pub open spec fn wf(self) -> bool {
        self.payload_size < MAX_PAYLOAD_SIZE
    }

    /// This request's wire number.
    pub open spec fn spec_wire(self) -> u64 {
        spec_wire_number(self.direction, self.payload_size, self.opcode)
    }

    pub fn wire(&self) -> (r: u64)
        requires
            self.wf(),
        ensures
            r == self.spec_wire(),
    {
        wire_number(self.direction, self.payload_size, self.opcode)
    }
}

/// Issue one fixed request and map the raw result: `0` becomes success and
/// any other number is classified, with no retry and no interpretation
/// beyond the classification.
pub fn send<P: ControlPort>(port: &mut P, req: &ControlRequest, payload: &mut Vec<u8>) -> (r:
    Result<(), ErrorKind>)
    requires
        req.wf(),
        old(payload)@.len() >= req.payload_size,
    ensures
        r matches Err(e) ==> e == spec_classify(e.spec_errno()) && e.spec_errno() != 0,
{
    let wire = req.wire();
    let code = port.submit(wire, payload);
    if code == 0 {
        Ok(())
    } else {
        Err(classify_errno(code))
    }
}

} // verus!
