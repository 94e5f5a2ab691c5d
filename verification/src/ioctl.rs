//! Wire numbers for control requests.
//!
//! Every control request is identified to the peer by a single number that
//! packs the transfer direction, the byte size of the fixed payload, a magic
//! byte naming the protocol family, and the opcode.  Because the payload size
//! is part of the number, freezing a payload's byte layout freezes its wire
//! number; the lemmas below show each field can be read back from the number.

use vstd::prelude::*;

verus! {

/// Direction of a control request's payload transfer, as seen by the peer.
#[derive(Clone, Copy, Debug, PartialEq, Eq, Structural)]
pub enum Direction {
    Write,
    Read,
    ReadWrite,
}

impl Direction {
    /// The two-bit field that stands for this direction on the wire.
    pub open spec fn spec_bits(self) -> u64 {
        match self {
            Direction::Write => 1,
            Direction::Read => 2,
            Direction::ReadWrite => 3,
        }
    }

    pub fn bits(self) -> (r: u64)
        ensures
            r == self.spec_bits(),
    {
        match self {
            Direction::Write => 1,
            Direction::Read => 2,
            Direction::ReadWrite => 3,
        }
    }
}

/// The magic byte identifying this protocol family in every wire number.
pub const WIRE_MAGIC: u8 = 0xbc;

/// The payload-size field of a wire number is 14 bits wide; a fixed payload
/// must fit below this bound.
pub const MAX_PAYLOAD_SIZE: usize = 0x4000;

/// Wire number derivation:
/// `(direction << 30) | (payload_size << 16) | (magic << 8) | opcode`.
pub open spec fn spec_wire_number(dir: Direction, payload_size: usize, opcode: u8) -> u64 {
    (dir.spec_bits() << 30) | ((payload_size as u64) << 16) | ((WIRE_MAGIC as u64) << 8) | (
    opcode as u64)
}

/// Derive the wire number of a request from its direction, the byte size of
/// its fixed payload, and its opcode.
pub fn wire_number(dir: Direction, payload_size: usize, opcode: u8) -> (r: u64)
    requires
        payload_size < MAX_PAYLOAD_SIZE,
    ensures
        r == spec_wire_number(dir, payload_size, opcode),
{
    (dir.bits() << 30) | ((payload_size as u64) << 16) | ((WIRE_MAGIC as u64) << 8) | (
    opcode as u64)
}

/// Wire number of a write-direction request.
pub fn bch_ioc_w(opcode: u8, payload_size: usize) -> (r: u64)
    requires
        payload_size < MAX_PAYLOAD_SIZE,
    ensures
        r == spec_wire_number(Direction::Write, payload_size, opcode),
{
    wire_number(Direction::Write, payload_size, opcode)
}

/// Wire number of a read-write-direction request.
pub fn bch_ioc_wr(opcode: u8, payload_size: usize) -> (r: u64)
    requires
        payload_size < MAX_PAYLOAD_SIZE,
    ensures
        r == spec_wire_number(Direction::ReadWrite, payload_size, opcode),
{
    wire_number(Direction::ReadWrite, payload_size, opcode)
}

/// Every field of a wire number can be read back from it: the encoding is
/// injective, so requests that differ in direction, payload size or opcode
/// never share a number.
pub proof fn lemma_wire_number_fields(dir: Direction, payload_size: usize, opcode: u8)
    requires
        payload_size < MAX_PAYLOAD_SIZE,
    ensures
        spec_wire_number(dir, payload_size, opcode) & 0xff == opcode,
        (spec_wire_number(dir, payload_size, opcode) >> 8) & 0xff == WIRE_MAGIC,
        (spec_wire_number(dir, payload_size, opcode) >> 16) & 0x3fff == payload_size,
        (spec_wire_number(dir, payload_size, opcode) >> 30) & 0x3 == dir.spec_bits(),
{
    let d = dir.spec_bits();
    let s = payload_size as u64;
    let o = opcode as u64;
    assert(1 <= d <= 3) by {
        match dir {
            Direction::Write => {},
            Direction::Read => {},
            Direction::ReadWrite => {},
        }
    }
    let w = (d << 30) | (s << 16) | (0xbcu64 << 8) | o;
    assert(d <= 3 && s < 0x4000 && o < 0x100 ==> ((d << 30) | (s << 16) | (0xbcu64 << 8) | o)
        & 0xff == o) by (bit_vector);
    assert(d <= 3 && s < 0x4000 && o < 0x100 ==> (((d << 30) | (s << 16) | (0xbcu64 << 8) | o)
        >> 8) & 0xff == 0xbc) by (bit_vector);
    assert(d <= 3 && s < 0x4000 && o < 0x100 ==> (((d << 30) | (s << 16) | (0xbcu64 << 8) | o)
        >> 16) & 0x3fff == s) by (bit_vector);
    assert(d <= 3 && s < 0x4000 && o < 0x100 ==> (((d << 30) | (s << 16) | (0xbcu64 << 8) | o)
        >> 30) & 0x3 == d) by (bit_vector);
    assert(w & 0xff == o && (w >> 8) & 0xff == 0xbc && (w >> 16) & 0x3fff == s && (w >> 30) & 0x3
        == d);
}

} // verus!
