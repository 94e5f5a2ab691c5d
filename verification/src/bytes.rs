//! Reading and writing little-endian integer fields inside byte buffers.
//!
//! Every request payload and response of the protocol is a flat byte buffer
//! with fixed-width little-endian fields at frozen offsets.  These helpers
//! read and write such fields and state exactly which bytes they touch.

use vstd::bytes::*;
use vstd::prelude::*;
use vstd::slice::*;

verus! {

/// Read the byte at `off`.
pub fn read_u8(buf: &Vec<u8>, off: usize) -> (r: u8)
    requires
        off < buf@.len(),
    ensures
        r == buf@[off as int],
{
    buf[off]
}

/// Read a little-endian 16-bit field at `off`.
pub fn read_u16_le(buf: &Vec<u8>, off: usize) -> (r: u16)
    requires
        off + 2 <= buf@.len(),
    ensures
        r == spec_u16_from_le_bytes(buf@.subrange(off as int, off + 2)),
{
    let _n = buf.len();
    u16_from_le_bytes(slice_subrange(buf.as_slice(), off, off + 2))
}

/// Read a little-endian 32-bit field at `off`.
pub fn read_u32_le(buf: &Vec<u8>, off: usize) -> (r: u32)
    requires
        off + 4 <= buf@.len(),
    ensures
        r == spec_u32_from_le_bytes(buf@.subrange(off as int, off + 4)),
{
    let _n = buf.len();
    u32_from_le_bytes(slice_subrange(buf.as_slice(), off, off + 4))
}

/// Read a little-endian 64-bit field at `off`.
pub fn read_u64_le(buf: &Vec<u8>, off: usize) -> (r: u64)
    requires
        off + 8 <= buf@.len(),
    ensures
        r == spec_u64_from_le_bytes(buf@.subrange(off as int, off + 8)),
{
    let _n = buf.len();
    u64_from_le_bytes(slice_subrange(buf.as_slice(), off, off + 8))
}

/// The buffer after overwriting `width` bytes at `off` with `field`,
/// everything else unchanged.
pub open spec fn spec_splice(s: Seq<u8>, off: int, field: Seq<u8>) -> Seq<u8> {
    s.subrange(0, off) + field + s.subrange(off + field.len(), s.len() as int)
}

/// Overwrite the bytes at `off..off + bytes.len()` with `bytes`.
pub fn write_bytes(buf: &mut Vec<u8>, off: usize, bytes: &Vec<u8>)
    requires
        off + bytes@.len() <= old(buf)@.len(),
    ensures
        final(buf)@.len() == old(buf)@.len(),
        final(buf)@ == spec_splice(old(buf)@, off as int, bytes@),
{
    let _n = buf.len();
    let mut i: usize = 0;
    while i < bytes.len()
        invariant
            buf@.len() <= usize::MAX,
            off + bytes@.len() <= buf@.len(),
            buf@.len() == old(buf)@.len(),
            i <= bytes@.len(),
            forall|k: int| 0 <= k < i ==> buf@[off + k] == bytes@[k],
            forall|k: int| 0 <= k < off ==> buf@[k] == old(buf)@[k],
            forall|k: int| off + bytes@.len() <= k < buf@.len() ==> buf@[k] == old(buf)@[k],
            forall|k: int| off + i <= k < buf@.len() ==> buf@[k] == old(buf)@[k],
        decreases bytes@.len() - i,
    {
        buf.set(off + i, bytes[i]);
        i = i + 1;
    }
    assert(buf@ =~= spec_splice(old(buf)@, off as int, bytes@));
}

/// Write a little-endian 16-bit field at `off`.
pub fn write_u16_le(buf: &mut Vec<u8>, off: usize, v: u16)
    requires
        off + 2 <= old(buf)@.len(),
    ensures
        final(buf)@.len() == old(buf)@.len(),
        final(buf)@ == spec_splice(old(buf)@, off as int, spec_u16_to_le_bytes(v)),
{
    let field = u16_to_le_bytes(v);
    write_bytes(buf, off, &field);
}

/// Write a little-endian 32-bit field at `off`.
pub fn write_u32_le(buf: &mut Vec<u8>, off: usize, v: u32)
    requires
        off + 4 <= old(buf)@.len(),
    ensures
        final(buf)@.len() == old(buf)@.len(),
        final(buf)@ == spec_splice(old(buf)@, off as int, spec_u32_to_le_bytes(v)),
{
    let field = u32_to_le_bytes(v);
    write_bytes(buf, off, &field);
}

/// Write a little-endian 64-bit field at `off`.
pub fn write_u64_le(buf: &mut Vec<u8>, off: usize, v: u64)
    requires
        off + 8 <= old(buf)@.len(),
    ensures
        final(buf)@.len() == old(buf)@.len(),
        final(buf)@ == spec_splice(old(buf)@, off as int, spec_u64_to_le_bytes(v)),
{
    let field = u64_to_le_bytes(v);
    write_bytes(buf, off, &field);
}

/// `p` is the prefix of `s` that runs up to (not including) the first zero
/// byte, or all of `s` when no byte is zero.  At most one `p` satisfies this
/// for a given `s`.
pub open spec fn is_nul_prefix(p: Seq<u8>, s: Seq<u8>) -> bool {
    &&& p.len() <= s.len()
    &&& p == s.subrange(0, p.len() as int)
    &&& forall|k: int| 0 <= k < p.len() ==> s[k] != 0
    &&& p.len() == s.len() || s[p.len() as int] == 0
}

/// Copy the prefix of `buf` that precedes its first zero byte.
pub fn nul_prefix(buf: &Vec<u8>) -> (r: Vec<u8>)
    ensures
        is_nul_prefix(r@, buf@),
{
    let mut i: usize = 0;
    while i < buf.len() && buf[i] != 0
        invariant
            i <= buf@.len(),
            forall|k: int| 0 <= k < i ==> buf@[k] != 0,
        decreases buf@.len() - i,
    {
        i = i + 1;
    }
    let r = slice_to_vec(slice_subrange(buf.as_slice(), 0, i));
    assert(r@ == buf@.subrange(0, i as int));
    r
}

} // verus!
