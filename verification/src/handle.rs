//! A handle to one mounted filesystem, and its control operations.
//!
//! The handle pairs a [`ControlPort`] with what the opener learned about the
//! filesystem: the member index when it was opened through a block device
//! (negative when opened through a mount point), and the filesystem's
//! identity bytes.  Every disk and subvolume operation goes out in two wire
//! generations through the version-fallback layer; device usage is a
//! flexible-array query with a fixed-payload fallback.
//!
//! All payload layouts here are frozen: each field's offset and width is
//! explicit, because the payload's byte size is part of the wire number.

use crate::bytes::{read_u32_le, read_u64_le, read_u8, write_u32_le, write_u64_le};
use crate::error::{ErrorKind, QueryError};
use crate::flex::{query_flex, FieldRef, FlexLayout};
use crate::ioctl::Direction;
use crate::port::{send, ControlPort, ControlRequest};
use crate::versioned::send_versioned;
use vstd::arithmetic::div_mod::lemma_fundamental_div_mod;
use vstd::bytes::{spec_u32_from_le_bytes, spec_u32_to_le_bytes, spec_u64_from_le_bytes,
    spec_u64_to_le_bytes};
use vstd::prelude::*;
use vstd::slice::{slice_subrange, slice_to_vec};

verus! {

// Force flags a caller can set on destructive disk operations, and the flag
// that names a device by member index rather than by path.
pub const BCH_FORCE_IF_DATA_LOST: u32 = 1;

pub const BCH_FORCE_IF_METADATA_LOST: u32 = 2;

pub const BCH_FORCE_IF_DATA_DEGRADED: u32 = 4;

pub const BCH_FORCE_IF_METADATA_DEGRADED: u32 = 8;

pub const BCH_FORCE_IF_DEGRADED: u32 = 12;

pub const BCH_BY_INDEX: u32 = 16;

/// Creating a subvolume with this flag set snapshots an existing one.
pub const BCH_SUBVOL_SNAPSHOT_CREATE: u32 = 1;

// Opcodes of the disk and subvolume operations, older generation and
// message-carrying generation.
pub const OP_DISK_REMOVE: u8 = 5;

pub const OP_DISK_ONLINE: u8 = 6;

pub const OP_DISK_OFFLINE: u8 = 7;

pub const OP_DISK_SET_STATE: u8 = 8;

pub const OP_DISK_RESIZE: u8 = 14;

pub const OP_DISK_RESIZE_JOURNAL: u8 = 15;

pub const OP_SUBVOLUME_CREATE: u8 = 16;

pub const OP_SUBVOLUME_DESTROY: u8 = 17;

pub const OP_DISK_SET_STATE_V2: u8 = 22;

pub const OP_DISK_REMOVE_V2: u8 = 24;

pub const OP_DISK_ONLINE_V2: u8 = 25;

pub const OP_DISK_OFFLINE_V2: u8 = 26;

pub const OP_DISK_RESIZE_V2: u8 = 27;

pub const OP_DISK_RESIZE_JOURNAL_V2: u8 = 28;

pub const OP_SUBVOLUME_CREATE_V2: u8 = 29;

pub const OP_SUBVOLUME_DESTROY_V2: u8 = 30;

pub const OP_DEV_USAGE: u8 = 11;

pub const OP_DEV_USAGE_V2: u8 = 18;

/// Byte size of the diagnostic-message fields appended to every
/// message-carrying payload: an 8-byte buffer address and a 4-byte length,
/// padded to 16.
pub const ERR_FIELDS_LEN: usize = 16;

/// A handle to one filesystem: a control port plus the opener's findings.
pub struct BcachefsHandle<P: ControlPort> {
    pub port: P,
    /// Member index when opened via a block device path; negative when opened
    /// via a mount point.
    pub dev_idx: i32,
    /// The filesystem's identity bytes.
    pub uuid: [u8; 16],
}

/// The older-generation disk payload: force flags, then the device — a member
/// index or a name's address, depending on the flags.
pub open spec fn spec_disk_payload(flags: u32, dev: u64) -> Seq<u8> {
    spec_u32_to_le_bytes(flags) + crate::accounting::zero_bytes(4) + spec_u64_to_le_bytes(dev)
}

/// The older-generation set-state payload: flags, the new state, the device.
pub open spec fn spec_set_state_payload(flags: u32, new_state: u8, dev: u64) -> Seq<u8> {
    spec_u32_to_le_bytes(flags) + seq![new_state] + crate::accounting::zero_bytes(3)
        + spec_u64_to_le_bytes(dev)
}

/// The older-generation resize payload: flags, the device, the new size in
/// buckets.
pub open spec fn spec_resize_payload(flags: u32, dev: u64, nbuckets: u64) -> Seq<u8> {
    spec_u32_to_le_bytes(flags) + crate::accounting::zero_bytes(4) + spec_u64_to_le_bytes(dev)
        + spec_u64_to_le_bytes(nbuckets)
}

/// The older-generation subvolume payload: flags, the directory descriptor,
/// the mode, then the addresses of the destination and source names (patched
/// in by the port; zero here).
pub open spec fn spec_subvolume_payload(flags: u32, dirfd: u32, mode: u16) -> Seq<u8> {
    spec_u32_to_le_bytes(flags) + spec_u32_to_le_bytes(dirfd) + seq![
        (mode & 0xff) as u8,
        ((mode >> 8) & 0xff) as u8,
    ] + crate::accounting::zero_bytes(6) + crate::accounting::zero_bytes(16)
}

/// Build the 16-byte disk payload.
pub fn encode_disk_payload(flags: u32, dev: u64) -> (r: Vec<u8>)
    ensures
        r@ == spec_disk_payload(flags, dev),
        r@.len() == 16,
{
    let mut r: Vec<u8> = vec![0u8; 16];
    write_u32_le(&mut r, 0, flags);
    write_u64_le(&mut r, 8, dev);
    proof {
        vstd::bytes::lemma_auto_spec_u32_to_from_le_bytes();
        vstd::bytes::lemma_auto_spec_u64_to_from_le_bytes();
        assert(r@ =~= spec_disk_payload(flags, dev));
    }
    r
}

/// Build the 16-byte set-state payload.
pub fn encode_set_state_payload(flags: u32, new_state: u8, dev: u64) -> (r: Vec<u8>)
    ensures
        r@ == spec_set_state_payload(flags, new_state, dev),
        r@.len() == 16,
{
    let mut r: Vec<u8> = vec![0u8; 16];
    write_u32_le(&mut r, 0, flags);
    r.set(4, new_state);
    write_u64_le(&mut r, 8, dev);
    proof {
        vstd::bytes::lemma_auto_spec_u32_to_from_le_bytes();
        vstd::bytes::lemma_auto_spec_u64_to_from_le_bytes();
        assert(r@ =~= spec_set_state_payload(flags, new_state, dev));
    }
    r
}

/// Build the 24-byte resize payload.
pub fn encode_resize_payload(flags: u32, dev: u64, nbuckets: u64) -> (r: Vec<u8>)
    ensures
        r@ == spec_resize_payload(flags, dev, nbuckets),
        r@.len() == 24,
{
    let mut r: Vec<u8> = vec![0u8; 24];
    write_u32_le(&mut r, 0, flags);
    write_u64_le(&mut r, 8, dev);
    write_u64_le(&mut r, 16, nbuckets);
    proof {
        vstd::bytes::lemma_auto_spec_u32_to_from_le_bytes();
        vstd::bytes::lemma_auto_spec_u64_to_from_le_bytes();
        assert(r@ =~= spec_resize_payload(flags, dev, nbuckets));
    }
    r
}

/// Build the 32-byte subvolume payload.
pub fn encode_subvolume_payload(flags: u32, dirfd: u32, mode: u16) -> (r: Vec<u8>)
    ensures
        r@ == spec_subvolume_payload(flags, dirfd, mode),
        r@.len() == 32,
{
    let mut r: Vec<u8> = vec![0u8; 32];
    write_u32_le(&mut r, 0, flags);
    write_u32_le(&mut r, 4, dirfd);
    r.set(8, (mode & 0xff) as u8);
    r.set(9, ((mode >> 8) & 0xff) as u8);
    proof {
        vstd::bytes::lemma_auto_spec_u32_to_from_le_bytes();
        vstd::bytes::lemma_auto_spec_u64_to_from_le_bytes();
        assert(r@ =~= spec_subvolume_payload(flags, dirfd, mode));
    }
    r
}

/// A name handed to the peer: non-empty and zero-terminated, or absent
/// (empty).
pub open spec fn spec_name_ok(name: Seq<u8>) -> bool {
    name.len() > 0 ==> name[name.len() - 1] == 0
}

impl<P: ControlPort> BcachefsHandle<P> {
    /// Wrap an opened filesystem.
    pub fn new(port: P, dev_idx: i32, uuid: [u8; 16]) -> (r: BcachefsHandle<P>)
        ensures
            r.dev_idx == dev_idx,
            r.uuid == uuid,
    {
        BcachefsHandle { port, dev_idx, uuid }
    }

    /// Member index when opened via a block device path; negative when opened
    /// via a mount point.
    pub fn dev_idx(&self) -> (r: i32)
        ensures
            r == self.dev_idx,
    {
        self.dev_idx
    }

    /// The filesystem's identity bytes.
    pub fn uuid(&self) -> (r: [u8; 16])
        ensures
            r == self.uuid,
    {
        self.uuid
    }

    /// Send one logical operation in both generations: the message-carrying
    /// payload is the older payload with the diagnostic fields appended, and
    /// the older form goes out only if the peer does not know the newer one.
    fn versioned_op(
        &mut self,
        opcode_v2: u8,
        opcode_v1: u8,
        base: &Vec<u8>,
        path_a: &Vec<u8>,
        a_off: usize,
        path_b: &Vec<u8>,
        b_off: usize,
    ) -> (r: Result<(), QueryError>)
        requires
            base@.len() + ERR_FIELDS_LEN < crate::ioctl::MAX_PAYLOAD_SIZE,
            path_a@.len() > 0 ==> a_off + 8 <= base@.len(),
            path_b@.len() > 0 ==> b_off + 8 <= base@.len(),
        ensures
            r matches Err(e) ==> e.kind == crate::error::spec_classify(e.kind.spec_errno())
                && e.kind.spec_errno() != 0,
            r matches Err(e) ==> forall|k: int|
                0 <= k < e.message@.len() ==> e.message@[k] != 0,
    {
        let base_len = base.len();
        let mut new_payload: Vec<u8> = slice_to_vec(base.as_slice());
        new_payload.resize(base_len + ERR_FIELDS_LEN, 0u8);
        let mut old_payload: Vec<u8> = slice_to_vec(base.as_slice());
        let new_req = ControlRequest {
            direction: Direction::Write,
            opcode: opcode_v2,
            payload_size: base_len + ERR_FIELDS_LEN,
        };
        let old_req = ControlRequest {
            direction: Direction::Write,
            opcode: opcode_v1,
            payload_size: base_len,
        };
        send_versioned(
            &mut self.port,
            &new_req,
            &mut new_payload,
            base_len,
            base_len + 8,
            &old_req,
            &mut old_payload,
            path_a,
            a_off,
            path_b,
            b_off,
        )
    }

    /// Shared shape of the four index-addressed disk operations.
    fn disk_ioctl(&mut self, opcode_v2: u8, opcode_v1: u8, flags: u32, dev: u64) -> (r: Result<
        (),
        QueryError,
    >)
        ensures
            r matches Err(e) ==> e.kind == crate::error::spec_classify(e.kind.spec_errno())
                && e.kind.spec_errno() != 0,
            r matches Err(e) ==> forall|k: int|
                0 <= k < e.message@.len() ==> e.message@[k] != 0,
    {
        let base = encode_disk_payload(flags, dev);
        let none: Vec<u8> = Vec::new();
        self.versioned_op(opcode_v2, opcode_v1, &base, &none, 0, &none, 0)
    }

    /// Remove a device, named by member index, from this filesystem.
    pub fn disk_remove(&mut self, dev_idx: u32, flags: u32) -> (r: Result<(), QueryError>)
        ensures
            r matches Err(e) ==> e.kind == crate::error::spec_classify(e.kind.spec_errno())
                && e.kind.spec_errno() != 0,
            r matches Err(e) ==> forall|k: int|
                0 <= k < e.message@.len() ==> e.message@[k] != 0,
    {
        self.disk_ioctl(OP_DISK_REMOVE_V2, OP_DISK_REMOVE, flags | BCH_BY_INDEX, dev_idx as u64)
    }

    /// Re-add an offline device, named by its zero-terminated path.
    pub fn disk_online(&mut self, dev_path: &Vec<u8>) -> (r: Result<(), QueryError>)
        requires
            dev_path@.len() > 0,
            spec_name_ok(dev_path@),
        ensures
            r matches Err(e) ==> e.kind == crate::error::spec_classify(e.kind.spec_errno())
                && e.kind.spec_errno() != 0,
            r matches Err(e) ==> forall|k: int|
                0 <= k < e.message@.len() ==> e.message@[k] != 0,
    {
        let base = encode_disk_payload(0, 0);
        let none: Vec<u8> = Vec::new();
        self.versioned_op(OP_DISK_ONLINE_V2, OP_DISK_ONLINE, &base, dev_path, 8, &none, 0)
    }

    /// Take a device, named by member index, offline without removing it.
    pub fn disk_offline(&mut self, dev_idx: u32, flags: u32) -> (r: Result<(), QueryError>)
        ensures
            r matches Err(e) ==> e.kind == crate::error::spec_classify(e.kind.spec_errno())
                && e.kind.spec_errno() != 0,
            r matches Err(e) ==> forall|k: int|
                0 <= k < e.message@.len() ==> e.message@[k] != 0,
    {
        self.disk_ioctl(OP_DISK_OFFLINE_V2, OP_DISK_OFFLINE, flags | BCH_BY_INDEX, dev_idx as u64)
    }

    /// Change a device's state.
    pub fn disk_set_state(&mut self, dev_idx: u32, new_state: u8, flags: u32) -> (r: Result<
        (),
        QueryError,
    >)
        ensures
            r matches Err(e) ==> e.kind == crate::error::spec_classify(e.kind.spec_errno())
                && e.kind.spec_errno() != 0,
            r matches Err(e) ==> forall|k: int|
                0 <= k < e.message@.len() ==> e.message@[k] != 0,
    {
        let base = encode_set_state_payload(flags | BCH_BY_INDEX, new_state, dev_idx as u64);
        let none: Vec<u8> = Vec::new();
        self.versioned_op(OP_DISK_SET_STATE_V2, OP_DISK_SET_STATE, &base, &none, 0, &none, 0)
    }

    /// Resize the filesystem's share of a device to `nbuckets` buckets.
    pub fn disk_resize(&mut self, dev_idx: u32, nbuckets: u64) -> (r: Result<(), QueryError>)
        ensures
            r matches Err(e) ==> e.kind == crate::error::spec_classify(e.kind.spec_errno())
                && e.kind.spec_errno() != 0,
            r matches Err(e) ==> forall|k: int|
                0 <= k < e.message@.len() ==> e.message@[k] != 0,
    {
        let base = encode_resize_payload(BCH_BY_INDEX, dev_idx as u64, nbuckets);
        let none: Vec<u8> = Vec::new();
        self.versioned_op(OP_DISK_RESIZE_V2, OP_DISK_RESIZE, &base, &none, 0, &none, 0)
    }

    /// Resize the journal on a device to `nbuckets` buckets.
    pub fn disk_resize_journal(&mut self, dev_idx: u32, nbuckets: u64) -> (r: Result<
        (),
        QueryError,
    >)
        ensures
            r matches Err(e) ==> e.kind == crate::error::spec_classify(e.kind.spec_errno())
                && e.kind.spec_errno() != 0,
            r matches Err(e) ==> forall|k: int|
                0 <= k < e.message@.len() ==> e.message@[k] != 0,
    {
        let base = encode_resize_payload(BCH_BY_INDEX, dev_idx as u64, nbuckets);
        let none: Vec<u8> = Vec::new();
        self.versioned_op(OP_DISK_RESIZE_JOURNAL_V2, OP_DISK_RESIZE_JOURNAL, &base, &none, 0, &none, 0)
    }

    /// Shared shape of the subvolume operations; `src` may be empty.
    fn subvol_ioctl(
        &mut self,
        opcode_v2: u8,
        opcode_v1: u8,
        flags: u32,
        dirfd: u32,
        mode: u16,
        dst: &Vec<u8>,
        src: &Vec<u8>,
    ) -> (r: Result<(), QueryError>)
        requires
            dst@.len() > 0,
            spec_name_ok(dst@),
            spec_name_ok(src@),
        ensures
            r matches Err(e) ==> e.kind == crate::error::spec_classify(e.kind.spec_errno())
                && e.kind.spec_errno() != 0,
            r matches Err(e) ==> forall|k: int|
                0 <= k < e.message@.len() ==> e.message@[k] != 0,
    {
        let base = encode_subvolume_payload(flags, dirfd, mode);
        self.versioned_op(opcode_v2, opcode_v1, &base, dst, 16, src, 24)
    }

    /// Create a subvolume at the zero-terminated path `dst`.
    pub fn create_subvolume(&mut self, dirfd: u32, mode: u16, dst: &Vec<u8>) -> (r: Result<
        (),
        QueryError,
    >)
        requires
            dst@.len() > 0,
            spec_name_ok(dst@),
        ensures
            r matches Err(e) ==> e.kind == crate::error::spec_classify(e.kind.spec_errno())
                && e.kind.spec_errno() != 0,
            r matches Err(e) ==> forall|k: int|
                0 <= k < e.message@.len() ==> e.message@[k] != 0,
    {
        let none: Vec<u8> = Vec::new();
        self.subvol_ioctl(OP_SUBVOLUME_CREATE_V2, OP_SUBVOLUME_CREATE, 0, dirfd, mode, dst, &none)
    }

    /// Delete the subvolume at the zero-terminated path `dst`.
    pub fn delete_subvolume(&mut self, dirfd: u32, mode: u16, dst: &Vec<u8>) -> (r: Result<
        (),
        QueryError,
    >)
        requires
            dst@.len() > 0,
            spec_name_ok(dst@),
        ensures
            r matches Err(e) ==> e.kind == crate::error::spec_classify(e.kind.spec_errno())
                && e.kind.spec_errno() != 0,
            r matches Err(e) ==> forall|k: int|
                0 <= k < e.message@.len() ==> e.message@[k] != 0,
    {
        let none: Vec<u8> = Vec::new();
        self.subvol_ioctl(OP_SUBVOLUME_DESTROY_V2, OP_SUBVOLUME_DESTROY, 0, dirfd, mode, dst, &none)
    }

    /// Snapshot a subvolume: create `dst` as a snapshot of `src`, or of the
    /// caller's current subvolume when `src` is empty.
    pub fn snapshot_subvolume(
        &mut self,
        extra_flags: u32,
        dirfd: u32,
        mode: u16,
        src: &Vec<u8>,
        dst: &Vec<u8>,
    ) -> (r: Result<(), QueryError>)
        requires
            dst@.len() > 0,
            spec_name_ok(dst@),
            spec_name_ok(src@),
        ensures
            r matches Err(e) ==> e.kind == crate::error::spec_classify(e.kind.spec_errno())
                && e.kind.spec_errno() != 0,
            r matches Err(e) ==> forall|k: int|
                0 <= k < e.message@.len() ==> e.message@[k] != 0,
    {
        self.subvol_ioctl(
            OP_SUBVOLUME_CREATE_V2,
            OP_SUBVOLUME_CREATE,
            BCH_SUBVOL_SNAPSHOT_CREATE | extra_flags,
            dirfd,
            mode,
            dst,
            src,
        )
    }
}

/// Per-data-type usage on one device, in the record order the peer returns.
#[derive(Clone, Copy, Debug, PartialEq, Eq, Structural)]
pub struct DevUsageType {
    pub buckets: u64,
    pub sectors: u64,
    pub fragmented: u64,
}

/// Disk space usage of one device.
#[derive(Debug, PartialEq, Eq)]
pub struct DevUsage {
    pub state: u8,
    pub bucket_size: u32,
    pub nr_buckets: u64,
    pub data_types: Vec<DevUsageType>,
}

/// How many data types the older usage response always carries.
pub const DEV_USAGE_NR_TYPES: usize = 10;

/// Byte length of the usage response header, in both generations.
pub const DEV_USAGE_HDR_LEN: usize = 32;

/// Byte length of one per-data-type usage record.
pub const DEV_USAGE_RECORD_LEN: usize = 24;

/// The usage records of a raw region: 24-byte records of buckets, sectors and
/// fragmented sectors.
pub open spec fn spec_dev_usage_records(s: Seq<u8>) -> Seq<DevUsageType> {
    Seq::new(
        (s.len() / DEV_USAGE_RECORD_LEN as nat) as nat,
        |i: int| DevUsageType {
            buckets: spec_u64_from_le_bytes(s.subrange(24 * i, 24 * i + 8)),
            sectors: spec_u64_from_le_bytes(s.subrange(24 * i + 8, 24 * i + 16)),
            fragmented: spec_u64_from_le_bytes(s.subrange(24 * i + 16, 24 * i + 24)),
        },
    )
}

/// The usage header fields, read from a response of either generation: the
/// state byte, the bucket size and the bucket count sit at the same frozen
/// offsets in both.
pub open spec fn spec_dev_usage_header(s: Seq<u8>) -> (u8, u32, u64) {
    (
        s[12],
        spec_u32_from_le_bytes(s.subrange(16, 20)),
        spec_u64_from_le_bytes(s.subrange(24, 32)),
    )
}

/// Decode a raw region of usage records.
pub fn parse_dev_usage_records(region: &Vec<u8>) -> (r: Vec<DevUsageType>)
    ensures
        r@ == spec_dev_usage_records(region@),
{
    let len = region.len();
    let n = len / DEV_USAGE_RECORD_LEN;
    let mut r: Vec<DevUsageType> = Vec::new();
    let mut i: usize = 0;
    while i < n
        invariant
            len == region@.len(),
            n == len as int / DEV_USAGE_RECORD_LEN as int,
            i <= n,
            r@.len() == i,
            forall|k: int| 0 <= k < i ==> r@[k] == spec_dev_usage_records(region@)[k],
        decreases n - i,
    {
        proof {
            lemma_fundamental_div_mod(len as int, DEV_USAGE_RECORD_LEN as int);
        }
        let base = i * DEV_USAGE_RECORD_LEN;
        r.push(
            DevUsageType {
                buckets: read_u64_le(region, base),
                sectors: read_u64_le(region, base + 8),
                fragmented: read_u64_le(region, base + 16),
            },
        );
        i = i + 1;
    }
    assert(r@ =~= spec_dev_usage_records(region@));
    r
}

impl<P: ControlPort> BcachefsHandle<P> {
    /// Query one device's usage: the flexible-array generation first, then
    /// the older fixed response of ten records when the peer does not know
    /// it.  On success the header fields and every record are the decode of
    /// the peer's response at the frozen offsets.
    pub fn dev_usage(&mut self, dev_idx: u32) -> (r: Result<DevUsage, ErrorKind>)
        ensures
            r matches Ok(u) ==> exists|hdr: Seq<u8>, recs: Seq<u8>|
                {
                    &&& hdr.len() >= DEV_USAGE_HDR_LEN
                    &&& u.state == spec_dev_usage_header(hdr).0
                    &&& u.bucket_size == spec_dev_usage_header(hdr).1
                    &&& u.nr_buckets == spec_dev_usage_header(hdr).2
                    &&& u.data_types@ == spec_dev_usage_records(recs)
                },
    {
        let layout = FlexLayout {
            header_len: DEV_USAGE_HDR_LEN,
            record_len: DEV_USAGE_RECORD_LEN,
            capacity_field: FieldRef { off: 13, width: 1 },
            count_field: FieldRef { off: 13, width: 1 },
            total_field: FieldRef { off: 13, width: 1 },
        };
        let mut initial: Vec<u8> = vec![0u8; DEV_USAGE_HDR_LEN];
        write_u64_le(&mut initial, 0, dev_idx as u64);
        write_u32_le(&mut initial, 8, BCH_BY_INDEX);
        let req = ControlRequest {
            direction: Direction::ReadWrite,
            opcode: OP_DEV_USAGE_V2,
            payload_size: DEV_USAGE_HDR_LEN,
        };
        match query_flex(&mut self.port, &req, &layout, &initial, DEV_USAGE_NR_TYPES as u64, 255, 0)
        {
            Ok(resp) => {
                let state = read_u8(&resp.raw_header, 12);
                let bucket_size = read_u32_le(&resp.raw_header, 16);
                let nr_buckets = read_u64_le(&resp.raw_header, 24);
                let data_types = parse_dev_usage_records(&resp.records);
                Ok(DevUsage { state, bucket_size, nr_buckets, data_types })
            },
            Err(ErrorKind::NotSupported) => self.dev_usage_v1(dev_idx),
            Err(e) => Err(e),
        }
    }

    /// The older usage request: one fixed payload holding the header and ten
    /// records, rewritten in place by the peer.
    fn dev_usage_v1(&mut self, dev_idx: u32) -> (r: Result<DevUsage, ErrorKind>)
        ensures
            r matches Ok(u) ==> exists|hdr: Seq<u8>, recs: Seq<u8>|
                {
                    &&& hdr.len() >= DEV_USAGE_HDR_LEN
                    &&& u.state == spec_dev_usage_header(hdr).0
                    &&& u.bucket_size == spec_dev_usage_header(hdr).1
                    &&& u.nr_buckets == spec_dev_usage_header(hdr).2
                    &&& u.data_types@ == spec_dev_usage_records(recs)
                },
    {
        let full_len = DEV_USAGE_HDR_LEN + DEV_USAGE_NR_TYPES * DEV_USAGE_RECORD_LEN;
        let mut payload: Vec<u8> = vec![0u8; full_len];
        write_u64_le(&mut payload, 0, dev_idx as u64);
        write_u32_le(&mut payload, 8, BCH_BY_INDEX);
        let req = ControlRequest {
            direction: Direction::ReadWrite,
            opcode: OP_DEV_USAGE,
            payload_size: full_len,
        };
        match send(&mut self.port, &req, &mut payload) {
            Ok(()) => {
                if payload.len() < full_len {
                    return Err(ErrorKind::Truncated);
                }
                let state = read_u8(&payload, 12);
                let bucket_size = read_u32_le(&payload, 16);
                let nr_buckets = read_u64_le(&payload, 24);
                let region = slice_to_vec(
                    slice_subrange(payload.as_slice(), DEV_USAGE_HDR_LEN, full_len),
                );
                let data_types = parse_dev_usage_records(&region);
                proof {
                    assert(payload@.subrange(16, 20) =~= payload@.subrange(0, 32).subrange(16, 20));
                    assert(payload@.subrange(24, 32) =~= payload@.subrange(0, 32).subrange(24, 32));
                }
                Ok(DevUsage { state, bucket_size, nr_buckets, data_types })
            },
            Err(e) => Err(e),
        }
    }
}

} // verus!
