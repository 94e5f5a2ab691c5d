//! Filesystem usage queries: field selection, the legacy usage request, and
//! the replica-entry decoder.
//!
//! The newer usage path asks the accounting query for selected record kinds;
//! the legacy path is one growable request whose response carries the
//! filesystem totals, four reserved counters, and a packed variable-length
//! list of replica entries.

use crate::accounting::{
    entries_view, AccountingEntry, AccountingEntryView, AccountingPosView, DiskAccountingPos,
};
use crate::bytes::{read_u32_le, read_u64_le, read_u8, write_u32_le};
use crate::error::ErrorKind;
use crate::handle::BcachefsHandle;
use crate::ioctl::Direction;
use crate::port::{send, ControlPort, ControlRequest};
use vstd::bytes::{spec_u32_from_le_bytes, spec_u64_from_le_bytes};
use vstd::prelude::*;
use vstd::slice::{slice_subrange, slice_to_vec};

verus! {

// Output field selectors of the usage report.
pub const FIELD_REPLICAS: u32 = 1;

pub const FIELD_BTREE: u32 = 2;

pub const FIELD_COMPRESSION: u32 = 4;

pub const FIELD_REBALANCE_WORK: u32 = 8;

pub const FIELD_DEVICES: u32 = 16;

/// The protocol generation at which reconcile accounting replaced rebalance
/// work.
pub const VERSION_RECONCILE: u64 = 1057;

/// Which accounting record kinds a usage report with the given fields asks
/// for: always replicas and persistent reservations; compression and btree on
/// request; and, for pending work, the rebalance kind before the reconcile
/// generation or the reconcile and device-leaving kinds from it on.
pub open spec fn spec_accounting_types_mask(fields: u32, kernel_version: u64) -> u32 {
    let base = (1u32 << 2) | (1u32 << 1);
    let base = if fields & FIELD_COMPRESSION != 0 {
        base | (1u32 << 4)
    } else {
        base
    };
    let base = if fields & FIELD_BTREE != 0 {
        base | (1u32 << 6)
    } else {
        base
    };
    if fields & FIELD_REBALANCE_WORK != 0 {
        if kernel_version < VERSION_RECONCILE {
            base | (1u32 << 7)
        } else {
            base | (1u32 << 9) | (1u32 << 10)
        }
    } else {
        base
    }
}

/// Compute the accounting type mask for a usage report.
pub fn accounting_types_mask(fields: u32, kernel_version: u64) -> (r: u32)
    ensures
        r == spec_accounting_types_mask(fields, kernel_version),
{
    let mut mask: u32 = (1u32 << 2) | (1u32 << 1);
    if fields & FIELD_COMPRESSION != 0 {
        mask = mask | (1u32 << 4);
    }
    if fields & FIELD_BTREE != 0 {
        mask = mask | (1u32 << 6);
    }
    if fields & FIELD_REBALANCE_WORK != 0 {
        if kernel_version < VERSION_RECONCILE {
            mask = mask | (1u32 << 7);
        } else {
            mask = mask | (1u32 << 9) | (1u32 << 10);
        }
    }
    mask
}

/// A device of a mounted filesystem, as its enumeration reports it.
#[derive(Debug)]
pub struct DevInfo {
    pub idx: u32,
    pub dev: String,
    pub label: Option<String>,
    pub durability: u32,
}

/// The first device in `devs` with member index `idx`, if any.
pub fn find_dev(devs: &Vec<DevInfo>, idx: u32) -> (r: Option<usize>)
    ensures
        r matches Some(i) ==> i < devs@.len() && devs@[i as int].idx == idx && forall|k: int|
            0 <= k < i ==> devs@[k].idx != idx,
        r is None ==> forall|k: int| 0 <= k < devs@.len() ==> devs@[k].idx != idx,
{
    let mut i: usize = 0;
    while i < devs.len()
        invariant
            i <= devs@.len(),
            forall|k: int| 0 <= k < i ==> devs@[k].idx != idx,
        decreases devs@.len() - i,
    {
        if devs[i].idx == idx {
            return Some(i);
        }
        i = i + 1;
    }
    None
}

/// One replica entry of the legacy usage response.
#[derive(Debug, PartialEq, Eq)]
pub struct ReplicaEntry {
    pub sectors: i64,
    pub data_type: u8,
    pub nr_devs: u8,
    pub nr_required: u8,
    pub devs: Vec<u8>,
}

/// The mathematical value of a replica entry.
pub struct ReplicaEntryView {
    pub sectors: i64,
    pub data_type: u8,
    pub nr_devs: u8,
    pub nr_required: u8,
    pub devs: Seq<u8>,
}

impl View for ReplicaEntry {
    type V = ReplicaEntryView;

    open spec fn view(&self) -> ReplicaEntryView {
        ReplicaEntryView {
            sectors: self.sectors,
            data_type: self.data_type,
            nr_devs: self.nr_devs,
            nr_required: self.nr_required,
            devs: self.devs@,
        }
    }
}

/// The values of a sequence of replica entries.
pub open spec fn replica_entries_view(s: Seq<ReplicaEntry>) -> Seq<ReplicaEntryView> {
    s.map_values(|e: ReplicaEntry| e@)
}

/// Byte length of a replica entry's fixed part: a signed 8-byte sector count,
/// then the data type, the device count, and the required count.
pub const REPLICA_ENTRY_HDR_LEN: usize = 11;

/// One replica entry decoded from its packed bytes.
pub open spec fn spec_parse_replica_entry(s: Seq<u8>) -> ReplicaEntryView
    recommends
        s.len() >= REPLICA_ENTRY_HDR_LEN,
{
    ReplicaEntryView {
        sectors: spec_u64_from_le_bytes(s.subrange(0, 8)) as i64,
        data_type: s[8],
        nr_devs: s[9],
        nr_required: s[10],
        devs: s.subrange(11, s.len() as int),
    }
}

/// The replica entries of a packed region.  Entries follow each other without
/// alignment; a fixed part that does not fit, or a device list running past
/// the region, ends decoding with what was parsed so far.
pub open spec fn spec_replica_entries(data: Seq<u8>) -> Seq<ReplicaEntryView>
    decreases data.len(),
{
    if data.len() < REPLICA_ENTRY_HDR_LEN {
        Seq::empty()
    } else {
        let entry_len = REPLICA_ENTRY_HDR_LEN + data[9] as int;
        if entry_len > data.len() {
            Seq::empty()
        } else {
            seq![spec_parse_replica_entry(data.subrange(0, entry_len))] + spec_replica_entries(
                data.skip(entry_len),
            )
        }
    }
}

/// Decode the packed replica entries of the legacy usage response.
pub fn parse_replica_entries(data: &Vec<u8>) -> (r: Vec<ReplicaEntry>)
    ensures
        replica_entries_view(r@) == spec_replica_entries(data@),
{
    let mut entries: Vec<ReplicaEntry> = Vec::new();
    let len = data.len();
    let mut offset: usize = 0;
    proof {
        assert(data@.skip(0) =~= data@);
        assert(replica_entries_view(entries@) =~= Seq::<ReplicaEntryView>::empty());
    }
    while offset < len
        invariant
            offset <= len,
            len == data@.len(),
            spec_replica_entries(data@) == replica_entries_view(entries@) + spec_replica_entries(
                data@.skip(offset as int),
            ),
        decreases len - offset,
    {
        let ghost tail = data@.skip(offset as int);
        let ghost pre = replica_entries_view(entries@);
        if len - offset < REPLICA_ENTRY_HDR_LEN {
            proof {
                assert(spec_replica_entries(tail) =~= Seq::empty());
                assert(pre + Seq::<ReplicaEntryView>::empty() =~= pre);
                assert(data@.skip(len as int).len() == 0);
                assert(spec_replica_entries(data@.skip(len as int)) =~= Seq::empty());
            }
            offset = len;
        } else {
            let nr_devs = read_u8(data, offset + 9) as usize;
            let entry_len = REPLICA_ENTRY_HDR_LEN + nr_devs;
            if entry_len > len - offset {
                proof {
                    assert(tail[9] == data@[offset + 9]);
                    assert(spec_replica_entries(tail) =~= Seq::empty());
                    assert(pre + Seq::<ReplicaEntryView>::empty() =~= pre);
                    assert(data@.skip(len as int).len() == 0);
                    assert(spec_replica_entries(data@.skip(len as int)) =~= Seq::empty());
                }
                offset = len;
            } else {
                let sectors = read_u64_le(data, offset) as i64;
                let entry = ReplicaEntry {
                    sectors,
                    data_type: read_u8(data, offset + 8),
                    nr_devs: read_u8(data, offset + 9),
                    nr_required: read_u8(data, offset + 10),
                    devs: slice_to_vec(
                        slice_subrange(data.as_slice(), offset + 11, offset + entry_len),
                    ),
                };
                proof {
                    assert(tail[9] == data@[offset + 9]);
                    assert(tail.subrange(0, entry_len as int) =~= data@.subrange(
                        offset as int,
                        offset + entry_len,
                    ));
                    assert(tail.subrange(0, entry_len as int).subrange(0, 8) =~= data@.subrange(
                        offset as int,
                        offset + 8,
                    ));
                    assert(tail.subrange(0, entry_len as int).subrange(11, entry_len as int)
                        =~= data@.subrange(offset + 11, offset + entry_len));
                }
                entries.push(entry);
                proof {
                    let first = spec_parse_replica_entry(tail.subrange(0, entry_len as int));
                    assert(spec_replica_entries(tail) == seq![first] + spec_replica_entries(
                        tail.skip(entry_len as int),
                    ));
                    assert(tail.skip(entry_len as int) =~= data@.skip(offset + entry_len));
                    assert(replica_entries_view(entries@) =~= pre.push(first));
                    assert(pre.push(first) =~= pre + seq![first]);
                    assert(pre + (seq![first] + spec_replica_entries(
                        data@.skip(offset + entry_len),
                    )) =~= (pre + seq![first]) + spec_replica_entries(
                        data@.skip(offset + entry_len),
                    ));
                }
                offset = offset + entry_len;
            }
        }
    }
    proof {
        assert(data@.skip(len as int).len() == 0);
        assert(spec_replica_entries(data@.skip(len as int)) =~= Seq::empty());
        assert(replica_entries_view(entries@) + Seq::<ReplicaEntryView>::empty()
            =~= replica_entries_view(entries@));
    }
    entries
}

/// Durability of one replica set, and the same less what degraded devices
/// cost.
#[derive(Clone, Copy, Debug, PartialEq, Eq, Structural)]
pub struct DurabilityDegraded {
    pub durability: u32,
    pub minus_degraded: u32,
}

/// The durability of the first device with index `idx`, if the filesystem
/// knows one.
pub open spec fn spec_dev_durability(devs: Seq<DevInfo>, idx: u32) -> Option<u32>
    decreases devs.len(),
{
    if devs.len() == 0 {
        None
    } else if devs[0].idx == idx {
        Some(devs[0].durability)
    } else {
        spec_dev_durability(devs.drop_first(), idx)
    }
}

/// Look up a device's durability by member index.
pub fn dev_durability(devs: &Vec<DevInfo>, idx: u32) -> (r: Option<u32>)
    ensures
        r == spec_dev_durability(devs@, idx),
{
    let len = devs.len();
    let mut i: usize = 0;
    proof {
        assert(devs@.skip(0) =~= devs@);
    }
    while i < len
        invariant
            i <= len,
            len == devs@.len(),
            spec_dev_durability(devs@, idx) == spec_dev_durability(devs@.skip(i as int), idx),
        decreases len - i,
    {
        let ghost tail = devs@.skip(i as int);
        proof {
            assert(tail[0] == devs@[i as int]);
            assert(tail.drop_first() =~= devs@.skip(i + 1));
        }
        if devs[i].idx == idx {
            return Some(devs[i].durability);
        }
        i = i + 1;
    }
    proof {
        assert(devs@.skip(len as int).len() == 0);
    }
    None
}

/// Sum of the device durabilities of a replica set's device list, counting an
/// unknown device as one; saturating.  The second component counts only the
/// unknown — degraded — devices.
pub open spec fn spec_durability_sum(dev_list: Seq<u8>, devs: Seq<DevInfo>) -> (u32, u32)
    decreases dev_list.len(),
{
    if dev_list.len() == 0 {
        (0u32, 0u32)
    } else {
        let (dur, deg) = spec_durability_sum(dev_list.drop_last(), devs);
        let last = dev_list.last();
        let found = spec_dev_durability(devs, last as u32);
        let d = match found {
            Some(x) => x,
            None => 1u32,
        };
        let dur2 = if dur + d <= u32::MAX {
            (dur + d) as u32
        } else {
            u32::MAX
        };
        let deg2 = if found is None {
            if deg + d <= u32::MAX {
                (deg + d) as u32
            } else {
                u32::MAX
            }
        } else {
            deg
        };
        (dur2, deg2)
    }
}

/// How durable one replica set is: the summed durability of its devices — or,
/// when more than one copy is required, the number of copies beyond the
/// requirement plus one — and the same less the durability on devices the
/// filesystem no longer knows.
pub fn replicas_durability(
    data_type: u8,
    nr_devs: u8,
    nr_required: u8,
    dev_list: &Vec<u8>,
    devs: &Vec<DevInfo>,
) -> (r: DurabilityDegraded)
    requires
        nr_required > 1 ==> nr_required <= nr_devs,
    ensures
        nr_required > 1 ==> r.durability == nr_devs - nr_required + 1,
        nr_required <= 1 ==> r.durability == spec_durability_sum(dev_list@, devs@).0,
        r.minus_degraded == if r.durability >= spec_durability_sum(dev_list@, devs@).1 {
            (r.durability - spec_durability_sum(dev_list@, devs@).1) as u32
        } else {
            0u32
        },
{
    let mut durability: u32 = 0;
    let mut degraded: u32 = 0;
    let mut i: usize = 0;
    while i < dev_list.len()
        invariant
            i <= dev_list@.len(),
            (durability, degraded) == spec_durability_sum(dev_list@.take(i as int), devs@),
        decreases dev_list@.len() - i,
    {
        let ghost pre = dev_list@.take(i as int);
        let this_durability: u32 = match dev_durability(devs, dev_list[i] as u32) {
            Some(d) => d,
            None => {
                let d: u32 = 1;
                if degraded <= u32::MAX - d {
                    degraded = degraded + d;
                } else {
                    degraded = u32::MAX;
                }
                d
            },
        };
        if durability <= u32::MAX - this_durability {
            durability = durability + this_durability;
        } else {
            durability = u32::MAX;
        }
        proof {
            assert(dev_list@.take(i + 1).drop_last() =~= pre);
            assert(dev_list@.take(i + 1).last() == dev_list@[i as int]);
        }
        i = i + 1;
    }
    proof {
        assert(dev_list@.take(dev_list@.len() as int) =~= dev_list@);
    }
    if nr_required > 1 {
        durability = (nr_devs - nr_required) as u32 + 1;
    }
    let minus_degraded = if durability >= degraded {
        durability - degraded
    } else {
        0
    };
    DurabilityDegraded { durability, minus_degraded }
}

/// The pending-departure sectors of one device: the first counter of the
/// first device-leaving entry naming it, zero when none does.
pub open spec fn spec_dev_leaving(entries: Seq<AccountingEntryView>, dev_idx: u32) -> u64
    decreases entries.len(),
{
    if entries.len() == 0 {
        0u64
    } else {
        match entries[0].pos {
            AccountingPosView::DevLeaving { dev } => {
                if dev == dev_idx {
                    if entries[0].counters.len() > 0 {
                        entries[0].counters[0]
                    } else {
                        0u64
                    }
                } else {
                    spec_dev_leaving(entries.drop_first(), dev_idx)
                }
            },
            _ => spec_dev_leaving(entries.drop_first(), dev_idx),
        }
    }
}

/// Find the pending-departure sectors of a device among accounting entries.
pub fn dev_leaving_sectors(entries: &Vec<AccountingEntry>, dev_idx: u32) -> (r: u64)
    ensures
        r == spec_dev_leaving(entries_view(entries@), dev_idx),
{
    let len = entries.len();
    let mut i: usize = 0;
    proof {
        assert(entries_view(entries@).skip(0) =~= entries_view(entries@));
    }
    while i < len
        invariant
            i <= len,
            len == entries@.len(),
            spec_dev_leaving(entries_view(entries@), dev_idx) == spec_dev_leaving(
                entries_view(entries@).skip(i as int),
                dev_idx,
            ),
        decreases len - i,
    {
        let ghost tail = entries_view(entries@).skip(i as int);
        proof {
            assert(tail[0] == entries_view(entries@)[i as int]);
            assert(tail.drop_first() =~= entries_view(entries@).skip(i + 1));
        }
        match &entries[i].pos {
            DiskAccountingPos::DevLeaving { dev } => {
                if *dev == dev_idx {
                    return entries[i].counter(0);
                }
            },
            _ => {},
        }
        i = i + 1;
    }
    proof {
        assert(entries_view(entries@).skip(len as int).len() == 0);
    }
    0
}

/// How many replica-entry bytes a legacy usage response carries: the count
/// its header reports, clipped to what the buffer really holds after the
/// header.
pub open spec fn spec_v0_region_len(resp: Seq<u8>) -> int
    recommends
        resp.len() >= FS_USAGE_V0_HDR_LEN,
{
    let reported = spec_u32_from_le_bytes(resp.subrange(56, 60)) as int;
    if reported <= resp.len() - FS_USAGE_V0_HDR_LEN {
        reported
    } else {
        resp.len() - FS_USAGE_V0_HDR_LEN
    }
}

/// The legacy usage response's totals and entries.
#[derive(Debug, PartialEq, Eq)]
pub struct FsUsageV0 {
    pub capacity: u64,
    pub used: u64,
    pub online_reserved: u64,
    /// Reserved sectors by replica count, one slot per count up to four.
    pub persistent_reserved: Vec<u64>,
    pub replica_entries: Vec<ReplicaEntry>,
}

/// Byte length of the legacy usage response's fixed header.
pub const FS_USAGE_V0_HDR_LEN: usize = 64;

/// Opcode of the legacy usage request.
pub const OP_FS_USAGE_V0: u8 = 11;

impl<P: ControlPort> BcachefsHandle<P> {
    /// The legacy whole-filesystem usage request.  The peer does not report
    /// how much room the replica-entry area needs, so on a range error the
    /// offered byte size doubles, at most `max_retries` times and never
    /// beyond `max_bytes`.
    pub fn query_fs_usage_v0(&mut self, hint_bytes: u32, max_bytes: u32, max_retries: u32) -> (r:
        Result<FsUsageV0, ErrorKind>)
        requires
            0 < hint_bytes <= max_bytes,
            FS_USAGE_V0_HDR_LEN + max_bytes <= usize::MAX,
        ensures
            r matches Ok(u) ==> exists|resp: Seq<u8>|
                {
                    &&& resp.len() >= FS_USAGE_V0_HDR_LEN
                    &&& u.capacity == spec_u64_from_le_bytes(resp.subrange(0, 8))
                    &&& u.used == spec_u64_from_le_bytes(resp.subrange(8, 16))
                    &&& u.online_reserved == spec_u64_from_le_bytes(resp.subrange(16, 24))
                    &&& u.persistent_reserved@.len() == 4
                    &&& forall|k: int|
                        0 <= k < 4 ==> u.persistent_reserved@[k] == spec_u64_from_le_bytes(
                            resp.subrange(24 + 8 * k, 32 + 8 * k),
                        )
                    &&& replica_entries_view(u.replica_entries@) == spec_replica_entries(
                        resp.subrange(
                            FS_USAGE_V0_HDR_LEN as int,
                            FS_USAGE_V0_HDR_LEN + spec_v0_region_len(resp),
                        ),
                    )
                },
    {
        let mut entry_bytes = hint_bytes;
        let mut retries_left = max_retries;
        loop
            invariant
                0 < entry_bytes <= max_bytes,
                FS_USAGE_V0_HDR_LEN + max_bytes <= usize::MAX,
            decreases retries_left,
        {
            let mut payload: Vec<u8> = vec![0u8; FS_USAGE_V0_HDR_LEN + entry_bytes as usize];
            write_u32_le(&mut payload, 56, entry_bytes);
            let req = ControlRequest {
                direction: Direction::ReadWrite,
                opcode: OP_FS_USAGE_V0,
                payload_size: FS_USAGE_V0_HDR_LEN,
            };
            match send(&mut self.port, &req, &mut payload) {
                Ok(()) => {
                    if payload.len() < FS_USAGE_V0_HDR_LEN {
                        return Err(ErrorKind::Truncated);
                    }
                    let capacity = read_u64_le(&payload, 0);
                    let used = read_u64_le(&payload, 8);
                    let online_reserved = read_u64_le(&payload, 16);
                    let mut persistent_reserved: Vec<u64> = Vec::new();
                    let mut k: usize = 0;
                    while k < 4
                        invariant
                            k <= 4,
                            payload@.len() >= FS_USAGE_V0_HDR_LEN,
                            persistent_reserved@.len() == k,
                            forall|j: int|
                                0 <= j < k ==> persistent_reserved@[j] == spec_u64_from_le_bytes(
                                    payload@.subrange(24 + 8 * j, 32 + 8 * j),
                                ),
                        decreases 4 - k,
                    {
                        persistent_reserved.push(read_u64_le(&payload, 24 + 8 * k));
                        k = k + 1;
                    }
                    let payload_len = payload.len();
                    let reported = read_u32_le(&payload, 56) as usize;
                    let region_len = if reported <= payload_len - FS_USAGE_V0_HDR_LEN {
                        reported
                    } else {
                        payload_len - FS_USAGE_V0_HDR_LEN
                    };
                    let region = slice_to_vec(
                        slice_subrange(
                            payload.as_slice(),
                            FS_USAGE_V0_HDR_LEN,
                            FS_USAGE_V0_HDR_LEN + region_len,
                        ),
                    );
                    assert(region@ =~= payload@.subrange(
                        FS_USAGE_V0_HDR_LEN as int,
                        FS_USAGE_V0_HDR_LEN + spec_v0_region_len(payload@),
                    ));
                    let replica_entries = parse_replica_entries(&region);
                    return Ok(
                        FsUsageV0 {
                            capacity,
                            used,
                            online_reserved,
                            persistent_reserved,
                            replica_entries,
                        },
                    );
                },
                Err(ErrorKind::RangeTooSmall) => {
                    if retries_left == 0 || entry_bytes == max_bytes {
                        return Err(ErrorKind::RangeTooSmall);
                    }
                    entry_bytes = if entry_bytes <= max_bytes / 2 {
                        entry_bytes * 2
                    } else {
                        max_bytes
                    };
                    retries_left = retries_left - 1;
                },
                Err(e) => {
                    return Err(e);
                },
            }
        }
    }
}

} // verus!
