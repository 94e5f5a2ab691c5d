//! The device administration commands.
//!
//! Each command's decisions — which force flags an option selects, how a
//! state name or a size string parses, how a new size converts to buckets —
//! are exact functions here; opening the device and rendering the outcome
//! stay with the caller, which hands in an open handle and the parsed
//! options.

use crate::error::{ErrorKind, QueryError, INVALID_ARG_ERRNO};
use crate::handle::{
    BcachefsHandle, DevUsage, BCH_FORCE_IF_DATA_LOST, BCH_FORCE_IF_DEGRADED,
    BCH_FORCE_IF_METADATA_LOST,
};
use crate::port::ControlPort;
use vstd::prelude::*;
use vstd::utf8::encode_utf8;

verus! {

// Member states a device can be set to.
pub const MEMBER_STATE_RW: u8 = 0;

pub const MEMBER_STATE_RO: u8 = 1;

pub const MEMBER_STATE_EVACUATING: u8 = 2;

pub const MEMBER_STATE_SPARE: u8 = 3;

/// Options of the online command.
#[derive(Debug)]
pub struct OnlineCli {
    /// Device path.
    pub device: String,
}

/// Options of the offline command.
#[derive(Debug)]
pub struct OfflineCli {
    /// Force, if data redundancy will be degraded.
    pub force: bool,
    /// Device path.
    pub device: String,
}

/// Options of the remove command.
#[derive(Debug)]
pub struct RemoveCli {
    /// Force removal, even if some data could not be migrated.
    pub force: bool,
    /// Force removal, even if some metadata could not be migrated.
    pub force_metadata: bool,
    /// Device path or numeric device index.
    pub device: String,
    /// Filesystem path, required when the device is given by index.
    pub path: Option<String>,
}

/// Options of the set-state command.
#[derive(Debug)]
pub struct SetStateCli {
    /// Force if data redundancy will be degraded.
    pub force: bool,
    /// Force even if data will be lost.
    pub force_if_data_lost: bool,
    /// The wanted state's name.
    pub new_state: String,
    /// Device path or numeric device index.
    pub device: String,
    /// Filesystem path, required when the device is given by index.
    pub path: Option<String>,
}

/// Options of the resize command.
#[derive(Debug)]
pub struct ResizeCli {
    /// Device path.
    pub device: String,
    /// New size; the device's own size when absent.
    pub size: Option<String>,
}

/// Options of the journal-resize command.
#[derive(Debug)]
pub struct ResizeJournalCli {
    /// Device path.
    pub device: String,
    /// New journal size.
    pub size: String,
}

/// Options of the evacuate command.
#[derive(Debug)]
pub struct EvacuateCli {
    /// Device path.
    pub device: String,
}

/// The force flags the offline command sends.
pub open spec fn spec_offline_flags(force: bool) -> u32 {
    if force {
        BCH_FORCE_IF_DEGRADED
    } else {
        0u32
    }
}

/// The force flags the remove command sends: removal always tolerates
/// degradation; data or metadata loss each take their own option.
pub open spec fn spec_remove_flags(force: bool, force_metadata: bool) -> u32 {
    BCH_FORCE_IF_DEGRADED | (if force {
        BCH_FORCE_IF_DATA_LOST
    } else {
        0u32
    }) | (if force_metadata {
        BCH_FORCE_IF_METADATA_LOST
    } else {
        0u32
    })
}

/// The force flags the set-state command sends.
pub open spec fn spec_set_state_flags(force: bool, force_if_data_lost: bool) -> u32 {
    (if force {
        BCH_FORCE_IF_DEGRADED
    } else {
        0u32
    }) | (if force_if_data_lost {
        BCH_FORCE_IF_DEGRADED | BCH_FORCE_IF_DATA_LOST | BCH_FORCE_IF_METADATA_LOST
    } else {
        0u32
    })
}

/// The force flags the offline command sends.
pub fn offline_flags(force: bool) -> (r: u32)
    ensures
        r == spec_offline_flags(force),
{
    if force {
        BCH_FORCE_IF_DEGRADED
    } else {
        0
    }
}

/// The force flags the remove command sends.
pub fn remove_flags(force: bool, force_metadata: bool) -> (r: u32)
    ensures
        r == spec_remove_flags(force, force_metadata),
{
    BCH_FORCE_IF_DEGRADED | (if force {
        BCH_FORCE_IF_DATA_LOST
    } else {
        0u32
    }) | (if force_metadata {
        BCH_FORCE_IF_METADATA_LOST
    } else {
        0u32
    })
}

/// The force flags the set-state command sends.
pub fn set_state_flags(force: bool, force_if_data_lost: bool) -> (r: u32)
    ensures
        r == spec_set_state_flags(force, force_if_data_lost),
{
    (if force {
        BCH_FORCE_IF_DEGRADED
    } else {
        0u32
    }) | (if force_if_data_lost {
        BCH_FORCE_IF_DEGRADED | BCH_FORCE_IF_DATA_LOST | BCH_FORCE_IF_METADATA_LOST
    } else {
        0u32
    })
}

/// A member state by its name.
pub open spec fn spec_member_state(s: Seq<char>) -> Option<u8> {
    if s == "rw"@ {
        Some(MEMBER_STATE_RW)
    } else if s == "ro"@ {
        Some(MEMBER_STATE_RO)
    } else if s == "evacuating"@ {
        Some(MEMBER_STATE_EVACUATING)
    } else if s == "spare"@ {
        Some(MEMBER_STATE_SPARE)
    } else {
        None
    }
}

/// Parse a member state's name; `None` is an unknown name.
pub fn parse_member_state(s: &String) -> (r: Option<u8>)
    ensures
        r == spec_member_state(s@),
{
    if s.eq(&String::from_str("rw")) {
        Some(MEMBER_STATE_RW)
    } else if s.eq(&String::from_str("ro")) {
        Some(MEMBER_STATE_RO)
    } else if s.eq(&String::from_str("evacuating")) {
        Some(MEMBER_STATE_EVACUATING)
    } else if s.eq(&String::from_str("spare")) {
        Some(MEMBER_STATE_SPARE)
    } else {
        None
    }
}

/// The value of a decimal digit character, zero for anything else.
pub open spec fn spec_digit_val(c: char) -> nat {
    if '0' <= c <= '9' {
        (c as nat - 48) as nat
    } else {
        0
    }
}

/// Every character is a decimal digit.
pub open spec fn spec_all_digits(s: Seq<char>) -> bool {
    forall|k: int| 0 <= k < s.len() ==> '0' <= #[trigger] s[k] <= '9'
}

/// The value of a decimal digit string.
pub open spec fn spec_dec_val(s: Seq<char>) -> nat
    decreases s.len(),
{
    if s.len() == 0 {
        0
    } else {
        spec_dec_val(s.drop_last()) * 10 + spec_digit_val(s.last())
    }
}

/// The power-of-two shift a size suffix stands for, if the character is one.
pub open spec fn spec_size_shift(c: char) -> Option<u64> {
    if c == 'k' || c == 'K' {
        Some(10u64)
    } else if c == 'm' || c == 'M' {
        Some(20u64)
    } else if c == 'g' || c == 'G' {
        Some(30u64)
    } else if c == 't' || c == 'T' {
        Some(40u64)
    } else if c == 'p' || c == 'P' {
        Some(50u64)
    } else if c == 'e' || c == 'E' {
        Some(60u64)
    } else {
        None
    }
}

/// The digit part of a size string: everything before a unit suffix.
pub open spec fn spec_size_digits(s: Seq<char>) -> Seq<char> {
    if s.len() > 0 && spec_size_shift(s.last()) is Some {
        s.drop_last()
    } else {
        s
    }
}

/// The shift of a size string's unit suffix, zero without one.
pub open spec fn spec_size_shift_of(s: Seq<char>) -> u64 {
    if s.len() > 0 && spec_size_shift(s.last()) is Some {
        spec_size_shift(s.last()).unwrap()
    } else {
        0u64
    }
}

/// The byte count a human-readable size string stands for: decimal digits,
/// then at most one binary-unit suffix.  `None` is a malformed string or a
/// value beyond 64 bits.
pub open spec fn spec_human_size(s: Seq<char>) -> Option<u64> {
    let digits = spec_size_digits(s);
    let shift = spec_size_shift_of(s);
    if digits.len() == 0 || !spec_all_digits(digits) {
        None
    } else if spec_dec_val(digits) * (1u64 << shift) > u64::MAX {
        None
    } else {
        Some((spec_dec_val(digits) * (1u64 << shift)) as u64)
    }
}

/// A longer digit string never stands for a smaller value.
pub proof fn lemma_dec_val_prefix(s: Seq<char>, j: int)
    requires
        0 <= j <= s.len(),
    ensures
        spec_dec_val(s.take(j)) <= spec_dec_val(s),
    decreases s.len() - j,
{
    if j == s.len() {
        assert(s.take(j) =~= s);
    } else {
        lemma_dec_val_prefix(s, j + 1);
        assert(s.take(j + 1).drop_last() =~= s.take(j));
        assert(spec_dec_val(s.take(j + 1)) == spec_dec_val(s.take(j)) * 10 + spec_digit_val(
            s.take(j + 1).last(),
        ));
    }
}

/// Parse a size such as a count of bytes with a binary-unit suffix.
pub fn parse_human_size(s: &String) -> (r: Option<u64>)
    ensures
        r == spec_human_size(s@),
{
    let n = s.as_str().unicode_len();
    if n == 0 {
        return None;
    }
    let last = s.as_str().get_char(n - 1);
    let (digits_len, shift): (usize, u64) = match size_shift(last) {
        Some(sh) => ((n - 1) as usize, sh),
        None => (n, 0u64),
    };
    proof {
        if digits_len < n {
            assert(s@.take(digits_len as int) =~= s@.drop_last());
        } else {
            assert(s@.take(digits_len as int) =~= s@);
        }
    }
    if digits_len == 0 {
        return None;
    }
    let mut value: u64 = 0;
    let mut i: usize = 0;
    while i < digits_len
        invariant
            i <= digits_len,
            digits_len <= s@.len(),
            s@.take(digits_len as int) == spec_size_digits(s@),
            shift == spec_size_shift_of(s@),
            value == spec_dec_val(s@.take(i as int)),
            spec_all_digits(s@.take(i as int)),
        decreases digits_len - i,
    {
        let c = s.as_str().get_char(i);
        if c < '0' || c > '9' {
            proof {
                assert(spec_size_digits(s@)[i as int] == c);
                assert(!spec_all_digits(spec_size_digits(s@)));
            }
            return None;
        }
        let d = (c as u32 - 48) as u64;
        let next = match value.checked_mul(10) {
            Some(v10) => v10.checked_add(d),
            None => None,
        };
        match next {
            Some(v) => {
                value = v;
                proof {
                    assert(s@.take(i + 1).drop_last() =~= s@.take(i as int));
                    assert(s@.take(i + 1).last() == s@[i as int]);
                    assert(forall|k: int|
                        0 <= k < i + 1 ==> '0' <= #[trigger] s@.take(i + 1)[k] <= '9');
                }
            },
            None => {
                proof {
                    lemma_dec_val_prefix(s@.take(digits_len as int), i + 1);
                    assert(s@.take(digits_len as int).take(i + 1) =~= s@.take(i + 1));
                    assert(s@.take(i + 1).drop_last() =~= s@.take(i as int));
                    assert(s@.take(i + 1).last() == s@[i as int]);
                    assert(spec_dec_val(s@.take(i + 1)) == value * 10 + d);
                    lemma_shift_at_least_one(shift);
                    vstd::arithmetic::mul::lemma_mul_inequality(
                        1,
                        (1u64 << shift) as int,
                        spec_dec_val(s@.take(digits_len as int)) as int,
                    );
                    vstd::arithmetic::mul::lemma_mul_is_commutative(
                        (1u64 << shift) as int,
                        spec_dec_val(s@.take(digits_len as int)) as int,
                    );
                }
                return None;
            },
        }
        i = i + 1;
    }
    if shift == 0 {
        proof {
            assert((1u64 << 0u64) == 1) by (bit_vector);
        }
        return Some(value);
    }
    let unit: u64 = 1u64 << shift;
    proof {
        lemma_shift_at_least_one(shift);
    }
    match value.checked_mul(unit) {
        Some(v) => Some(v),
        None => None,
    }
}

/// A left shift of at most sixty-three places is at least one.
proof fn lemma_shift_at_least_one(shift: u64)
    requires
        shift == 0 || shift == 10 || shift == 20 || shift == 30 || shift == 40 || shift == 50
            || shift == 60,
    ensures
        1u64 <= (1u64 << shift),
{
    assert((shift == 0 || shift == 10 || shift == 20 || shift == 30 || shift == 40 || shift == 50
        || shift == 60) ==> 1u64 <= (1u64 << shift)) by (bit_vector);
}

/// The shift a size suffix stands for.
pub fn size_shift(c: char) -> (r: Option<u64>)
    ensures
        r == spec_size_shift(c),
{
    if c == 'k' || c == 'K' {
        Some(10u64)
    } else if c == 'm' || c == 'M' {
        Some(20u64)
    } else if c == 'g' || c == 'G' {
        Some(30u64)
    } else if c == 't' || c == 'T' {
        Some(40u64)
    } else if c == 'p' || c == 'P' {
        Some(50u64)
    } else if c == 'e' || c == 'E' {
        Some(60u64)
    } else {
        None
    }
}

/// A path as the peer wants it: its bytes with a terminating zero, or `None`
/// when the text itself holds a zero byte.
pub fn string_to_cpath(s: &String) -> (r: Option<Vec<u8>>)
    ensures
        r matches Some(p) ==> p@ == encode_utf8(s@).push(0u8) && p@.len() > 0 && p@[p@.len() - 1]
            == 0,
{
    let mut bytes = s.as_str().as_bytes_vec();
    let mut i: usize = 0;
    while i < bytes.len()
        invariant
            i <= bytes@.len(),
            bytes@ == encode_utf8(s@),
            forall|k: int| 0 <= k < i ==> bytes@[k] != 0,
        decreases bytes@.len() - i,
    {
        if bytes[i] == 0 {
            return None;
        }
        i = i + 1;
    }
    bytes.push(0u8);
    Some(bytes)
}

/// Re-add a device to a running filesystem.
pub fn cmd_device_online<P: ControlPort>(
    handle: &mut BcachefsHandle<P>,
    cli: &OnlineCli,
) -> (r: Result<(), QueryError>)
    ensures
        r matches Err(e) ==> e.kind == crate::error::spec_classify(e.kind.spec_errno())
            && e.kind.spec_errno() != 0,
{
    match string_to_cpath(&cli.device) {
        Some(path) => handle.disk_online(&path),
        None => Err(QueryError::bare(ErrorKind::System(INVALID_ARG_ERRNO))),
    }
}

/// Take a device offline, without removing it.
pub fn cmd_device_offline<P: ControlPort>(
    handle: &mut BcachefsHandle<P>,
    cli: &OfflineCli,
    dev_idx: u32,
) -> (r: Result<(), QueryError>)
    ensures
        r matches Err(e) ==> e.kind == crate::error::spec_classify(e.kind.spec_errno())
            && e.kind.spec_errno() != 0,
{
    handle.disk_offline(dev_idx, offline_flags(cli.force))
}

/// Remove a device from a filesystem.
pub fn cmd_device_remove<P: ControlPort>(
    handle: &mut BcachefsHandle<P>,
    cli: &RemoveCli,
    dev_idx: u32,
) -> (r: Result<(), QueryError>)
    ensures
        r matches Err(e) ==> e.kind == crate::error::spec_classify(e.kind.spec_errno())
            && e.kind.spec_errno() != 0,
{
    handle.disk_remove(dev_idx, remove_flags(cli.force, cli.force_metadata))
}

/// Change the state of a device.  An unknown state name is rejected before
/// anything is sent.
pub fn cmd_device_set_state<P: ControlPort>(
    handle: &mut BcachefsHandle<P>,
    cli: &SetStateCli,
    dev_idx: u32,
) -> (r: Result<(), QueryError>)
    ensures
        spec_member_state(cli.new_state@) is None ==> (r matches Err(e) && e.kind
            == ErrorKind::System(INVALID_ARG_ERRNO)),
        r matches Err(e) ==> e.kind == crate::error::spec_classify(e.kind.spec_errno())
            && e.kind.spec_errno() != 0,
{
    let new_state = match parse_member_state(&cli.new_state) {
        Some(st) => st,
        None => {
            return Err(QueryError::bare(ErrorKind::System(INVALID_ARG_ERRNO)));
        },
    };
    handle.disk_set_state(dev_idx, new_state, set_state_flags(cli.force, cli.force_if_data_lost))
}

/// The bucket count a byte size stands for on a device.
pub fn resize_nbuckets(size_bytes: u64, bucket_size: u32) -> (r: u64)
    requires
        bucket_size > 0,
    ensures
        r == (size_bytes >> 9u64) / bucket_size as u64,
{
    (size_bytes >> 9) / (bucket_size as u64)
}

/// Resize the filesystem's share of a device to `size_bytes`.  The size
/// converts to buckets at the device's bucket size; shrinking is not
/// supported and is rejected without sending anything, as is a reported
/// bucket size of zero.
pub fn cmd_device_resize<P: ControlPort>(
    handle: &mut BcachefsHandle<P>,
    dev_idx: u32,
    size_bytes: u64,
) -> (r: Result<u64, QueryError>)
    ensures
        r matches Err(e) ==> forall|k: int| 0 <= k < e.message@.len() ==> e.message@[k] != 0,
{
    let usage = match handle.dev_usage(dev_idx) {
        Ok(u) => u,
        Err(e) => {
            return Err(QueryError::bare(e));
        },
    };
    if usage.bucket_size == 0 {
        return Err(QueryError::bare(ErrorKind::System(INVALID_ARG_ERRNO)));
    }
    let nbuckets = resize_nbuckets(size_bytes, usage.bucket_size);
    if nbuckets < usage.nr_buckets {
        return Err(QueryError::bare(ErrorKind::System(INVALID_ARG_ERRNO)));
    }
    match handle.disk_resize(dev_idx, nbuckets) {
        Ok(()) => Ok(nbuckets),
        Err(e) => Err(e),
    }
}

/// Resize the journal on a device to `size_bytes`, converted to buckets at
/// the device's bucket size.
pub fn cmd_device_resize_journal<P: ControlPort>(
    handle: &mut BcachefsHandle<P>,
    dev_idx: u32,
    size_bytes: u64,
) -> (r: Result<u64, QueryError>)
    ensures
        r matches Err(e) ==> forall|k: int| 0 <= k < e.message@.len() ==> e.message@[k] != 0,
{
    let usage = match handle.dev_usage(dev_idx) {
        Ok(u) => u,
        Err(e) => {
            return Err(QueryError::bare(e));
        },
    };
    if usage.bucket_size == 0 {
        return Err(QueryError::bare(ErrorKind::System(INVALID_ARG_ERRNO)));
    }
    let nbuckets = resize_nbuckets(size_bytes, usage.bucket_size);
    match handle.disk_resize_journal(dev_idx, nbuckets) {
        Ok(()) => Ok(nbuckets),
        Err(e) => Err(e),
    }
}

/// The sectors still occupied by user-visible data on a device: every
/// data type that is neither free space nor internal bookkeeping, summed
/// saturating.
pub open spec fn spec_evacuate_data_sectors(types: Seq<crate::handle::DevUsageType>) -> u64
    decreases types.len(),
{
    if types.len() == 0 {
        0u64
    } else {
        let rest = spec_evacuate_data_sectors(types.drop_last());
        let i = types.len() - 1;
        let counted = !crate::accounting::spec_data_type_is_empty(i as u8)
            && !crate::accounting::spec_data_type_is_hidden(i as u8);
        if counted {
            if rest + types.last().sectors <= u64::MAX {
                (rest + types.last().sectors) as u64
            } else {
                u64::MAX
            }
        } else {
            rest
        }
    }
}

/// How much user-visible data still sits on a device, from its usage records.
pub fn evacuate_data_sectors(usage: &DevUsage) -> (r: u64)
    ensures
        r == spec_evacuate_data_sectors(usage.data_types@),
{
    let mut total: u64 = 0;
    let mut i: usize = 0;
    let n = usage.data_types.len();
    while i < n
        invariant
            i <= n,
            n == usage.data_types@.len(),
            total == spec_evacuate_data_sectors(usage.data_types@.take(i as int)),
        decreases n - i,
    {
        proof {
            assert(usage.data_types@.take(i + 1).drop_last() =~= usage.data_types@.take(i as int));
            assert(usage.data_types@.take(i + 1).last() == usage.data_types@[i as int]);
        }
        let counted = !crate::accounting::data_type_is_empty(i as u8)
            && !crate::accounting::data_type_is_hidden(i as u8);
        if counted {
            let s = usage.data_types[i].sectors;
            if total <= u64::MAX - s {
                total = total + s;
            } else {
                total = u64::MAX;
            }
        }
        i = i + 1;
    }
    proof {
        assert(usage.data_types@.take(n as int) =~= usage.data_types@);
    }
    total
}

/// Begin evacuating a device: make it read-only if it is writable, then mark
/// it evacuating.  The caller polls its usage until no counted data remains.
pub fn cmd_device_evacuate_start<P: ControlPort>(
    handle: &mut BcachefsHandle<P>,
    dev_idx: u32,
) -> (r: Result<(), QueryError>)
    ensures
        r matches Err(e) ==> forall|k: int| 0 <= k < e.message@.len() ==> e.message@[k] != 0,
{
    let usage = match handle.dev_usage(dev_idx) {
        Ok(u) => u,
        Err(e) => {
            return Err(QueryError::bare(e));
        },
    };
    if usage.state == MEMBER_STATE_RW {
        match handle.disk_set_state(dev_idx, MEMBER_STATE_RO, BCH_FORCE_IF_DEGRADED) {
            Ok(()) => {},
            Err(e) => {
                return Err(e);
            },
        }
    }
    handle.disk_set_state(dev_idx, MEMBER_STATE_EVACUATING, BCH_FORCE_IF_DEGRADED)
}

} // verus!
