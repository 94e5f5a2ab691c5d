//! The accounting-key codec.
//!
//! An accounting position is a 20-byte composite key: a 4-byte field, an
//! 8-byte field and an 8-byte field laid out back to back.  Under the older
//! transmission convention the whole block travels as one big-endian scalar
//! and must be byte-reversed before decoding; from
//! [`BIG_ENDIAN_ACCOUNTING_VERSION`] on, no reversal is needed.  The reversal
//! is one explicit transform gated on the version, so that after it every
//! multi-byte sub-field reads in the buffer's own order and no per-variant
//! endianness logic exists.  The first byte of the normalized block is a type
//! discriminator; the remaining bytes are variant-specific.

use crate::bytes::{
    read_u32_le, read_u64_le, read_u8, spec_splice, write_bytes, write_u32_le, write_u64_le,
};
use crate::error::ErrorKind;
use crate::flex::{query_flex, FieldRef, FlexLayout};
use crate::handle::BcachefsHandle;
use crate::ioctl::Direction;
use crate::port::{ControlPort, ControlRequest};
use vstd::bytes::{
    lemma_auto_spec_u32_to_from_le_bytes, lemma_auto_spec_u64_to_from_le_bytes,
    spec_u32_from_le_bytes, spec_u32_to_le_bytes, spec_u64_from_le_bytes, spec_u64_to_le_bytes,
};
use vstd::arithmetic::div_mod::lemma_fundamental_div_mod;
use vstd::prelude::*;
use vstd::slice::{slice_subrange, slice_to_vec};

verus! {

/// The protocol generation from which accounting keys arrive in the host's
/// own byte order; before it, the 20-byte key travels big-endian and is
/// reversed as a whole before decoding.
pub const BIG_ENDIAN_ACCOUNTING_VERSION: u64 = 1039;

/// Byte length of an accounting position key.
pub const POS_KEY_LEN: usize = 20;

/// A replicas key names at most this many devices: the discriminator, data
/// type, device count and required count take the first four of the twenty
/// bytes.
pub const REPLICAS_MAX_DEVS: usize = 16;

// The type discriminators, in the protocol's order.
pub const ACC_NR_INODES: u8 = 0;

pub const ACC_PERSISTENT_RESERVED: u8 = 1;

pub const ACC_REPLICAS: u8 = 2;

pub const ACC_DEV_DATA_TYPE: u8 = 3;

pub const ACC_COMPRESSION: u8 = 4;

pub const ACC_SNAPSHOT: u8 = 5;

pub const ACC_BTREE: u8 = 6;

pub const ACC_REBALANCE_WORK: u8 = 7;

pub const ACC_INUM: u8 = 8;

pub const ACC_RECONCILE_WORK: u8 = 9;

pub const ACC_DEV_LEAVING: u8 = 10;

/// A decoded accounting key.
#[derive(Debug, PartialEq, Eq)]
pub enum DiskAccountingPos {
    NrInodes,
    PersistentReserved { nr_replicas: u8 },
    Replicas { data_type: u8, nr_devs: u8, nr_required: u8, devs: Vec<u8> },
    DevDataType { dev: u8, data_type: u8 },
    Compression { compression_type: u8 },
    Snapshot { id: u32 },
    Btree { id: u32 },
    RebalanceWork,
    Inum { inum: u64 },
    ReconcileWork { work_type: u8 },
    DevLeaving { dev: u32 },
    /// An unrecognized discriminator.  Accounting data may hold record kinds
    /// from the future; they must not abort decoding.
    Unknown(u8),
}

/// The mathematical value of a decoded accounting key.
pub enum AccountingPosView {
    NrInodes,
    PersistentReserved { nr_replicas: u8 },
    Replicas { data_type: u8, nr_devs: u8, nr_required: u8, devs: Seq<u8> },
    DevDataType { dev: u8, data_type: u8 },
    Compression { compression_type: u8 },
    Snapshot { id: u32 },
    Btree { id: u32 },
    RebalanceWork,
    Inum { inum: u64 },
    ReconcileWork { work_type: u8 },
    DevLeaving { dev: u32 },
    Unknown(u8),
}

impl View for DiskAccountingPos {
    type V = AccountingPosView;

    open spec fn view(&self) -> AccountingPosView {
        match self {
            DiskAccountingPos::NrInodes => AccountingPosView::NrInodes,
            DiskAccountingPos::PersistentReserved { nr_replicas } => {
                AccountingPosView::PersistentReserved { nr_replicas: *nr_replicas }
            },
            DiskAccountingPos::Replicas { data_type, nr_devs, nr_required, devs } => {
                AccountingPosView::Replicas {
                    data_type: *data_type,
                    nr_devs: *nr_devs,
                    nr_required: *nr_required,
                    devs: devs@,
                }
            },
            DiskAccountingPos::DevDataType { dev, data_type } => {
                AccountingPosView::DevDataType { dev: *dev, data_type: *data_type }
            },
            DiskAccountingPos::Compression { compression_type } => {
                AccountingPosView::Compression { compression_type: *compression_type }
            },
            DiskAccountingPos::Snapshot { id } => AccountingPosView::Snapshot { id: *id },
            DiskAccountingPos::Btree { id } => AccountingPosView::Btree { id: *id },
            DiskAccountingPos::RebalanceWork => AccountingPosView::RebalanceWork,
            DiskAccountingPos::Inum { inum } => AccountingPosView::Inum { inum: *inum },
            DiskAccountingPos::ReconcileWork { work_type } => {
                AccountingPosView::ReconcileWork { work_type: *work_type }
            },
            DiskAccountingPos::DevLeaving { dev } => AccountingPosView::DevLeaving { dev: *dev },
            DiskAccountingPos::Unknown(b) => AccountingPosView::Unknown(*b),
        }
    }
}

/// The byte sequence reversed as a whole.
pub open spec fn spec_reverse(s: Seq<u8>) -> Seq<u8> {
    s.reverse()
}

/// The key block as it is decoded: reversed whole when the version predates
/// the native-order generation, untouched from that generation on.
pub open spec fn spec_normalize_key(raw: Seq<u8>, protocol_version: u64) -> Seq<u8> {
    if protocol_version < BIG_ENDIAN_ACCOUNTING_VERSION {
        spec_reverse(raw)
    } else {
        raw
    }
}

/// Decode a normalized 20-byte key block.  The replicas variant is the one
/// variable-length variant: it claims `nr_devs` device indexes, and the list
/// is clipped to the sixteen bytes the key can hold, so no claimed count
/// reads past the block.
pub open spec fn spec_decode_key(raw: Seq<u8>) -> AccountingPosView
    recommends
        raw.len() == POS_KEY_LEN,
{
    let tag = raw[0];
    if tag == ACC_NR_INODES {
        AccountingPosView::NrInodes
    } else if tag == ACC_PERSISTENT_RESERVED {
        AccountingPosView::PersistentReserved { nr_replicas: raw[1] }
    } else if tag == ACC_REPLICAS {
        let nr_devs = raw[2];
        let n = if nr_devs <= REPLICAS_MAX_DEVS as u8 {
            nr_devs as int
        } else {
            REPLICAS_MAX_DEVS as int
        };
        AccountingPosView::Replicas {
            data_type: raw[1],
            nr_devs,
            nr_required: raw[3],
            devs: raw.subrange(4, 4 + n),
        }
    } else if tag == ACC_DEV_DATA_TYPE {
        AccountingPosView::DevDataType { dev: raw[1], data_type: raw[2] }
    } else if tag == ACC_COMPRESSION {
        AccountingPosView::Compression { compression_type: raw[1] }
    } else if tag == ACC_SNAPSHOT {
        AccountingPosView::Snapshot { id: spec_u32_from_le_bytes(raw.subrange(1, 5)) }
    } else if tag == ACC_BTREE {
        AccountingPosView::Btree { id: spec_u32_from_le_bytes(raw.subrange(1, 5)) }
    } else if tag == ACC_REBALANCE_WORK {
        AccountingPosView::RebalanceWork
    } else if tag == ACC_INUM {
        AccountingPosView::Inum { inum: spec_u64_from_le_bytes(raw.subrange(1, 9)) }
    } else if tag == ACC_RECONCILE_WORK {
        AccountingPosView::ReconcileWork { work_type: raw[1] }
    } else if tag == ACC_DEV_LEAVING {
        AccountingPosView::DevLeaving { dev: spec_u32_from_le_bytes(raw.subrange(1, 5)) }
    } else {
        AccountingPosView::Unknown(tag)
    }
}

/// The decoded value of a raw 20-byte key under a protocol version: normalize
/// first, then decode.  A pure function of its two arguments.
pub open spec fn spec_decode_position(raw: Seq<u8>, protocol_version: u64) -> AccountingPosView {
    spec_decode_key(spec_normalize_key(raw, protocol_version))
}

/// Copy `raw` reversed.
fn reverse_bytes(raw: &Vec<u8>) -> (r: Vec<u8>)
    ensures
        r@ == spec_reverse(raw@),
{
    let len = raw.len();
    let mut r: Vec<u8> = Vec::new();
    let mut i: usize = 0;
    while i < len
        invariant
            i <= len,
            len == raw@.len(),
            r@.len() == i,
            forall|k: int| 0 <= k < i ==> r@[k] == raw@[len - 1 - k],
        decreases len - i,
    {
        r.push(raw[len - 1 - i]);
        i = i + 1;
    }
    assert(r@ =~= spec_reverse(raw@));
    r
}

/// Decode a raw 20-byte accounting key under `protocol_version`.
///
/// The result is a function of the two arguments alone: decoding the same
/// bytes under the same version twice gives the same key.
pub fn decode_position(raw: &Vec<u8>, protocol_version: u64) -> (r: DiskAccountingPos)
    requires
        raw@.len() == POS_KEY_LEN,
    ensures
        r@ == spec_decode_position(raw@, protocol_version),
{
    let norm: Vec<u8> = if protocol_version < BIG_ENDIAN_ACCOUNTING_VERSION {
        reverse_bytes(raw)
    } else {
        slice_to_vec(raw.as_slice())
    };
    let tag = read_u8(&norm, 0);
    if tag == ACC_NR_INODES {
        DiskAccountingPos::NrInodes
    } else if tag == ACC_PERSISTENT_RESERVED {
        DiskAccountingPos::PersistentReserved { nr_replicas: read_u8(&norm, 1) }
    } else if tag == ACC_REPLICAS {
        let nr_devs = read_u8(&norm, 2);
        let n: usize = if nr_devs as usize <= REPLICAS_MAX_DEVS {
            nr_devs as usize
        } else {
            REPLICAS_MAX_DEVS
        };
        DiskAccountingPos::Replicas {
            data_type: read_u8(&norm, 1),
            nr_devs,
            nr_required: read_u8(&norm, 3),
            devs: slice_to_vec(slice_subrange(norm.as_slice(), 4, 4 + n)),
        }
    } else if tag == ACC_DEV_DATA_TYPE {
        DiskAccountingPos::DevDataType { dev: read_u8(&norm, 1), data_type: read_u8(&norm, 2) }
    } else if tag == ACC_COMPRESSION {
        DiskAccountingPos::Compression { compression_type: read_u8(&norm, 1) }
    } else if tag == ACC_SNAPSHOT {
        DiskAccountingPos::Snapshot { id: read_u32_le(&norm, 1) }
    } else if tag == ACC_BTREE {
        DiskAccountingPos::Btree { id: read_u32_le(&norm, 1) }
    } else if tag == ACC_REBALANCE_WORK {
        DiskAccountingPos::RebalanceWork
    } else if tag == ACC_INUM {
        DiskAccountingPos::Inum { inum: read_u64_le(&norm, 1) }
    } else if tag == ACC_RECONCILE_WORK {
        DiskAccountingPos::ReconcileWork { work_type: read_u8(&norm, 1) }
    } else if tag == ACC_DEV_LEAVING {
        DiskAccountingPos::DevLeaving { dev: read_u32_le(&norm, 1) }
    } else {
        DiskAccountingPos::Unknown(tag)
    }
}

/// Decoding is a pure function of the raw bytes and the version: two
/// decodings of identical inputs yield identical keys, which is what
/// `decode_position`'s postcondition pins each call to.
pub proof fn lemma_decode_position_pure(
    raw1: Seq<u8>,
    v1: u64,
    raw2: Seq<u8>,
    v2: u64,
)
    requires
        raw1 == raw2,
        v1 == v2,
    ensures
        spec_decode_position(raw1, v1) == spec_decode_position(raw2, v2),
{
}

/// A key that encoding can reproduce exactly: the field widths fit their
/// places in the 20-byte block, a replicas key lists exactly the devices it
/// claims, and an unknown discriminator is one no variant owns.
pub open spec fn spec_key_valid(p: AccountingPosView) -> bool {
    match p {
        AccountingPosView::Replicas { data_type, nr_devs, nr_required, devs } => {
            devs.len() == nr_devs && nr_devs <= REPLICAS_MAX_DEVS as u8
        },
        AccountingPosView::Unknown(b) => b > ACC_DEV_LEAVING,
        _ => true,
    }
}

/// The 20-byte block that stands for a key, in normalized (native) order:
/// the inverse of decoding's field layout, zero-padded.
pub open spec fn spec_encode_key(p: AccountingPosView) -> Seq<u8>
    recommends
        spec_key_valid(p),
{
    match p {
        AccountingPosView::NrInodes => seq![ACC_NR_INODES] + zero_bytes(19),
        AccountingPosView::PersistentReserved { nr_replicas } => {
            seq![ACC_PERSISTENT_RESERVED, nr_replicas] + zero_bytes(18)
        },
        AccountingPosView::Replicas { data_type, nr_devs, nr_required, devs } => {
            seq![ACC_REPLICAS, data_type, nr_devs, nr_required] + devs + zero_bytes(
                (16 - devs.len()) as nat,
            )
        },
        AccountingPosView::DevDataType { dev, data_type } => {
            seq![ACC_DEV_DATA_TYPE, dev, data_type] + zero_bytes(17)
        },
        AccountingPosView::Compression { compression_type } => {
            seq![ACC_COMPRESSION, compression_type] + zero_bytes(18)
        },
        AccountingPosView::Snapshot { id } => {
            seq![ACC_SNAPSHOT] + spec_u32_to_le_bytes(id) + zero_bytes(15)
        },
        AccountingPosView::Btree { id } => {
            seq![ACC_BTREE] + spec_u32_to_le_bytes(id) + zero_bytes(15)
        },
        AccountingPosView::RebalanceWork => seq![ACC_REBALANCE_WORK] + zero_bytes(19),
        AccountingPosView::Inum { inum } => {
            seq![ACC_INUM] + spec_u64_to_le_bytes(inum) + zero_bytes(11)
        },
        AccountingPosView::ReconcileWork { work_type } => {
            seq![ACC_RECONCILE_WORK, work_type] + zero_bytes(18)
        },
        AccountingPosView::DevLeaving { dev } => {
            seq![ACC_DEV_LEAVING] + spec_u32_to_le_bytes(dev) + zero_bytes(15)
        },
        AccountingPosView::Unknown(b) => seq![b] + zero_bytes(19),
    }
}

/// `n` zero bytes.
pub open spec fn zero_bytes(n: nat) -> Seq<u8> {
    Seq::new(n, |i: int| 0u8)
}

/// The raw block that decodes to `p` under `protocol_version`: the normalized
/// encoding, re-reversed when the version predates the native-order
/// generation.
pub open spec fn spec_encode_position(p: AccountingPosView, protocol_version: u64) -> Seq<u8> {
    spec_normalize_key(spec_encode_key(p), protocol_version)
}

/// Encode a key into the raw 20-byte block that decodes back to it under
/// `protocol_version`.
pub fn encode_position(pos: &DiskAccountingPos, protocol_version: u64) -> (r: Vec<u8>)
    requires
        spec_key_valid(pos@),
    ensures
        r@ == spec_encode_position(pos@, protocol_version),
        r@.len() == POS_KEY_LEN,
{
    let mut out: Vec<u8> = vec![0u8; POS_KEY_LEN];
    match pos {
        DiskAccountingPos::NrInodes => {
            out.set(0, ACC_NR_INODES);
        },
        DiskAccountingPos::PersistentReserved { nr_replicas } => {
            out.set(0, ACC_PERSISTENT_RESERVED);
            out.set(1, *nr_replicas);
        },
        DiskAccountingPos::Replicas { data_type, nr_devs, nr_required, devs } => {
            out.set(0, ACC_REPLICAS);
            out.set(1, *data_type);
            out.set(2, *nr_devs);
            out.set(3, *nr_required);
            write_bytes(&mut out, 4, devs);
        },
        DiskAccountingPos::DevDataType { dev, data_type } => {
            out.set(0, ACC_DEV_DATA_TYPE);
            out.set(1, *dev);
            out.set(2, *data_type);
        },
        DiskAccountingPos::Compression { compression_type } => {
            out.set(0, ACC_COMPRESSION);
            out.set(1, *compression_type);
        },
        DiskAccountingPos::Snapshot { id } => {
            out.set(0, ACC_SNAPSHOT);
            write_u32_le(&mut out, 1, *id);
        },
        DiskAccountingPos::Btree { id } => {
            out.set(0, ACC_BTREE);
            write_u32_le(&mut out, 1, *id);
        },
        DiskAccountingPos::RebalanceWork => {
            out.set(0, ACC_REBALANCE_WORK);
        },
        DiskAccountingPos::Inum { inum } => {
            out.set(0, ACC_INUM);
            write_u64_le(&mut out, 1, *inum);
        },
        DiskAccountingPos::ReconcileWork { work_type } => {
            out.set(0, ACC_RECONCILE_WORK);
            out.set(1, *work_type);
        },
        DiskAccountingPos::DevLeaving { dev } => {
            out.set(0, ACC_DEV_LEAVING);
            write_u32_le(&mut out, 1, *dev);
        },
        DiskAccountingPos::Unknown(b) => {
            out.set(0, *b);
        },
    }
    proof {
        lemma_encode_key_len(pos@);
        assert(out@ =~= spec_encode_key(pos@));
    }
    if protocol_version < BIG_ENDIAN_ACCOUNTING_VERSION {
        reverse_bytes(&out)
    } else {
        out
    }
}

/// Round trip: any valid key, encoded as the raw block of a protocol version
/// and decoded under that same version, reproduces its discriminator and
/// every field.
pub proof fn lemma_position_round_trip(p: AccountingPosView, protocol_version: u64)
    requires
        spec_key_valid(p),
    ensures
        spec_decode_position(spec_encode_position(p, protocol_version), protocol_version) == p,
{
    lemma_auto_spec_u32_to_from_le_bytes();
    lemma_auto_spec_u64_to_from_le_bytes();
    lemma_encode_key_len(p);
    let e = spec_encode_key(p);
    if protocol_version < BIG_ENDIAN_ACCOUNTING_VERSION {
        assert(spec_reverse(spec_reverse(e)) =~= e);
    }
    assert(spec_normalize_key(spec_encode_position(p, protocol_version), protocol_version) == e);
    match p {
        AccountingPosView::NrInodes => {},
        AccountingPosView::PersistentReserved { nr_replicas } => {},
        AccountingPosView::Replicas { data_type, nr_devs, nr_required, devs } => {
            assert(e.subrange(4, 4 + nr_devs as int) =~= devs);
        },
        AccountingPosView::DevDataType { dev, data_type } => {},
        AccountingPosView::Compression { compression_type } => {},
        AccountingPosView::Snapshot { id } => {
            assert(e.subrange(1, 5) =~= spec_u32_to_le_bytes(id));
        },
        AccountingPosView::Btree { id } => {
            assert(e.subrange(1, 5) =~= spec_u32_to_le_bytes(id));
        },
        AccountingPosView::RebalanceWork => {},
        AccountingPosView::Inum { inum } => {
            assert(e.subrange(1, 9) =~= spec_u64_to_le_bytes(inum));
        },
        AccountingPosView::ReconcileWork { work_type } => {},
        AccountingPosView::DevLeaving { dev } => {
            assert(e.subrange(1, 5) =~= spec_u32_to_le_bytes(dev));
        },
        AccountingPosView::Unknown(b) => {},
    }
}

/// Endianness symmetry: one logical key decodes to the same value under the
/// older convention from pre-reversed bytes as it does under the newer
/// convention from the bytes themselves.
pub proof fn lemma_endianness_symmetry(raw: Seq<u8>, v_old: u64, v_new: u64)
    requires
        v_old < BIG_ENDIAN_ACCOUNTING_VERSION,
        v_new >= BIG_ENDIAN_ACCOUNTING_VERSION,
    ensures
        spec_decode_position(spec_reverse(raw), v_old) == spec_decode_position(raw, v_new),
{
    assert(spec_reverse(spec_reverse(raw)) =~= raw);
}

/// Boundary: however large the claimed device count of a replicas key, the
/// decoded device list stays inside the sixteen bytes the block has after its
/// four fixed bytes — no decode reads past byte nineteen.
pub proof fn lemma_replicas_in_bounds(raw: Seq<u8>)
    requires
        raw.len() == POS_KEY_LEN,
    ensures
        spec_decode_key(raw) matches AccountingPosView::Replicas { nr_devs, devs, .. } ==> {
            &&& devs.len() <= REPLICAS_MAX_DEVS
            &&& devs.len() <= nr_devs
            &&& 4 + devs.len() <= POS_KEY_LEN
            &&& devs == raw.subrange(4, 4 + devs.len() as int)
        },
{
    match spec_decode_key(raw) {
        AccountingPosView::Replicas { nr_devs, devs, .. } => {
            assert(devs == raw.subrange(4, 4 + devs.len() as int));
        },
        _ => {},
    }
}

/// The three sub-fields of a position key, as they lie in a record: the
/// 4-byte field, then the two 8-byte fields.
#[derive(Clone, Copy, Debug, PartialEq, Eq, Structural)]
pub struct Bpos {
    pub snapshot: u32,
    pub offset: u64,
    pub inode: u64,
}

/// One accounting entry: the decoded position, its raw sub-fields, and the
/// counters that follow the record's fixed header.  Constructed fresh per
/// query and immutable after decoding.
#[derive(Debug, PartialEq, Eq)]
pub struct AccountingEntry {
    pub pos: DiskAccountingPos,
    pub bpos: Bpos,
    pub counters: Vec<u64>,
}

/// The mathematical value of an accounting entry.
pub struct AccountingEntryView {
    pub pos: AccountingPosView,
    pub bpos: Bpos,
    pub counters: Seq<u64>,
}

impl View for AccountingEntry {
    type V = AccountingEntryView;

    open spec fn view(&self) -> AccountingEntryView {
        AccountingEntryView { pos: self.pos@, bpos: self.bpos, counters: self.counters@ }
    }
}

impl AccountingEntry {
    /// The `i`th counter, or zero where the entry carries fewer.
    pub fn counter(&self, i: usize) -> (r: u64)
        ensures
            r == if i < self.counters@.len() {
                self.counters@[i as int]
            } else {
                0u64
            },
    {
        if i < self.counters.len() {
            self.counters[i]
        } else {
            0
        }
    }
}

/// Byte length of an accounting record's fixed header: five 8-byte words,
/// with the 20-byte position at byte twenty.
pub const ENTRY_HDR_LEN: usize = 40;

/// Byte offset of the position key inside a record's fixed header.
pub const ENTRY_POS_OFF: usize = 20;

/// The counters of one whole record: every 8-byte word after the fixed
/// header.
pub open spec fn spec_entry_counters(entry: Seq<u8>) -> Seq<u64>
    recommends
        entry.len() >= ENTRY_HDR_LEN,
{
    Seq::new(
        ((entry.len() - ENTRY_HDR_LEN) / 8) as nat,
        |i: int| spec_u64_from_le_bytes(entry.subrange(40 + 8 * i, 48 + 8 * i)),
    )
}

/// One whole record decoded: position key at its fixed offset, raw sub-fields
/// beside it, counters after the header.
pub open spec fn spec_parse_entry(entry: Seq<u8>, protocol_version: u64) -> AccountingEntryView
    recommends
        entry.len() >= ENTRY_HDR_LEN,
{
    AccountingEntryView {
        pos: spec_decode_position(entry.subrange(20, 40), protocol_version),
        bpos: Bpos {
            snapshot: spec_u32_from_le_bytes(entry.subrange(20, 24)),
            offset: spec_u64_from_le_bytes(entry.subrange(24, 32)),
            inode: spec_u64_from_le_bytes(entry.subrange(32, 40)),
        },
        counters: spec_entry_counters(entry),
    }
}

/// The entries of a raw buffer.  Each record leads with its length in 8-byte
/// words; a zero length ends the buffer, a length below the fixed header's
/// five words stops decoding, and a record that would run past the end of the
/// buffer is dropped with everything after it — defensive truncation of a
/// partial transfer, not an error.
pub open spec fn spec_accounting_entries(data: Seq<u8>, protocol_version: u64) -> Seq<
    AccountingEntryView,
>
    decreases data.len(),
{
    if data.len() == 0 {
        Seq::empty()
    } else {
        let u64s = data[0] as int;
        let entry_bytes = u64s * 8;
        if u64s < 5 || entry_bytes > data.len() {
            Seq::empty()
        } else {
            seq![spec_parse_entry(data.subrange(0, entry_bytes), protocol_version)]
                + spec_accounting_entries(data.skip(entry_bytes), protocol_version)
        }
    }
}

/// The values of a sequence of decoded entries.
pub open spec fn entries_view(s: Seq<AccountingEntry>) -> Seq<AccountingEntryView> {
    s.map_values(|e: AccountingEntry| e@)
}

/// Decode one whole record.
fn parse_accounting_entry(entry: &Vec<u8>, protocol_version: u64) -> (r: AccountingEntry)
    requires
        entry@.len() >= ENTRY_HDR_LEN,
    ensures
        r@ == spec_parse_entry(entry@, protocol_version),
{
    let raw20 = slice_to_vec(slice_subrange(entry.as_slice(), ENTRY_POS_OFF, ENTRY_HDR_LEN));
    let pos = decode_position(&raw20, protocol_version);
    let bpos = Bpos {
        snapshot: read_u32_le(entry, 20),
        offset: read_u64_le(entry, 24),
        inode: read_u64_le(entry, 32),
    };
    let len = entry.len();
    let nr_counters = (len - ENTRY_HDR_LEN) / 8;
    let mut counters: Vec<u64> = Vec::new();
    let mut i: usize = 0;
    while i < nr_counters
        invariant
            len == entry@.len(),
            len >= ENTRY_HDR_LEN,
            nr_counters == (len - ENTRY_HDR_LEN) as int / 8,
            i <= nr_counters,
            counters@.len() == i,
            forall|k: int| 0 <= k < i ==> counters@[k] == spec_u64_from_le_bytes(
                entry@.subrange(40 + 8 * k, 48 + 8 * k),
            ),
        decreases nr_counters - i,
    {
        proof {
            lemma_fundamental_div_mod(len as int - ENTRY_HDR_LEN as int, 8);
        }
        counters.push(read_u64_le(entry, 40 + 8 * i));
        i = i + 1;
    }
    assert(counters@ =~= spec_entry_counters(entry@));
    assert(entry@.subrange(20, 40) == raw20@);
    AccountingEntry { pos, bpos, counters }
}

/// Decode a raw accounting buffer into its entries, under the given protocol
/// version.
pub fn parse_accounting_entries(data: &Vec<u8>, protocol_version: u64) -> (r: Vec<AccountingEntry>)
    ensures
        entries_view(r@) == spec_accounting_entries(data@, protocol_version),
{
    let mut entries: Vec<AccountingEntry> = Vec::new();
    let len = data.len();
    let mut offset: usize = 0;
    proof {
        assert(data@.skip(0) =~= data@);
        assert(entries_view(entries@) =~= Seq::<AccountingEntryView>::empty());
    }
    while offset < len
        invariant
            offset <= len,
            len == data@.len(),
            spec_accounting_entries(data@, protocol_version) == entries_view(entries@)
                + spec_accounting_entries(data@.skip(offset as int), protocol_version),
        decreases len - offset,
    {
        let ghost tail = data@.skip(offset as int);
        let ghost pre = entries_view(entries@);
        let u64s = read_u8(data, offset) as usize;
        let entry_bytes = u64s * 8;
        if u64s < 5 || entry_bytes > len - offset {
            proof {
                assert(spec_accounting_entries(tail, protocol_version) =~= Seq::empty());
                assert(pre + Seq::<AccountingEntryView>::empty() =~= pre);
                assert(data@.skip(len as int).len() == 0);
                assert(spec_accounting_entries(data@.skip(len as int), protocol_version)
                    =~= Seq::empty());
            }
            offset = len;
        } else {
            let entry = slice_to_vec(
                slice_subrange(data.as_slice(), offset, offset + entry_bytes),
            );
            assert(entry@ =~= tail.subrange(0, entry_bytes as int));
            let parsed = parse_accounting_entry(&entry, protocol_version);
            entries.push(parsed);
            proof {
                let first = spec_parse_entry(tail.subrange(0, entry_bytes as int), protocol_version);
                assert(spec_accounting_entries(tail, protocol_version) == seq![first]
                    + spec_accounting_entries(tail.skip(entry_bytes as int), protocol_version));
                assert(tail.skip(entry_bytes as int) =~= data@.skip(offset + entry_bytes));
                assert(entries_view(entries@) =~= pre.push(parsed@));
                assert(pre.push(first) =~= pre + seq![first]);
                assert(pre + (seq![first] + spec_accounting_entries(
                    data@.skip(offset + entry_bytes),
                    protocol_version,
                )) =~= (pre + seq![first]) + spec_accounting_entries(
                    data@.skip(offset + entry_bytes),
                    protocol_version,
                ));
            }
            offset = offset + entry_bytes;
        }
    }
    proof {
        assert(data@.skip(len as int).len() == 0);
        assert(spec_accounting_entries(data@.skip(len as int), protocol_version) =~= Seq::empty());
        assert(entries_view(entries@) + Seq::<AccountingEntryView>::empty() =~= entries_view(
            entries@,
        ));
    }
    entries
}

// The data types a device's space is accounted under.
pub const DATA_FREE: u8 = 0;

pub const DATA_SB: u8 = 1;

pub const DATA_JOURNAL: u8 = 2;

pub const DATA_BTREE: u8 = 3;

pub const DATA_USER: u8 = 4;

pub const DATA_CACHED: u8 = 5;

pub const DATA_PARITY: u8 = 6;

pub const DATA_STRIPE: u8 = 7;

pub const DATA_NEED_GC_GENS: u8 = 8;

pub const DATA_NEED_DISCARD: u8 = 9;

pub const DATA_UNSTRIPED: u8 = 10;

/// Data types that stand for free or reclaimable space, not counted as used.
pub open spec fn spec_data_type_is_empty(t: u8) -> bool {
    t == DATA_FREE || t == DATA_NEED_GC_GENS || t == DATA_NEED_DISCARD
}

/// Whether a data type stands for free or reclaimable space.
pub fn data_type_is_empty(t: u8) -> (r: bool)
    ensures
        r == spec_data_type_is_empty(t),
{
    t == DATA_FREE || t == DATA_NEED_GC_GENS || t == DATA_NEED_DISCARD
}

/// Internal data types not visible to users.
pub open spec fn spec_data_type_is_hidden(t: u8) -> bool {
    t == DATA_SB || t == DATA_JOURNAL
}

/// Whether a data type is internal bookkeeping.
pub fn data_type_is_hidden(t: u8) -> (r: bool)
    ensures
        r == spec_data_type_is_hidden(t),
{
    t == DATA_SB || t == DATA_JOURNAL
}

/// The name of a data type.
pub fn data_type_str(t: u8) -> &'static str {
    if t == DATA_FREE {
        "free"
    } else if t == DATA_SB {
        "sb"
    } else if t == DATA_JOURNAL {
        "journal"
    } else if t == DATA_BTREE {
        "btree"
    } else if t == DATA_USER {
        "user"
    } else if t == DATA_CACHED {
        "cached"
    } else if t == DATA_PARITY {
        "parity"
    } else if t == DATA_STRIPE {
        "stripe"
    } else if t == DATA_NEED_GC_GENS {
        "need_gc_gens"
    } else if t == DATA_NEED_DISCARD {
        "need_discard"
    } else if t == DATA_UNSTRIPED {
        "unstriped"
    } else {
        "unknown"
    }
}

/// The name of a member state.
pub fn member_state_str(state: u8) -> &'static str {
    if state == 0 {
        "rw"
    } else if state == 1 {
        "ro"
    } else if state == 2 {
        "evacuating"
    } else if state == 3 {
        "spare"
    } else {
        "unknown"
    }
}

/// The name of a compression type.
pub fn compression_type_str(t: u8) -> &'static str {
    if t == 0 {
        "none"
    } else if t == 1 {
        "lz4_old"
    } else if t == 2 {
        "gzip_old"
    } else if t == 3 {
        "lz4"
    } else if t == 4 {
        "gzip"
    } else if t == 5 {
        "zstd"
    } else if t == 6 {
        "incompressible"
    } else {
        "unknown"
    }
}

/// The name of a reconcile work type.
pub fn reconcile_type_str(t: u8) -> &'static str {
    if t == 0 {
        "pending"
    } else if t == 1 {
        "running"
    } else {
        "unknown"
    }
}

/// Result of one accounting query: the filesystem totals from the response
/// header and the decoded entries.
#[derive(Debug, PartialEq, Eq)]
pub struct AccountingResult {
    pub capacity: u64,
    pub used: u64,
    pub online_reserved: u64,
    pub entries: Vec<AccountingEntry>,
}

/// Byte length of the accounting query's fixed header: capacity, used and
/// online-reserved totals, then the record area's size in 8-byte words and
/// the requested type mask.
pub const ACCT_QUERY_HDR_LEN: usize = 32;

/// Opcode of the accounting query.
pub const OP_QUERY_ACCOUNTING: u8 = 21;

/// The layout of the accounting response: the words field at byte 24 is the
/// offered capacity on the way out and both the returned count and the wanted
/// total on the way back, counted in 8-byte words.
pub fn accounting_layout() -> (r: FlexLayout)
    ensures
        r.wf(),
        r.header_len == ACCT_QUERY_HDR_LEN,
        r.record_len == 8,
        r.count_field == (FieldRef { off: 24, width: 4 }),
        r.total_field == (FieldRef { off: 24, width: 4 }),
{
    FlexLayout {
        header_len: ACCT_QUERY_HDR_LEN,
        record_len: 8,
        capacity_field: FieldRef { off: 24, width: 4 },
        count_field: FieldRef { off: 24, width: 4 },
        total_field: FieldRef { off: 24, width: 4 },
    }
}

impl<P: ControlPort> BcachefsHandle<P> {
    /// Query the filesystem's accounting data for the record kinds in
    /// `type_mask`, growing the record area to the peer-reported size on a
    /// range error, at most `max_retries` times and never beyond `max_u64s`
    /// words.  The peer's keys are decoded under `protocol_version`.
    ///
    /// On success the totals are the three leading header fields of the
    /// response and the entries are the decode of its record area; a
    /// `NotSupported` failure means the peer predates this query and the
    /// caller falls back to the older usage request.
    pub fn query_accounting(
        &mut self,
        type_mask: u32,
        protocol_version: u64,
        capacity_hint: u64,
        max_u64s: u64,
        max_retries: u32,
    ) -> (r: Result<AccountingResult, ErrorKind>)
        requires
            capacity_hint <= max_u64s,
            ACCT_QUERY_HDR_LEN + max_u64s * 8 <= usize::MAX,
        ensures
            r matches Ok(res) ==> exists|hdr: Seq<u8>, recs: Seq<u8>|
                {
                    &&& hdr.len() >= ACCT_QUERY_HDR_LEN
                    &&& res.capacity == spec_u64_from_le_bytes(hdr.subrange(0, 8))
                    &&& res.used == spec_u64_from_le_bytes(hdr.subrange(8, 16))
                    &&& res.online_reserved == spec_u64_from_le_bytes(hdr.subrange(16, 24))
                    &&& entries_view(res.entries@) == spec_accounting_entries(
                        recs,
                        protocol_version,
                    )
                },
    {
        let layout = accounting_layout();
        let mut initial: Vec<u8> = vec![0u8; ACCT_QUERY_HDR_LEN];
        write_u32_le(&mut initial, 28, type_mask);
        let req = ControlRequest {
            direction: Direction::Write,
            opcode: OP_QUERY_ACCOUNTING,
            payload_size: ACCT_QUERY_HDR_LEN,
        };
        match query_flex(
            &mut self.port,
            &req,
            &layout,
            &initial,
            capacity_hint,
            max_u64s,
            max_retries,
        ) {
            Ok(resp) => {
                let capacity = read_u64_le(&resp.raw_header, 0);
                let used = read_u64_le(&resp.raw_header, 8);
                let online_reserved = read_u64_le(&resp.raw_header, 16);
                let entries = parse_accounting_entries(&resp.records, protocol_version);
                Ok(AccountingResult { capacity, used, online_reserved, entries })
            },
            Err(e) => Err(e),
        }
    }
}

/// A valid key's normalized encoding is exactly twenty bytes.
pub proof fn lemma_encode_key_len(p: AccountingPosView)
    requires
        spec_key_valid(p),
    ensures
        spec_encode_key(p).len() == POS_KEY_LEN,
{
    lemma_auto_spec_u32_to_from_le_bytes();
    lemma_auto_spec_u64_to_from_le_bytes();
    match p {
        AccountingPosView::NrInodes => {},
        AccountingPosView::PersistentReserved { nr_replicas } => {},
        AccountingPosView::Replicas { data_type, nr_devs, nr_required, devs } => {},
        AccountingPosView::DevDataType { dev, data_type } => {},
        AccountingPosView::Compression { compression_type } => {},
        AccountingPosView::Snapshot { id } => {},
        AccountingPosView::Btree { id } => {},
        AccountingPosView::RebalanceWork => {},
        AccountingPosView::Inum { inum } => {},
        AccountingPosView::ReconcileWork { work_type } => {},
        AccountingPosView::DevLeaving { dev } => {},
        AccountingPosView::Unknown(b) => {},
    }
}

} // verus!
