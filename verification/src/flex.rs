//! The growable flexible-array query.
//!
//! Several requests answer with a fixed header followed by a variable number
//! of fixed-size records.  The caller offers a capacity; when the peer cannot
//! fit all results it fails with a range error and reports in the header how
//! much room it wants, and the request is re-issued at that capacity.  The
//! protocol itself puts no bound on this growth — a peer reporting an
//! ever-larger total would retry forever — so the retry bound is an explicit
//! argument here, as are the capacity ceiling machine limits force.

use crate::bytes::{
    read_u16_le, read_u32_le, read_u64_le, read_u8, spec_splice, write_bytes, write_u16_le,
    write_u32_le, write_u64_le,
};
use crate::error::{classify_errno, spec_classify, ErrorKind};
use crate::ioctl::MAX_PAYLOAD_SIZE;
use crate::port::{ControlPort, ControlRequest};
use vstd::arithmetic::div_mod::lemma_fundamental_div_mod;
use vstd::arithmetic::mul::{lemma_mul_inequality, lemma_mul_is_commutative};
use vstd::bytes::{
    spec_u16_from_le_bytes, spec_u16_to_le_bytes, spec_u32_from_le_bytes, spec_u32_to_le_bytes,
    spec_u64_from_le_bytes, spec_u64_to_le_bytes,
};
use vstd::prelude::*;
use vstd::slice::{slice_subrange, slice_to_vec};

verus! {

/// A little-endian unsigned field inside a response header: byte offset and
/// width in bytes.
#[derive(Clone, Copy, Debug, PartialEq, Eq, Structural)]
pub struct FieldRef {
    pub off: usize,
    pub width: usize,
}

impl FieldRef {
    pub open spec fn wf(self) -> bool {
        self.width == 1 || self.width == 2 || self.width == 4 || self.width == 8
    }

    /// The field lies inside the first `len` bytes.
    pub open spec fn fits(self, len: int) -> bool {
        self.off + self.width <= len
    }
}

/// The value of the field `f` in buffer `s`, widened to 64 bits.
pub open spec fn spec_read_field(s: Seq<u8>, f: FieldRef) -> u64
    recommends
        f.wf(),
        f.fits(s.len() as int),
{
    if f.width == 1 {
        s[f.off as int] as u64
    } else if f.width == 2 {
        spec_u16_from_le_bytes(s.subrange(f.off as int, f.off + 2)) as u64
    } else if f.width == 4 {
        spec_u32_from_le_bytes(s.subrange(f.off as int, f.off + 4)) as u64
    } else {
        spec_u64_from_le_bytes(s.subrange(f.off as int, f.off + 8))
    }
}

/// The `f.width` little-endian bytes that stand for `v`, truncated to the
/// field's width.
pub open spec fn spec_field_bytes(v: u64, f: FieldRef) -> Seq<u8>
    recommends
        f.wf(),
{
    if f.width == 1 {
        seq![v as u8]
    } else if f.width == 2 {
        spec_u16_to_le_bytes(v as u16)
    } else if f.width == 4 {
        spec_u32_to_le_bytes(v as u32)
    } else {
        spec_u64_to_le_bytes(v)
    }
}

/// Read the field `f` from `buf`.
pub fn read_field(buf: &Vec<u8>, f: &FieldRef) -> (r: u64)
    requires
        f.wf(),
        f.fits(buf@.len() as int),
    ensures
        r == spec_read_field(buf@, *f),
{
    if f.width == 1 {
        read_u8(buf, f.off) as u64
    } else if f.width == 2 {
        read_u16_le(buf, f.off) as u64
    } else if f.width == 4 {
        read_u32_le(buf, f.off) as u64
    } else {
        read_u64_le(buf, f.off)
    }
}

/// Write `v` into the field `f` of `buf`, truncating to the field's width.
pub fn write_field(buf: &mut Vec<u8>, f: &FieldRef, v: u64)
    requires
        f.wf(),
        f.fits(old(buf)@.len() as int),
    ensures
        final(buf)@.len() == old(buf)@.len(),
        final(buf)@ == spec_splice(old(buf)@, f.off as int, spec_field_bytes(v, *f)),
{
    if f.width == 1 {
        let b: Vec<u8> = vec![v as u8];
        write_bytes(buf, f.off, &b);
    } else if f.width == 2 {
        write_u16_le(buf, f.off, v as u16);
    } else if f.width == 4 {
        write_u32_le(buf, f.off, v as u32);
    } else {
        write_u64_le(buf, f.off, v);
    }
}

/// Layout of one flexible-array response: the header's byte length, the byte
/// length of one record, and where the header keeps the offered capacity, the
/// count of records actually returned, and the total available on the peer.
#[derive(Clone, Copy, Debug, PartialEq, Eq, Structural)]
pub struct FlexLayout {
    pub header_len: usize,
    pub record_len: usize,
    pub capacity_field: FieldRef,
    pub count_field: FieldRef,
    pub total_field: FieldRef,
}

impl FlexLayout {
    pub open spec fn wf(self) -> bool {
        &&& self.header_len < MAX_PAYLOAD_SIZE
        &&& self.record_len >= 1
        &&& self.capacity_field.wf() && self.capacity_field.fits(self.header_len as int)
        &&& self.count_field.wf() && self.count_field.fits(self.header_len as int)
        &&& self.total_field.wf() && self.total_field.fits(self.header_len as int)
    }
}

/// The fixed header of a flexible-array response.  When the peer cannot fit
/// all results, `total` exceeds the offered capacity and the header is still
/// valid on its own.
#[derive(Clone, Copy, Debug, PartialEq, Eq, Structural)]
pub struct FlexHeader {
    pub capacity: u64,
    pub count: u64,
    pub total: u64,
}

/// The header decoded from a response buffer.
pub open spec fn spec_parse_flex_header(s: Seq<u8>, layout: FlexLayout) -> FlexHeader {
    FlexHeader {
        capacity: spec_read_field(s, layout.capacity_field),
        count: spec_read_field(s, layout.count_field),
        total: spec_read_field(s, layout.total_field),
    }
}

/// How many whole records the buffer itself has room for after the header.
pub open spec fn spec_records_avail(s: Seq<u8>, layout: FlexLayout) -> int {
    (s.len() - layout.header_len) / layout.record_len as int
}

/// The record region of a response: the first `count` records after the
/// header, clipped defensively to what the buffer really holds.
pub open spec fn spec_flex_records(s: Seq<u8>, layout: FlexLayout) -> Seq<u8> {
    let avail = spec_records_avail(s, layout);
    let count = spec_read_field(s, layout.count_field) as int;
    let n = if count <= avail {
        count
    } else {
        avail
    };
    s.subrange(layout.header_len as int, layout.header_len + n * layout.record_len)
}

/// Decode the fixed header of a response.
pub fn parse_flex_header(buf: &Vec<u8>, layout: &FlexLayout) -> (r: FlexHeader)
    requires
        layout.wf(),
        buf@.len() >= layout.header_len,
    ensures
        r == spec_parse_flex_header(buf@, *layout),
{
    FlexHeader {
        capacity: read_field(buf, &layout.capacity_field),
        count: read_field(buf, &layout.count_field),
        total: read_field(buf, &layout.total_field),
    }
}

/// Copy the record region out of a response: the first `count` records, or
/// as many whole records as the buffer holds if the count claims more.
pub fn flex_records(buf: &Vec<u8>, layout: &FlexLayout) -> (r: Vec<u8>)
    requires
        layout.wf(),
        buf@.len() >= layout.header_len,
    ensures
        r@ == spec_flex_records(buf@, *layout),
{
    let len = buf.len();
    let count = read_field(buf, &layout.count_field);
    let avail = (len - layout.header_len) / layout.record_len;
    let n: usize = if count <= avail as u64 {
        count as usize
    } else {
        avail
    };
    proof {
        lemma_fundamental_div_mod(
            len as int - layout.header_len as int,
            layout.record_len as int,
        );
        lemma_mul_inequality(n as int, avail as int, layout.record_len as int);
    }
    let end = layout.header_len + n * layout.record_len;
    slice_to_vec(slice_subrange(buf.as_slice(), layout.header_len, end))
}

/// The header bytes of a response, on their own.
pub open spec fn spec_flex_raw_header(s: Seq<u8>, layout: FlexLayout) -> Seq<u8> {
    s.subrange(0, layout.header_len as int)
}

/// A field that lies inside a prefix of the buffer reads the same from the
/// prefix as from the whole buffer.
pub proof fn lemma_read_field_prefix(s: Seq<u8>, plen: int, f: FieldRef)
    requires
        f.wf(),
        f.fits(plen),
        plen <= s.len(),
    ensures
        spec_read_field(s.subrange(0, plen), f) == spec_read_field(s, f),
{
    let p = s.subrange(0, plen);
    if f.width == 1 {
    } else {
        assert(p.subrange(f.off as int, f.off + f.width) =~= s.subrange(
            f.off as int,
            f.off + f.width,
        ));
    }
}

/// The decoded header of a response equals the decode of its header bytes
/// alone.
pub proof fn lemma_parse_header_prefix(s: Seq<u8>, layout: FlexLayout)
    requires
        layout.wf(),
        s.len() >= layout.header_len,
    ensures
        spec_parse_flex_header(spec_flex_raw_header(s, layout), layout) == spec_parse_flex_header(
            s,
            layout,
        ),
{
    lemma_read_field_prefix(s, layout.header_len as int, layout.capacity_field);
    lemma_read_field_prefix(s, layout.header_len as int, layout.count_field);
    lemma_read_field_prefix(s, layout.header_len as int, layout.total_field);
}

/// A successful flexible-array response: the decoded header, the header's raw
/// bytes (whose other, query-specific fields the caller decodes itself), and
/// the record region.
#[derive(Debug)]
pub struct FlexResponse {
    pub header: FlexHeader,
    pub raw_header: Vec<u8>,
    pub records: Vec<u8>,
}

/// What one round of the growable query decides, at the specification level.
pub enum SpecFlexStep {
    /// Success: the decoded header, the raw header bytes, and the record
    /// region of the response.
    Done(FlexHeader, Seq<u8>, Seq<u8>),
    /// The peer wants more room: re-issue with exactly this capacity.
    Retry(u64),
    /// Give up with this error.
    Fail(ErrorKind),
}

/// The decision one round of the growable query takes, given the raw result
/// `code`, the response buffer, how many retries are still allowed, and the
/// capacity ceiling:
/// success decodes the buffer; a range error with retries left re-issues at
/// exactly the peer-reported total, provided it fits under the ceiling; any
/// other error is final.  A response shorter than its own header is
/// `Truncated`.
pub open spec fn spec_flex_step(
    layout: FlexLayout,
    code: i32,
    resp: Seq<u8>,
    retries_left: u32,
    max_capacity: u64,
) -> SpecFlexStep {
    if code == 0 {
        if resp.len() >= layout.header_len {
            SpecFlexStep::Done(
                spec_parse_flex_header(resp, layout),
                spec_flex_raw_header(resp, layout),
                spec_flex_records(resp, layout),
            )
        } else {
            SpecFlexStep::Fail(ErrorKind::Truncated)
        }
    } else if spec_classify(code) is RangeTooSmall {
        if retries_left == 0 {
            SpecFlexStep::Fail(ErrorKind::RangeTooSmall)
        } else if resp.len() < layout.header_len {
            SpecFlexStep::Fail(ErrorKind::Truncated)
        } else if spec_read_field(resp, layout.total_field) > max_capacity {
            SpecFlexStep::Fail(ErrorKind::RangeTooSmall)
        } else {
            SpecFlexStep::Retry(spec_read_field(resp, layout.total_field))
        }
    } else {
        SpecFlexStep::Fail(spec_classify(code))
    }
}

/// One round's decision, as executable data.
pub enum FlexStep {
    Done(FlexResponse),
    Retry(u64),
    Fail(ErrorKind),
}

/// The executable step agrees with the specification step.
pub open spec fn flex_step_matches(r: FlexStep, s: SpecFlexStep) -> bool {
    match r {
        FlexStep::Done(p) => s matches SpecFlexStep::Done(sh, sraw, srec) && p.header == sh
            && p.raw_header@ == sraw && p.records@ == srec,
        FlexStep::Retry(c) => s == SpecFlexStep::Retry(c),
        FlexStep::Fail(e) => s == SpecFlexStep::Fail(e),
    }
}

/// Decide what one round of the growable query does with the peer's answer.
pub fn flex_step(
    layout: &FlexLayout,
    code: i32,
    buf: &Vec<u8>,
    retries_left: u32,
    max_capacity: u64,
) -> (r: FlexStep)
    requires
        layout.wf(),
    ensures
        flex_step_matches(r, spec_flex_step(*layout, code, buf@, retries_left, max_capacity)),
{
    if code == 0 {
        if buf.len() >= layout.header_len {
            let raw_header = slice_to_vec(slice_subrange(buf.as_slice(), 0, layout.header_len));
            FlexStep::Done(
                FlexResponse {
                    header: parse_flex_header(buf, layout),
                    raw_header,
                    records: flex_records(buf, layout),
                },
            )
        } else {
            FlexStep::Fail(ErrorKind::Truncated)
        }
    } else {
        let kind = classify_errno(code);
        match kind {
            ErrorKind::RangeTooSmall => {
                if retries_left == 0 {
                    FlexStep::Fail(ErrorKind::RangeTooSmall)
                } else if buf.len() < layout.header_len {
                    FlexStep::Fail(ErrorKind::Truncated)
                } else {
                    let reported = read_field(buf, &layout.total_field);
                    if reported > max_capacity {
                        FlexStep::Fail(ErrorKind::RangeTooSmall)
                    } else {
                        FlexStep::Retry(reported)
                    }
                }
            },
            k => FlexStep::Fail(k),
        }
    }
}

/// Issue a flexible-array request, growing the offered capacity to the
/// peer-reported total on each range error, at most `max_retries` times and
/// never beyond `max_capacity` records.  On success the returned region holds
/// exactly the response's records: its length is a whole number of records
/// and never more than the header's count; a `RangeTooSmall` failure means
/// the peer wanted more room than the retry bound or the ceiling allowed.
pub fn query_flex<P: ControlPort>(
    port: &mut P,
    req: &ControlRequest,
    layout: &FlexLayout,
    initial_header: &Vec<u8>,
    capacity_hint: u64,
    max_capacity: u64,
    max_retries: u32,
) -> (r: Result<FlexResponse, ErrorKind>)
    requires
        req.wf(),
        req.payload_size == layout.header_len,
        layout.wf(),
        initial_header@.len() == layout.header_len,
        capacity_hint <= max_capacity,
        layout.header_len + max_capacity * layout.record_len <= usize::MAX,
    ensures
        r matches Ok(p) ==> exists|resp: Seq<u8>|
            resp.len() >= layout.header_len && p.header == spec_parse_flex_header(resp, *layout)
                && p.raw_header@ == spec_flex_raw_header(resp, *layout) && p.records@
                == spec_flex_records(resp, *layout),
        r matches Ok(p) ==> p.raw_header@.len() == layout.header_len && p.header
            == spec_parse_flex_header(p.raw_header@, *layout),
        r matches Ok(p) ==> p.records@.len() as int % layout.record_len as int == 0 && p.records@.len()
            <= p.header.count * layout.record_len,
{
    let mut capacity = capacity_hint;
    let mut retries_left = max_retries;
    loop
        invariant
            req.wf(),
            req.payload_size == layout.header_len,
            layout.wf(),
            initial_header@.len() == layout.header_len,
            capacity <= max_capacity,
            layout.header_len + max_capacity * layout.record_len <= usize::MAX,
        decreases retries_left,
    {
        proof {
            lemma_mul_inequality(capacity as int, max_capacity as int, layout.record_len as int);
            lemma_mul_inequality(1, layout.record_len as int, capacity as int);
            lemma_mul_is_commutative(layout.record_len as int, capacity as int);
        }
        let mut buf: Vec<u8> = Vec::new();
        buf.extend_from_slice(initial_header.as_slice());
        let full = layout.header_len + (capacity as usize) * layout.record_len;
        buf.resize(full, 0u8);
        write_field(&mut buf, &layout.capacity_field, capacity);

        let code = port.submit(req.wire(), &mut buf);

        match flex_step(layout, code, &buf, retries_left, max_capacity) {
            FlexStep::Done(resp) => {
                proof {
                    lemma_flex_records_bounds(buf@, *layout);
                    lemma_parse_header_prefix(buf@, *layout);
                }
                return Ok(resp);
            },
            FlexStep::Retry(reported) => {
                capacity = reported;
                retries_left = retries_left - 1;
            },
            FlexStep::Fail(e) => {
                return Err(e);
            },
        }
    }
}

/// The record region of a response is a whole number of records and never
/// longer than the count its header claims.
pub proof fn lemma_flex_records_bounds(s: Seq<u8>, layout: FlexLayout)
    requires
        layout.wf(),
        s.len() >= layout.header_len,
    ensures
        spec_flex_records(s, layout).len() as int % layout.record_len as int == 0,
        spec_flex_records(s, layout).len() <= spec_parse_flex_header(s, layout).count
            * layout.record_len,
{
    let avail = spec_records_avail(s, layout);
    let count = spec_read_field(s, layout.count_field) as int;
    let n = if count <= avail {
        count
    } else {
        avail
    };
    lemma_fundamental_div_mod(s.len() - layout.header_len as int, layout.record_len as int);
    lemma_mul_inequality(n, avail, layout.record_len as int);
    lemma_mul_inequality(n, count, layout.record_len as int);
    assert(n * layout.record_len % layout.record_len as int == 0) by {
        vstd::arithmetic::div_mod::lemma_mod_multiples_basic(n, layout.record_len as int);
    }
}

/// Termination of the growable query: a peer that answers the first request
/// with a range error reporting total `t`, and then succeeds, is done in
/// exactly two calls.  The first round re-issues at exactly `t` — no other
/// capacity — and the second round, being a success, always completes; no
/// third call can happen.
pub proof fn lemma_flex_two_calls(
    layout: FlexLayout,
    code1: i32,
    resp1: Seq<u8>,
    resp2: Seq<u8>,
    retries_left: u32,
    max_capacity: u64,
    t: u64,
)
    requires
        layout.wf(),
        spec_classify(code1) is RangeTooSmall,
        resp1.len() >= layout.header_len,
        spec_read_field(resp1, layout.total_field) == t,
        t <= max_capacity,
        retries_left > 0,
        resp2.len() >= layout.header_len,
    ensures
        spec_flex_step(layout, code1, resp1, retries_left, max_capacity) == SpecFlexStep::Retry(t),
        spec_flex_step(layout, 0, resp2, (retries_left - 1) as u32, max_capacity)
            == SpecFlexStep::Done(
            spec_parse_flex_header(resp2, layout),
            spec_flex_raw_header(resp2, layout),
            spec_flex_records(resp2, layout),
        ),
{
}

} // verus!
