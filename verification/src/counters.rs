//! The persistent-counter query.
//!
//! One request returns the filesystem's event counters as a flexible array of
//! 64-bit values indexed by stable counter id.  The request's header is eight
//! bytes: the number of counters asked for, which the peer rewrites to the
//! number returned, and a flags word selecting counters as of mount rather
//! than as of filesystem creation.

use crate::bytes::{read_u64_le, write_u16_le};
use crate::error::ErrorKind;
use crate::flex::{query_flex, FieldRef, FlexLayout};
use crate::ioctl::Direction;
use crate::port::{ControlPort, ControlRequest};
use vstd::arithmetic::div_mod::lemma_fundamental_div_mod;
use vstd::bytes::spec_u64_from_le_bytes;
use vstd::prelude::*;

verus! {

/// Opcode of the counter query.  It shares its opcode number with the
/// accounting query; their wire numbers differ because the payload sizes do.
pub const OP_QUERY_COUNTERS: u8 = 21;

/// Byte length of the counter query's header.
pub const COUNTERS_HDR_LEN: usize = 8;

/// Flag asking for the counter values captured at mount time.
pub const COUNTERS_MOUNT_FLAG: u16 = 1;

/// The 64-bit words of a raw region.
pub open spec fn spec_u64_words(s: Seq<u8>) -> Seq<u64> {
    Seq::new(
        (s.len() / 8) as nat,
        |i: int| spec_u64_from_le_bytes(s.subrange(8 * i, 8 * i + 8)),
    )
}

/// Copy the 64-bit words out of a raw region.
pub fn parse_u64_words(region: &Vec<u8>) -> (r: Vec<u64>)
    ensures
        r@ == spec_u64_words(region@),
{
    let len = region.len();
    let n = len / 8;
    let mut r: Vec<u64> = Vec::new();
    let mut i: usize = 0;
    while i < n
        invariant
            len == region@.len(),
            n == len as int / 8,
            i <= n,
            r@.len() == i,
            forall|k: int| 0 <= k < i ==> r@[k] == spec_u64_words(region@)[k],
        decreases n - i,
    {
        proof {
            lemma_fundamental_div_mod(len as int, 8);
        }
        r.push(read_u64_le(region, 8 * i));
        i = i + 1;
    }
    assert(r@ =~= spec_u64_words(region@));
    r
}

/// Read the filesystem's counters: ask for `nr_stable` values, take the
/// number the peer says it returned.  On success every value is a 64-bit word
/// of the peer's record area, in order, and there are no more of them than
/// asked for.
pub fn read_counters<P: ControlPort>(port: &mut P, flags: u16, nr_stable: u16) -> (r: Result<
    Vec<u64>,
    ErrorKind,
>)
    ensures
        r matches Ok(values) ==> exists|recs: Seq<u8>| values@ == spec_u64_words(recs),
{
    let layout = FlexLayout {
        header_len: COUNTERS_HDR_LEN,
        record_len: 8,
        capacity_field: FieldRef { off: 0, width: 2 },
        count_field: FieldRef { off: 0, width: 2 },
        total_field: FieldRef { off: 0, width: 2 },
    };
    let mut initial: Vec<u8> = vec![0u8; COUNTERS_HDR_LEN];
    write_u16_le(&mut initial, 2, flags);
    let req = ControlRequest {
        direction: Direction::Write,
        opcode: OP_QUERY_COUNTERS,
        payload_size: COUNTERS_HDR_LEN,
    };
    assert(COUNTERS_HDR_LEN + (nr_stable as u64) * 8 <= usize::MAX) by {
        assert(nr_stable <= 65535);
    }
    match query_flex(port, &req, &layout, &initial, nr_stable as u64, nr_stable as u64, 0) {
        Ok(resp) => {
            let values = parse_u64_words(&resp.records);
            proof {
                lemma_fundamental_div_mod(resp.records@.len() as int, 8);
            }
            Ok(values)
        },
        Err(e) => Err(e),
    }
}

/// Find a counter's index by name: the first position in `names` whose string
/// equals `name`, if any.
pub fn match_counter(names: &Vec<String>, name: &String) -> (r: Option<usize>)
    ensures
        r matches Some(i) ==> i < names@.len() && names@[i as int]@ == name@ && forall|k: int|
            0 <= k < i ==> names@[k]@ != name@,
        r is None ==> forall|k: int| 0 <= k < names@.len() ==> names@[k]@ != name@,
{
    let mut i: usize = 0;
    while i < names.len()
        invariant
            i <= names@.len(),
            forall|k: int| 0 <= k < i ==> names@[k]@ != name@,
        decreases names@.len() - i,
    {
        if names[i].eq(name) {
            return Some(i);
        }
        i = i + 1;
    }
    None
}

} // verus!
