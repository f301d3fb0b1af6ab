//! Byte encoding of what the store persists.
//!
//! Each entry is a fixed-width nine-byte record: one state byte followed by
//! the start timestamp as eight little-endian bytes. Entry keys and the
//! length counter are eight little-endian bytes of a `u64`. Timestamps are
//! signed, so they travel through a two's-complement `u64` image.

use vstd::bytes::{
    lemma_auto_spec_u64_to_from_le_bytes, spec_u64_from_le_bytes, spec_u64_to_le_bytes,
    u64_from_le_bytes, u64_to_le_bytes,
};
use vstd::prelude::*;

verus! {

/// The two's-complement `u64` image of a signed timestamp.
pub open spec fn spec_i64_to_u64(t: i64) -> u64 {
    if t >= 0 {
        t as u64
    } else {
        (t + 0x1_0000_0000_0000_0000) as u64
    }
}

/// The signed timestamp a two's-complement `u64` image stands for.
pub open spec fn spec_u64_to_i64(u: u64) -> i64 {
    if u < 0x8000_0000_0000_0000 {
        u as i64
    } else {
        (u - 0x1_0000_0000_0000_0000) as i64
    }
}

pub fn i64_to_u64(t: i64) -> (r: u64)
    ensures
        r == spec_i64_to_u64(t),
{
    if t >= 0 {
        t as u64
    } else {
        let neg: u64 = (-(t + 1)) as u64;
        u64::MAX - neg
    }
}

pub fn u64_to_i64(u: u64) -> (r: i64)
    ensures
        r == spec_u64_to_i64(u),
{
    if u < 0x8000_0000_0000_0000 {
        u as i64
    } else {
        let d: i64 = (u64::MAX - u) as i64;
        -d - 1
    }
}

/// The key under which an entry with index `i` is stored.
pub open spec fn spec_index_key(i: u64) -> Seq<u8> {
    spec_u64_to_le_bytes(i)
}

pub fn index_key(i: u64) -> (r: Vec<u8>)
    ensures
        r@ == spec_index_key(i),
{
    u64_to_le_bytes(i)
}

/// Distinct indices are stored under distinct keys.
pub proof fn lemma_index_key_injective(a: u64, b: u64)
    requires
        spec_index_key(a) == spec_index_key(b),
    ensures
        a == b,
{
    lemma_auto_spec_u64_to_from_le_bytes();
}

/// The nine-byte record persisted for one entry.
pub open spec fn spec_record_bytes(state: u8, ts: i64) -> Seq<u8> {
    seq![state] + spec_u64_to_le_bytes(spec_i64_to_u64(ts))
}

/// The state byte of a stored record.
pub open spec fn spec_record_state(bytes: Seq<u8>) -> u8 {
    bytes[0]
}

/// The timestamp of a stored record.
pub open spec fn spec_record_ts(bytes: Seq<u8>) -> i64
    recommends
        bytes.len() == 9,
{
    spec_u64_to_i64(spec_u64_from_le_bytes(bytes.subrange(1, 9)))
}

/// A stored record decodes back to the state and timestamp it was made from.
pub proof fn lemma_record_round_trip(state: u8, ts: i64)
    ensures
        spec_record_bytes(state, ts).len() == 9,
        spec_record_state(spec_record_bytes(state, ts)) == state,
        spec_record_ts(spec_record_bytes(state, ts)) == ts,
{
    lemma_auto_spec_u64_to_from_le_bytes();
    let b = spec_record_bytes(state, ts);
    assert(b.subrange(1, 9) =~= spec_u64_to_le_bytes(spec_i64_to_u64(ts)));
}

pub fn encode_record(state: u8, ts: i64) -> (r: Vec<u8>)
    ensures
        r@ == spec_record_bytes(state, ts),
        r@.len() == 9,
{
    let mut r = u64_to_le_bytes(i64_to_u64(ts));
    r.insert(0, state);
    proof {
        lemma_auto_spec_u64_to_from_le_bytes();
        assert(r@ =~= spec_record_bytes(state, ts));
    }
    r
}

/// Decodes a stored record; rejects anything that is not nine bytes wide.
pub fn decode_record(bytes: &Vec<u8>) -> (r: Option<(u8, i64)>)
    ensures
        match r {
            Some((state, ts)) => bytes@.len() == 9 && state == spec_record_state(bytes@)
                && ts == spec_record_ts(bytes@),
            None => bytes@.len() != 9,
        },
{
    if bytes.len() != 9 {
        return None;
    }
    let state = bytes[0];
    let ts_slice = vstd::slice::slice_subrange(bytes.as_slice(), 1, 9);
    let ts = u64_to_i64(u64_from_le_bytes(ts_slice));
    Some((state, ts))
}

/// The key under which the length counter is stored: the bytes of "len".
pub open spec fn spec_len_key() -> Seq<u8> {
    seq![108u8, 101u8, 110u8]
}

pub fn len_key() -> (r: Vec<u8>)
    ensures
        r@ == spec_len_key(),
{
    let mut r: Vec<u8> = Vec::new();
    r.push(108);
    r.push(101);
    r.push(110);
    proof {
        assert(r@ =~= spec_len_key());
    }
    r
}

} // verus!
