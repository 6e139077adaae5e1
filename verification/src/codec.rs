//! The explicit serialization schema for stored records.
//!
//! A record is stored as 82 bytes: each `u64` field is 8 little-endian
//! bytes; the signed timestamp and the optional block time each carry a
//! leading tag byte.  The schema is lossless, so a partial update can
//! decode, mutate one field and re-encode without touching the others.

use vstd::prelude::*;
use vstd::bytes::{
    spec_u64_to_le_bytes, spec_u64_from_le_bytes, u64_to_le_bytes, u64_from_le_bytes,
    lemma_auto_spec_u64_to_from_le_bytes,
};
use crate::record::BlockRecord;

verus! {

/// Tag byte 0 followed by the magnitude: a non-negative timestamp.
/// Tag byte 1: a negative timestamp, stored as its absolute value.
pub open spec fn enc_i64(t: i64) -> Seq<u8> {
    if t >= 0 {
        seq![0u8] + spec_u64_to_le_bytes(t as u64)
    } else {
        seq![1u8] + spec_u64_to_le_bytes((-(t as int)) as u64)
    }
}

pub open spec fn dec_i64(s: Seq<u8>) -> Option<i64>
    recommends
        s.len() == 9,
{
    let v = spec_u64_from_le_bytes(s.skip(1));
    if s[0] == 0 {
        if v <= i64::MAX as u64 {
            Some(v as i64)
        } else {
            None
        }
    } else if s[0] == 1 {
        if 1 <= v <= 0x8000000000000000u64 {
            Some((-(v as int)) as i64)
        } else {
            None
        }
    } else {
        None
    }
}

/// Tag byte 0 with a zero payload: unset.  Tag byte 1: the value.
pub open spec fn enc_opt(o: Option<u64>) -> Seq<u8> {
    match o {
        None => seq![0u8] + spec_u64_to_le_bytes(0),
        Some(v) => seq![1u8] + spec_u64_to_le_bytes(v),
    }
}

pub open spec fn dec_opt(s: Seq<u8>) -> Option<Option<u64>>
    recommends
        s.len() == 9,
{
    let v = spec_u64_from_le_bytes(s.skip(1));
    if s[0] == 0 {
        if v == 0 {
            Some(None)
        } else {
            None
        }
    } else if s[0] == 1 {
        Some(Some(v))
    } else {
        None
    }
}

/// The stored bytes of a record, fields in declaration order.
pub open spec fn spec_encode(r: BlockRecord) -> Seq<u8> {
    spec_u64_to_le_bytes(r.height) + enc_i64(r.timestamp) + spec_u64_to_le_bytes(r.tx_count)
        + spec_u64_to_le_bytes(r.valid_tx_count) + enc_opt(r.block_time) + spec_u64_to_le_bytes(
        r.phase_begin,
    ) + spec_u64_to_le_bytes(r.phase_snapshot) + spec_u64_to_le_bytes(r.phase_end)
        + spec_u64_to_le_bytes(r.phase_commit) + spec_u64_to_le_bytes(r.phase_commit_evm)
}

/// The record denoted by 82 stored bytes, or `None` when they are not a
/// well-formed encoding.
pub open spec fn spec_decode(s: Seq<u8>) -> Option<BlockRecord> {
    if s.len() != 82 {
        None
    } else {
        let ts = dec_i64(s.subrange(8, 17));
        let bt = dec_opt(s.subrange(33, 42));
        if ts is Some && bt is Some {
            Some(
                BlockRecord {
                    height: spec_u64_from_le_bytes(s.subrange(0, 8)),
                    timestamp: ts->Some_0,
                    tx_count: spec_u64_from_le_bytes(s.subrange(17, 25)),
                    valid_tx_count: spec_u64_from_le_bytes(s.subrange(25, 33)),
                    block_time: bt->Some_0,
                    phase_begin: spec_u64_from_le_bytes(s.subrange(42, 50)),
                    phase_snapshot: spec_u64_from_le_bytes(s.subrange(50, 58)),
                    phase_end: spec_u64_from_le_bytes(s.subrange(58, 66)),
                    phase_commit: spec_u64_from_le_bytes(s.subrange(66, 74)),
                    phase_commit_evm: spec_u64_from_le_bytes(s.subrange(74, 82)),
                },
            )
        } else {
            None
        }
    }
}

/// The schema is lossless: decoding an encoded record gives it back.
pub proof fn lemma_decode_encode(r: BlockRecord)
    ensures
        spec_encode(r).len() == 82,
        spec_decode(spec_encode(r)) == Some(r),
{
    lemma_auto_spec_u64_to_from_le_bytes();
    let e = spec_encode(r);
    assert(e.len() == 82);
    assert(e.subrange(0, 8) =~= spec_u64_to_le_bytes(r.height));
    assert(e.subrange(8, 17) =~= enc_i64(r.timestamp));
    assert(e.subrange(17, 25) =~= spec_u64_to_le_bytes(r.tx_count));
    assert(e.subrange(25, 33) =~= spec_u64_to_le_bytes(r.valid_tx_count));
    assert(e.subrange(33, 42) =~= enc_opt(r.block_time));
    assert(e.subrange(42, 50) =~= spec_u64_to_le_bytes(r.phase_begin));
    assert(e.subrange(50, 58) =~= spec_u64_to_le_bytes(r.phase_snapshot));
    assert(e.subrange(58, 66) =~= spec_u64_to_le_bytes(r.phase_end));
    assert(e.subrange(66, 74) =~= spec_u64_to_le_bytes(r.phase_commit));
    assert(e.subrange(74, 82) =~= spec_u64_to_le_bytes(r.phase_commit_evm));
    assert(enc_i64(r.timestamp).skip(1) =~= spec_u64_to_le_bytes(
        if r.timestamp >= 0 {
            r.timestamp as u64
        } else {
            (-(r.timestamp as int)) as u64
        },
    ));
    assert(dec_i64(enc_i64(r.timestamp)) == Some(r.timestamp));
    assert(enc_opt(r.block_time).skip(1) =~= spec_u64_to_le_bytes(
        match r.block_time {
            None => 0u64,
            Some(v) => v,
        },
    ));
    assert(dec_opt(enc_opt(r.block_time)) == Some(r.block_time));
}

/// Appends the little-endian bytes of `v`.
fn push_u64(out: &mut Vec<u8>, v: u64)
    ensures
        final(out)@ == old(out)@ + spec_u64_to_le_bytes(v),
{
    let mut b = u64_to_le_bytes(v);
    out.append(&mut b);
}

/// Serializes a record under the schema.
pub fn encode_record(r: &BlockRecord) -> (out: Vec<u8>)
    ensures
        out@ == spec_encode(*r),
{
    let mut out: Vec<u8> = Vec::new();
    push_u64(&mut out, r.height);
    if r.timestamp >= 0 {
        out.push(0u8);
        push_u64(&mut out, r.timestamp as u64);
    } else {
        out.push(1u8);
        let mag: u64 = ((-(r.timestamp + 1)) as u64) + 1;
        proof {
            assert(mag == -(r.timestamp as int));
        }
        push_u64(&mut out, mag);
    }
    push_u64(&mut out, r.tx_count);
    push_u64(&mut out, r.valid_tx_count);
    match r.block_time {
        None => {
            out.push(0u8);
            push_u64(&mut out, 0);
        },
        Some(v) => {
            out.push(1u8);
            push_u64(&mut out, v);
        },
    }
    push_u64(&mut out, r.phase_begin);
    push_u64(&mut out, r.phase_snapshot);
    push_u64(&mut out, r.phase_end);
    push_u64(&mut out, r.phase_commit);
    push_u64(&mut out, r.phase_commit_evm);
    proof {
        assert(out@ =~= spec_encode(*r));
    }
    out
}

fn read_u64(s: &[u8], i: usize) -> (v: u64)
    requires
        i + 8 <= s@.len(),
    ensures
        v == spec_u64_from_le_bytes(s@.subrange(i as int, i + 8)),
{
    let n = s.len();
    proof {
        assert(n == s@.len());
    }
    u64_from_le_bytes(vstd::slice::slice_subrange(s, i, i + 8))
}

fn read_i64(s: &[u8], i: usize) -> (r: Option<i64>)
    requires
        i + 9 <= s@.len(),
    ensures
        r == dec_i64(s@.subrange(i as int, i + 9)),
{
    proof {
        let part = s@.subrange(i as int, i + 9);
        assert(part.skip(1) =~= s@.subrange(i + 1, i + 9));
        assert(part[0] == s@[i as int]);
    }
    let tag = s[i];
    let v = read_u64(s, i + 1);
    if tag == 0 {
        if v <= i64::MAX as u64 {
            Some(v as i64)
        } else {
            None
        }
    } else if tag == 1 {
        if 1 <= v && v <= 0x8000000000000000u64 {
            if v == 0x8000000000000000u64 {
                Some(i64::MIN)
            } else {
                Some(-(v as i64))
            }
        } else {
            None
        }
    } else {
        None
    }
}

fn read_opt(s: &[u8], i: usize) -> (r: Option<Option<u64>>)
    requires
        i + 9 <= s@.len(),
    ensures
        r == dec_opt(s@.subrange(i as int, i + 9)),
{
    proof {
        let part = s@.subrange(i as int, i + 9);
        assert(part.skip(1) =~= s@.subrange(i + 1, i + 9));
        assert(part[0] == s@[i as int]);
    }
    let tag = s[i];
    let v = read_u64(s, i + 1);
    if tag == 0 {
        if v == 0 {
            Some(None)
        } else {
            None
        }
    } else if tag == 1 {
        Some(Some(v))
    } else {
        None
    }
}

/// Deserializes stored bytes back into a record.
pub fn decode_record(s: &[u8]) -> (r: Option<BlockRecord>)
    ensures
        r == spec_decode(s@),
{
    if s.len() != 82 {
        return None;
    }
    let height = read_u64(s, 0);
    let ts = read_i64(s, 8);
    let tx_count = read_u64(s, 17);
    let valid_tx_count = read_u64(s, 25);
    let bt = read_opt(s, 33);
    let phase_begin = read_u64(s, 42);
    let phase_snapshot = read_u64(s, 50);
    let phase_end = read_u64(s, 58);
    let phase_commit = read_u64(s, 66);
    let phase_commit_evm = read_u64(s, 74);
    match (ts, bt) {
        (Some(timestamp), Some(block_time)) => Some(
            BlockRecord {
                height,
                timestamp,
                tx_count,
                valid_tx_count,
                block_time,
                phase_begin,
                phase_snapshot,
                phase_end,
                phase_commit,
                phase_commit_evm,
            },
        ),
        _ => None,
    }
}

} // verus!
