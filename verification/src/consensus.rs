//! The consensus-log parser: each line holding the marker `Executed block`
//! yields one fresh record, from a fixed-width timestamp at bytes 2..25
//! and whitespace-delimited `height=`, `validTxs=`, `invalidTxs=` tokens.

use vstd::prelude::*;
use crate::error::EtlError;
use crate::record::{fresh_record, BlockRecord};
use crate::text::{
    contains_bytes, contains_seq, dec_value, is_dec_u64, parse_u64, split_by, split_bytes,
    tokenize, tokens_of, views, bytes_eq,
};

verus! {

/// The marker `Executed block`.
pub open spec fn consensus_marker() -> Seq<u8> {
    seq![
        69, 120, 101, 99, 117, 116, 101, 100, 32, 98, 108, 111, 99, 107,
    ]
}

/// The key `height`.
pub open spec fn height_key() -> Seq<u8> {
    seq![104, 101, 105, 103, 104, 116]
}

/// The key `validTxs`.
pub open spec fn valid_key() -> Seq<u8> {
    seq![118, 97, 108, 105, 100, 84, 120, 115]
}

/// The key `invalidTxs`.
pub open spec fn invalid_key() -> Seq<u8> {
    seq![105, 110, 118, 97, 108, 105, 100, 84, 120, 115]
}

fn consensus_marker_vec() -> (v: Vec<u8>)
    ensures
        v@ == consensus_marker(),
{
    let v: Vec<u8> = vec![
        69, 120, 101, 99, 117, 116, 101, 100, 32, 98, 108, 111, 99, 107,
    ];
    proof {
        assert(v@ =~= consensus_marker());
    }
    v
}

fn height_key_vec() -> (v: Vec<u8>)
    ensures
        v@ == height_key(),
{
    let v: Vec<u8> = vec![104, 101, 105, 103, 104, 116];
    proof {
        assert(v@ =~= height_key());
    }
    v
}

fn valid_key_vec() -> (v: Vec<u8>)
    ensures
        v@ == valid_key(),
{
    let v: Vec<u8> = vec![118, 97, 108, 105, 100, 84, 120, 115];
    proof {
        assert(v@ =~= valid_key());
    }
    v
}

fn invalid_key_vec() -> (v: Vec<u8>)
    ensures
        v@ == invalid_key(),
{
    let v: Vec<u8> = vec![105, 110, 118, 97, 108, 105, 100, 84, 120, 115];
    proof {
        assert(v@ =~= invalid_key());
    }
    v
}

/// What `timestamp_of` names: the epoch seconds that chrono reads from a
/// `YYYY-MM-DD|HH:MM:SS.mmm` timestamp, `None` on a malformed one.
pub uninterp spec fn timestamp_of(s: Seq<u8>) -> Option<i64>;

/// Relies on chrono's `NaiveDateTime::parse_from_str` with the fixed
/// format `%Y-%m-%d|%H:%M:%S%.3f` followed by `DateTime::timestamp`
/// (non-leap seconds since the Unix epoch): a pure function of the
/// argument bytes, with no dependence on clock, locale or time zone.
#[verifier::external_body]
fn parse_timestamp(s: &[u8]) -> (r: Option<i64>)
    ensures
        r == timestamp_of(s@),
{
    match core::str::from_utf8(s) {
        Ok(t) => chrono::NaiveDateTime::parse_from_str(t, "%Y-%m-%d|%H:%M:%S%.3f").ok().map(
            |dt| dt.and_utc().timestamp(),
        ),
        Err(_) => None,
    }
}

/// The raw value of a `key=value` token: exactly one `=`, key matching.
pub open spec fn kv_value(tok: Seq<u8>, key: Seq<u8>) -> Option<Seq<u8>> {
    let parts = split_by(tok, 61);
    if parts.len() == 2 && parts[0] == key {
        Some(parts[1])
    } else {
        None
    }
}

/// The raw value of the last `key=value` token for `key`: a later
/// occurrence of the same key overwrites an earlier one.
pub open spec fn last_value_for(toks: Seq<Seq<u8>>, key: Seq<u8>) -> Option<Seq<u8>>
    decreases toks.len(),
{
    if toks.len() == 0 {
        None
    } else {
        match kv_value(toks.last(), key) {
            Some(v) => Some(v),
            None => last_value_for(toks.drop_last(), key),
        }
    }
}

/// The numeric value of the last `key=value` token, `None` when the key
/// is absent or its last value is not a `u64` decimal.
pub open spec fn spec_lookup(toks: Seq<Seq<u8>>, key: Seq<u8>) -> Option<u64> {
    match last_value_for(toks, key) {
        None => None,
        Some(raw) => if is_dec_u64(raw) {
            Some(dec_value(raw) as u64)
        } else {
            None
        },
    }
}

/// The numeric field `key` of a consensus-log line.
pub open spec fn parsed_field(line: Seq<u8>, key: Seq<u8>) -> Option<u64> {
    spec_lookup(tokens_of(line), key)
}

/// What one consensus-log line means.
///
/// A line without the marker is skipped.  A marked line must carry a
/// parsable fixed-width timestamp at bytes 2..25 and parsable `height`,
/// `validTxs` and `invalidTxs` tokens whose transaction counts fit when
/// summed; anything else is a fatal format violation.
pub open spec fn consensus_line_spec(line: Seq<u8>) -> Result<Option<BlockRecord>, EtlError> {
    if !contains_seq(line, consensus_marker()) {
        Ok(None)
    } else if line.len() < 25 {
        Err(EtlError::ConsensusFormat)
    } else {
        let ts = timestamp_of(line.subrange(2, 25));
        let h = parsed_field(line, height_key());
        let v = parsed_field(line, valid_key());
        let iv = parsed_field(line, invalid_key());
        if ts is Some && h is Some && v is Some && iv is Some && v->Some_0 + iv->Some_0
            <= u64::MAX {
            Ok(Some(fresh_record(h->Some_0, ts->Some_0, v->Some_0, iv->Some_0)))
        } else {
            Err(EtlError::ConsensusFormat)
        }
    }
}

fn last_value(toks: &Vec<Vec<u8>>, key: &[u8]) -> (r: Option<Vec<u8>>)
    ensures
        match r {
            Some(v) => last_value_for(views(toks@), key@) == Some(v@),
            None => last_value_for(views(toks@), key@) is None,
        },
{
    let mut cur: Option<Vec<u8>> = None;
    let mut i: usize = 0;
    proof {
        assert(views(toks@.take(0)) =~= Seq::<Seq<u8>>::empty());
    }
    while i < toks.len()
        invariant
            0 <= i <= toks@.len(),
            match cur {
                Some(c) => last_value_for(views(toks@.take(i as int)), key@) == Some(c@),
                None => last_value_for(views(toks@.take(i as int)), key@) is None,
            },
        decreases toks@.len() - i,
    {
        let ghost pre = views(toks@.take(i as int));
        let tok = &toks[i];
        let mut parts = split_bytes(tok.as_slice(), 61);
        proof {
            assert(views(toks@.take(i + 1)) =~= pre.push(tok@));
            assert(views(toks@.take(i + 1)).last() == tok@);
            assert(views(toks@.take(i + 1)).drop_last() =~= pre);
        }
        if parts.len() == 2 {
            let v = parts.pop().unwrap();
            proof {
                assert(views(parts@.push(v)) =~= views(parts@).push(v@));
                assert(views(parts@)[0] == parts@[0]@);
            }
            if bytes_eq(parts[0].as_slice(), key) {
                proof {
                    assert(kv_value(tok@, key@) == Some(v@));
                }
                cur = Some(v);
            } else {
                proof {
                    assert(kv_value(tok@, key@) is None);
                }
            }
        } else {
            proof {
                assert(views(parts@).len() != 2);
                assert(kv_value(tok@, key@) is None);
            }
        }
        i = i + 1;
    }
    proof {
        assert(toks@.take(toks@.len() as int) =~= toks@);
    }
    cur
}

fn lookup_field(toks: &Vec<Vec<u8>>, key: &[u8]) -> (r: Option<u64>)
    ensures
        r == spec_lookup(views(toks@), key@),
{
    match last_value(toks, key) {
        None => None,
        Some(raw) => parse_u64(raw.as_slice()),
    }
}

/// Parses one consensus-log line, returning the fresh record of a marked
/// line, `None` for an unmarked one, and the fatal format error exactly
/// when a marked line is malformed.
pub fn parse_consensus_line(line: &[u8]) -> (r: Result<Option<BlockRecord>, EtlError>)
    ensures
        r == consensus_line_spec(line@),
{
    let marker = consensus_marker_vec();
    if !contains_bytes(line, marker.as_slice()) {
        return Ok(None);
    }
    if line.len() < 25 {
        return Err(EtlError::ConsensusFormat);
    }
    let ts = parse_timestamp(vstd::slice::slice_subrange(line, 2, 25));
    let toks = tokenize(line);
    let h = lookup_field(&toks, height_key_vec().as_slice());
    let v = lookup_field(&toks, valid_key_vec().as_slice());
    let iv = lookup_field(&toks, invalid_key_vec().as_slice());
    match (ts, h, v, iv) {
        (Some(t), Some(hv), Some(vv), Some(iw)) => {
            if vv <= u64::MAX - iw {
                Ok(Some(BlockRecord::fresh(hv, t, vv, iw)))
            } else {
                Err(EtlError::ConsensusFormat)
            }
        },
        _ => Err(EtlError::ConsensusFormat),
    }
}

/// Parsed counts compose exactly: a record the consensus parser creates
/// carries `valid_tx_count` equal to the line's `validTxs` field and
/// `tx_count` equal to `validTxs + invalidTxs`.
pub proof fn lemma_consensus_tx_counts(line: Seq<u8>)
    requires
        consensus_line_spec(line) matches Ok(Some(_)),
    ensures
        ({
            let r = consensus_line_spec(line)->Ok_0->Some_0;
            &&& parsed_field(line, height_key()) == Some(r.height)
            &&& parsed_field(line, valid_key()) == Some(r.valid_tx_count)
            &&& r.tx_count == parsed_field(line, valid_key())->Some_0 + parsed_field(
                line,
                invalid_key(),
            )->Some_0
            &&& r.timestamp == timestamp_of(line.subrange(2, 25))->Some_0
            &&& r.block_time is None
        }),
{
}

} // verus!
