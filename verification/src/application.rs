//! The application-log parser: each line holding the marker `tps,` is cut
//! after a 52-byte header, split on commas, and its trimmed last field is
//! matched against one of three phase markers.  A matched line yields a
//! partial field-update keyed by the height in its `td_height <N>` field.

use vstd::prelude::*;
use crate::error::EtlError;
use crate::record::BlockRecord;
use crate::text::{
    contains_bytes, contains_seq, dec_value, is_dec_u64, parse_u64, split_by, split_bytes,
    tokenize, tokens_of, trim_bytes, trim_of, views, bytes_eq,
};

verus! {

/// The marker `tps,`.
pub open spec fn app_marker() -> Seq<u8> {
    seq![116, 112, 115, 44]
}

/// The trailing marker `end of begin_block`.
pub open spec fn begin_marker() -> Seq<u8> {
    seq![101, 110, 100, 32, 111, 102, 32, 98, 101, 103, 105, 110, 95, 98, 108, 111, 99, 107]
}

/// The trailing marker `end of end_block`.
pub open spec fn end_marker() -> Seq<u8> {
    seq![101, 110, 100, 32, 111, 102, 32, 101, 110, 100, 95, 98, 108, 111, 99, 107]
}

/// The trailing marker `end of commit`.
pub open spec fn commit_marker() -> Seq<u8> {
    seq![101, 110, 100, 32, 111, 102, 32, 99, 111, 109, 109, 105, 116]
}

fn app_marker_vec() -> (v: Vec<u8>)
    ensures
        v@ == app_marker(),
{
    let v: Vec<u8> = vec![116, 112, 115, 44];
    proof {
        assert(v@ =~= app_marker());
    }
    v
}

fn begin_marker_vec() -> (v: Vec<u8>)
    ensures
        v@ == begin_marker(),
{
    let v: Vec<u8> = vec![
        101, 110, 100, 32, 111, 102, 32, 98, 101, 103, 105, 110, 95, 98, 108, 111, 99, 107,
    ];
    proof {
        assert(v@ =~= begin_marker());
    }
    v
}

fn end_marker_vec() -> (v: Vec<u8>)
    ensures
        v@ == end_marker(),
{
    let v: Vec<u8> = vec![
        101, 110, 100, 32, 111, 102, 32, 101, 110, 100, 95, 98, 108, 111, 99, 107,
    ];
    proof {
        assert(v@ =~= end_marker());
    }
    v
}

fn commit_marker_vec() -> (v: Vec<u8>)
    ensures
        v@ == commit_marker(),
{
    let v: Vec<u8> = vec![101, 110, 100, 32, 111, 102, 32, 99, 111, 109, 109, 105, 116];
    proof {
        assert(v@ =~= commit_marker());
    }
    v
}

/// A partial field-update for the record at one height: each variant
/// touches only the phase durations it names.
#[derive(Clone, Copy, Debug, PartialEq, Eq, Structural)]
pub enum PhaseUpdate {
    /// Sets `phase_snapshot` and `phase_begin`.
    BeginBlock { height: u64, snapshot: u64, begin: u64 },
    /// Sets `phase_end`.
    EndBlock { height: u64, end: u64 },
    /// Sets `phase_commit_evm` and `phase_commit`.
    Commit { height: u64, commit_evm: u64, commit: u64 },
}

/// The height an update is keyed by.
pub open spec fn update_height(u: PhaseUpdate) -> u64 {
    match u {
        PhaseUpdate::BeginBlock { height, .. } => height,
        PhaseUpdate::EndBlock { height, .. } => height,
        PhaseUpdate::Commit { height, .. } => height,
    }
}

/// The record after one update: the named phase fields are overwritten,
/// every other field is kept.
pub open spec fn updated_record(r: BlockRecord, u: PhaseUpdate) -> BlockRecord {
    match u {
        PhaseUpdate::BeginBlock { height, snapshot, begin } => BlockRecord {
            phase_snapshot: snapshot,
            phase_begin: begin,
            ..r
        },
        PhaseUpdate::EndBlock { height, end } => BlockRecord { phase_end: end, ..r },
        PhaseUpdate::Commit { height, commit_evm, commit } => BlockRecord {
            phase_commit_evm: commit_evm,
            phase_commit: commit,
            ..r
        },
    }
}

/// The height of a `td_height <N>` field: its second whitespace token,
/// as a decimal.
pub open spec fn td_height_of(field: Seq<u8>) -> Option<u64> {
    let toks = tokens_of(field);
    if toks.len() < 2 {
        None
    } else if is_dec_u64(toks[1]) {
        Some(dec_value(toks[1]) as u64)
    } else {
        None
    }
}

/// The numeric value of comma-field `i`.
pub open spec fn field_u64(fields: Seq<Seq<u8>>, i: int) -> Option<u64> {
    if is_dec_u64(fields[i]) {
        Some(dec_value(fields[i]) as u64)
    } else {
        None
    }
}

/// What one application-log line means.
///
/// A line without the marker, or whose trimmed last comma-field is not
/// one of the three phase markers, is skipped.  A matched line must be at
/// least 52 bytes, have enough comma-fields for its marker, a parsable
/// `td_height` and parsable durations; anything else is a fatal format
/// violation.
pub open spec fn app_line_spec(line: Seq<u8>) -> Result<Option<PhaseUpdate>, EtlError> {
    if !contains_seq(line, app_marker()) {
        Ok(None)
    } else if line.len() < 52 {
        Err(EtlError::ApplicationFormat)
    } else {
        let fields = split_by(line.skip(52), 44);
        let tail = trim_of(fields.last());
        if tail == begin_marker() {
            if fields.len() < 4 {
                Err(EtlError::ApplicationFormat)
            } else {
                let h = td_height_of(fields[fields.len() - 2]);
                let snap = field_u64(fields, 2);
                let beg = field_u64(fields, 3);
                if h is Some && snap is Some && beg is Some {
                    Ok(
                        Some(
                            PhaseUpdate::BeginBlock {
                                height: h->Some_0,
                                snapshot: snap->Some_0,
                                begin: beg->Some_0,
                            },
                        ),
                    )
                } else {
                    Err(EtlError::ApplicationFormat)
                }
            }
        } else if tail == end_marker() {
            if fields.len() < 3 {
                Err(EtlError::ApplicationFormat)
            } else {
                let h = td_height_of(fields[fields.len() - 2]);
                let e = field_u64(fields, 2);
                if h is Some && e is Some {
                    Ok(Some(PhaseUpdate::EndBlock { height: h->Some_0, end: e->Some_0 }))
                } else {
                    Err(EtlError::ApplicationFormat)
                }
            }
        } else if tail == commit_marker() {
            if fields.len() < 5 {
                Err(EtlError::ApplicationFormat)
            } else {
                let h = td_height_of(fields[fields.len() - 2]);
                let cevm = field_u64(fields, 3);
                let c = field_u64(fields, 4);
                if h is Some && cevm is Some && c is Some {
                    Ok(
                        Some(
                            PhaseUpdate::Commit {
                                height: h->Some_0,
                                commit_evm: cevm->Some_0,
                                commit: c->Some_0,
                            },
                        ),
                    )
                } else {
                    Err(EtlError::ApplicationFormat)
                }
            }
        } else {
            Ok(None)
        }
    }
}

fn td_height_exec(field: &Vec<u8>) -> (r: Option<u64>)
    ensures
        r == td_height_of(field@),
{
    let toks = tokenize(field.as_slice());
    if toks.len() < 2 {
        None
    } else {
        proof {
            assert(views(toks@)[1] == toks@[1]@);
        }
        parse_u64(toks[1].as_slice())
    }
}

fn field_u64_exec(fields: &Vec<Vec<u8>>, i: usize) -> (r: Option<u64>)
    requires
        i < fields@.len(),
    ensures
        r == field_u64(views(fields@), i as int),
{
    proof {
        assert(views(fields@)[i as int] == fields@[i as int]@);
    }
    parse_u64(fields[i].as_slice())
}

/// Parses one application-log line, returning the phase update of a
/// matched line, `None` for an irrelevant one, and the fatal format
/// error exactly when a matched line is malformed.
pub fn parse_application_line(line: &[u8]) -> (r: Result<Option<PhaseUpdate>, EtlError>)
    ensures
        r == app_line_spec(line@),
{
    let marker = app_marker_vec();
    if !contains_bytes(line, marker.as_slice()) {
        return Ok(None);
    }
    if line.len() < 52 {
        return Err(EtlError::ApplicationFormat);
    }
    let suffix = vstd::slice::slice_subrange(line, 52, line.len());
    proof {
        assert(suffix@ =~= line@.skip(52));
    }
    let fields = split_bytes(suffix, 44);
    let n = fields.len();
    proof {
        assert(views(fields@)[n - 1] == fields@[n - 1]@);
        assert(views(fields@).last() == fields@[n - 1]@);
    }
    let tail = trim_bytes(fields[n - 1].as_slice());
    if bytes_eq(tail, begin_marker_vec().as_slice()) {
        if n < 4 {
            return Err(EtlError::ApplicationFormat);
        }
        proof {
            assert(views(fields@)[n - 2] == fields@[n - 2]@);
        }
        let h = td_height_exec(&fields[n - 2]);
        let snap = field_u64_exec(&fields, 2);
        let beg = field_u64_exec(&fields, 3);
        match (h, snap, beg) {
            (Some(height), Some(snapshot), Some(begin)) => Ok(
                Some(PhaseUpdate::BeginBlock { height, snapshot, begin }),
            ),
            _ => Err(EtlError::ApplicationFormat),
        }
    } else if bytes_eq(tail, end_marker_vec().as_slice()) {
        if n < 3 {
            return Err(EtlError::ApplicationFormat);
        }
        proof {
            assert(views(fields@)[n - 2] == fields@[n - 2]@);
        }
        let h = td_height_exec(&fields[n - 2]);
        let e = field_u64_exec(&fields, 2);
        match (h, e) {
            (Some(height), Some(end)) => Ok(Some(PhaseUpdate::EndBlock { height, end })),
            _ => Err(EtlError::ApplicationFormat),
        }
    } else if bytes_eq(tail, commit_marker_vec().as_slice()) {
        if n < 5 {
            return Err(EtlError::ApplicationFormat);
        }
        proof {
            assert(views(fields@)[n - 2] == fields@[n - 2]@);
        }
        let h = td_height_exec(&fields[n - 2]);
        let cevm = field_u64_exec(&fields, 3);
        let c = field_u64_exec(&fields, 4);
        match (h, cevm, c) {
            (Some(height), Some(commit_evm), Some(commit)) => Ok(
                Some(PhaseUpdate::Commit { height, commit_evm, commit }),
            ),
            _ => Err(EtlError::ApplicationFormat),
        }
    } else {
        Ok(None)
    }
}

} // verus!
