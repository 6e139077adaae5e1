//! The sole domain entity: one performance record per block height.

use vstd::prelude::*;

verus! {

/// A per-block performance record.
///
/// `height` is the primary key, assigned once at creation.  `timestamp`,
/// `tx_count` and `valid_tx_count` are set at creation from the consensus
/// log.  `block_time` stays `None` until the derive pass, and is left
/// `None` when the previous block's timestamp is greater than this one's.
/// The five phase durations default to 0 and are filled in by up to three
/// separate application-log updates.
#[derive(Clone, Copy, Debug, PartialEq, Eq)]
pub struct BlockRecord {
    pub height: u64,
    pub timestamp: i64,
    pub tx_count: u64,
    pub valid_tx_count: u64,
    pub block_time: Option<u64>,
    pub phase_begin: u64,
    pub phase_snapshot: u64,
    pub phase_end: u64,
    pub phase_commit: u64,
    pub phase_commit_evm: u64,
}

/// The record the consensus-log pass creates for a freshly observed block:
/// `tx_count` is the sum of valid and invalid transactions, `block_time`
/// is unset, and every phase duration is 0.
pub open spec fn fresh_record(height: u64, timestamp: i64, valid: u64, invalid: u64) -> BlockRecord {
    BlockRecord {
        height,
        timestamp,
        tx_count: (valid + invalid) as u64,
        valid_tx_count: valid,
        block_time: None,
        phase_begin: 0,
        phase_snapshot: 0,
        phase_end: 0,
        phase_commit: 0,
        phase_commit_evm: 0,
    }
}

impl BlockRecord {
    /// Builds the initial record for a block, as created by the
    /// consensus-log pass.
    pub fn fresh(height: u64, timestamp: i64, valid: u64, invalid: u64) -> (r: BlockRecord)
        requires
            valid + invalid <= u64::MAX,
        ensures
            r == fresh_record(height, timestamp, valid, invalid),
    {
        BlockRecord {
            height,
            timestamp,
            tx_count: valid + invalid,
            valid_tx_count: valid,
            block_time: None,
            phase_begin: 0,
            phase_snapshot: 0,
            phase_end: 0,
            phase_commit: 0,
            phase_commit_evm: 0,
        }
    }
}

} // verus!
