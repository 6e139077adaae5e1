//! The merge engine: mediates every read and write of the record store
//! (a key-value map from height to encoded record bytes) and tracks the
//! observed height range across record creation.

use vstd::prelude::*;
use std::collections::HashMap;
use crate::application::{update_height, updated_record, PhaseUpdate};
use crate::codec::{decode_record, encode_record, lemma_decode_encode, spec_decode, spec_encode};
use crate::record::BlockRecord;

verus! {

broadcast use vstd::std_specs::hash::group_hash_axioms;

pub open spec fn min_u64(a: u64, b: u64) -> u64 {
    if a <= b {
        a
    } else {
        b
    }
}

pub open spec fn max_u64(a: u64, b: u64) -> u64 {
    if a >= b {
        a
    } else {
        b
    }
}

/// A record-store update keyed by height: applied only when the height
/// already has a record, a no-op otherwise.
pub open spec fn apply_update_spec(m: Map<u64, BlockRecord>, u: PhaseUpdate) -> Map<
    u64,
    BlockRecord,
> {
    let h = update_height(u);
    if m.contains_key(h) {
        m.insert(h, updated_record(m[h], u))
    } else {
        m
    }
}

/// Field isolation of partial updates: an update never creates or
/// removes a height, never touches any other height's record, and on
/// its own height overwrites only the phase fields its variant names —
/// identity, timestamp, transaction counts, block time and the phases
/// of the other variants are kept.
pub proof fn lemma_update_isolation(m: Map<u64, BlockRecord>, u: PhaseUpdate)
    ensures
        apply_update_spec(m, u).dom() == m.dom(),
        forall|h: u64|
            h != update_height(u) && m.contains_key(h) ==> apply_update_spec(m, u)[h] == m[h],
        m.contains_key(update_height(u)) ==> ({
            let r0 = m[update_height(u)];
            let r1 = apply_update_spec(m, u)[update_height(u)];
            &&& r1.height == r0.height
            &&& r1.timestamp == r0.timestamp
            &&& r1.tx_count == r0.tx_count
            &&& r1.valid_tx_count == r0.valid_tx_count
            &&& r1.block_time == r0.block_time
            &&& (u matches PhaseUpdate::BeginBlock { .. } ==> r1.phase_end == r0.phase_end
                && r1.phase_commit == r0.phase_commit && r1.phase_commit_evm
                == r0.phase_commit_evm)
            &&& (u matches PhaseUpdate::EndBlock { .. } ==> r1.phase_begin == r0.phase_begin
                && r1.phase_snapshot == r0.phase_snapshot && r1.phase_commit == r0.phase_commit
                && r1.phase_commit_evm == r0.phase_commit_evm)
            &&& (u matches PhaseUpdate::Commit { .. } ==> r1.phase_begin == r0.phase_begin
                && r1.phase_snapshot == r0.phase_snapshot && r1.phase_end == r0.phase_end)
        }),
{
    assert(apply_update_spec(m, u).dom() =~= m.dom());
}

/// The store plus the observed height range.  Values are stored as
/// encoded bytes; every access is a full decode-mutate-encode cycle.
pub struct MergeEngine {
    store: HashMap<u64, Vec<u8>>,
    min_height: u64,
    max_height: u64,
}

impl MergeEngine {
    /// The records the store holds, by height.
    pub closed spec fn records(&self) -> Map<u64, BlockRecord> {
        Map::new(
            |h: u64| self.store@.contains_key(h),
            |h: u64| spec_decode(self.store@[h]@)->Some_0,
        )
    }

    /// The smallest height created so far (`u64::MAX` before the first).
    pub closed spec fn lo(&self) -> u64 {
        self.min_height
    }

    /// The largest height created so far (0 before the first).
    pub closed spec fn hi(&self) -> u64 {
        self.max_height
    }

    /// The serialized values the store holds, by height.
    pub closed spec fn stored_bytes(&self) -> Map<u64, Seq<u8>> {
        self.store@.map_values(|v: Vec<u8>| v@)
    }

    /// Every stored value is the canonical encoding of a record whose
    /// height is its key, inside the observed range.
    pub closed spec fn wf(&self) -> bool {
        forall|h: u64|
            #[trigger] self.store@.contains_key(h) ==> {
                &&& spec_decode(self.store@[h]@) is Some
                &&& spec_decode(self.store@[h]@)->Some_0.height == h
                &&& self.store@[h]@ == spec_encode(spec_decode(self.store@[h]@)->Some_0)
                &&& self.min_height <= h <= self.max_height
            }
    }

    /// An empty store with the range poised so that the first record
    /// narrows it: `[u64::MAX, 0]` denotes no observed heights.
    pub fn new() -> (e: MergeEngine)
        ensures
            e.wf(),
            e.records() == Map::<u64, BlockRecord>::empty(),
            e.lo() == u64::MAX,
            e.hi() == 0,
    {
        let e = MergeEngine { store: HashMap::new(), min_height: u64::MAX, max_height: 0 };
        proof {
            assert(e.records() =~= Map::<u64, BlockRecord>::empty());
        }
        e
    }

    /// Stores a record under its height, overwriting any prior value,
    /// and widens the observed range to cover it.
    pub fn create_record(&mut self, r: BlockRecord)
        requires
            old(self).wf(),
        ensures
            final(self).wf(),
            final(self).records() == old(self).records().insert(r.height, r),
            final(self).lo() == min_u64(old(self).lo(), r.height),
            final(self).hi() == max_u64(old(self).hi(), r.height),
    {
        let bytes = encode_record(&r);
        self.store.insert(r.height, bytes);
        if r.height < self.min_height {
            self.min_height = r.height;
        }
        if r.height > self.max_height {
            self.max_height = r.height;
        }
        proof {
            lemma_decode_encode(r);
            assert(self.records() =~= old(self).records().insert(r.height, r));
        }
    }

    /// Reads the record at `h`, `None` when the height was never created.
    pub fn get_record(&self, h: u64) -> (r: Option<BlockRecord>)
        requires
            self.wf(),
        ensures
            match r {
                Some(rec) => self.records().contains_key(h) && rec == self.records()[h]
                    && rec.height == h && self.lo() <= h <= self.hi(),
                None => !self.records().contains_key(h),
            },
    {
        match self.store.get(&h) {
            None => None,
            Some(bytes) => {
                proof {
                    assert(self.store@.contains_key(h));
                }
                let rec = decode_record(bytes.as_slice());
                Some(rec.unwrap())
            },
        }
    }

    /// The lower end of the observed height range.
    pub fn range_lo(&self) -> (h: u64)
        ensures
            h == self.lo(),
    {
        self.min_height
    }

    /// The upper end of the observed height range.
    pub fn range_hi(&self) -> (h: u64)
        ensures
            h == self.hi(),
    {
        self.max_height
    }

    /// Read-modify-write for one phase update: a no-op when the height
    /// has no record, never a creation; the range is not extended.
    pub fn apply_update(&mut self, u: PhaseUpdate)
        requires
            old(self).wf(),
        ensures
            final(self).wf(),
            final(self).records() == apply_update_spec(old(self).records(), u),
            final(self).lo() == old(self).lo(),
            final(self).hi() == old(self).hi(),
    {
        let h = u.height();
        match self.get_record(h) {
            None => {
                proof {
                    assert(self.records() =~= apply_update_spec(self.records(), u));
                }
            },
            Some(rec) => {
                let newr = u.apply_to(&rec);
                let bytes = encode_record(&newr);
                self.store.insert(h, bytes);
                proof {
                    lemma_decode_encode(newr);
                    assert(self.records() =~= apply_update_spec(old(self).records(), u));
                }
            },
        }
    }
}

/// The stored bytes are determined by the records alone: two
/// well-formed stores holding the same records hold byte-identical
/// values, so a re-run that reproduces the records reproduces the
/// stored bytes exactly.
pub proof fn lemma_stored_bytes_determined(a: MergeEngine, b: MergeEngine)
    requires
        a.wf(),
        b.wf(),
        a.records() == b.records(),
    ensures
        a.stored_bytes() == b.stored_bytes(),
{
    assert forall|h: u64|
        a.stored_bytes().dom().contains(h) <==> b.stored_bytes().dom().contains(h) by {
        assert(a.store@.contains_key(h) <==> a.records().contains_key(h));
        assert(b.store@.contains_key(h) <==> b.records().contains_key(h));
        assert(a.stored_bytes().dom().contains(h) <==> a.store@.contains_key(h));
        assert(b.stored_bytes().dom().contains(h) <==> b.store@.contains_key(h));
    }
    assert(a.stored_bytes().dom() =~= b.stored_bytes().dom());
    assert forall|h: u64|
        a.stored_bytes().dom().contains(h) implies a.stored_bytes()[h]
            == b.stored_bytes().index(h) by {
        assert(a.records().contains_key(h));
        assert(b.records().contains_key(h));
        assert(a.stored_bytes()[h] == spec_encode(a.records()[h]));
        assert(b.stored_bytes()[h] == spec_encode(b.records()[h]));
    }
    assert(a.stored_bytes() =~= b.stored_bytes());
}

impl PhaseUpdate {
    /// The height this update is keyed by.
    pub fn height(&self) -> (h: u64)
        ensures
            h == update_height(*self),
    {
        match self {
            PhaseUpdate::BeginBlock { height, .. } => *height,
            PhaseUpdate::EndBlock { height, .. } => *height,
            PhaseUpdate::Commit { height, .. } => *height,
        }
    }

    /// The record after this update: only the named phase fields change.
    pub fn apply_to(&self, r: &BlockRecord) -> (out: BlockRecord)
        ensures
            out == updated_record(*r, *self),
    {
        match self {
            PhaseUpdate::BeginBlock { height: _, snapshot, begin } => BlockRecord {
                phase_snapshot: *snapshot,
                phase_begin: *begin,
                ..*r
            },
            PhaseUpdate::EndBlock { height: _, end } => BlockRecord { phase_end: *end, ..*r },
            PhaseUpdate::Commit { height: _, commit_evm, commit } => BlockRecord {
                phase_commit_evm: *commit_evm,
                phase_commit: *commit,
                ..*r
            },
        }
    }
}

} // verus!
