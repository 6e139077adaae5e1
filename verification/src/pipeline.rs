//! The four passes in order: consensus-log ingestion, application-log
//! ingestion, block-time derivation, and the composition of the whole
//! run into one function from the two line streams to the report.

use vstd::prelude::*;
use crate::application::{app_line_spec, parse_application_line};
use crate::consensus::{consensus_line_spec, parse_consensus_line};
use crate::engine::{apply_update_spec, max_u64, min_u64, MergeEngine};
use crate::error::EtlError;
use crate::record::BlockRecord;
use crate::report::{report_lines_spec, run_report};
use crate::text::views;

verus! {

/// The merge-engine state a consensus record moves through: records map,
/// then the two ends of the observed range.
pub open spec fn consensus_step(st: (Map<u64, BlockRecord>, u64, u64), r: BlockRecord) -> (
    Map<u64, BlockRecord>,
    u64,
    u64,
) {
    (st.0.insert(r.height, r), min_u64(st.1, r.height), max_u64(st.2, r.height))
}

/// The consensus pass over a line stream: each marked line stores its
/// fresh record (overwriting any prior record at that height) and widens
/// the range; the first malformed marked line aborts the pass.
pub open spec fn consensus_pass_spec(
    st: (Map<u64, BlockRecord>, u64, u64),
    lines: Seq<Seq<u8>>,
) -> Result<(Map<u64, BlockRecord>, u64, u64), EtlError>
    decreases lines.len(),
{
    if lines.len() == 0 {
        Ok(st)
    } else {
        match consensus_line_spec(lines[0]) {
            Err(e) => Err(e),
            Ok(None) => consensus_pass_spec(st, lines.skip(1)),
            Ok(Some(r)) => consensus_pass_spec(consensus_step(st, r), lines.skip(1)),
        }
    }
}

/// The application pass over a line stream: each matched line updates
/// the record at its height if one exists (a no-op otherwise, never a
/// creation); the first malformed matched line aborts the pass.  The
/// observed range is not extended.
pub open spec fn app_pass_spec(m: Map<u64, BlockRecord>, lines: Seq<Seq<u8>>) -> Result<
    Map<u64, BlockRecord>,
    EtlError,
>
    decreases lines.len(),
{
    if lines.len() == 0 {
        Ok(m)
    } else {
        match app_line_spec(lines[0]) {
            Err(e) => Err(e),
            Ok(None) => app_pass_spec(m, lines.skip(1)),
            Ok(Some(u)) => app_pass_spec(apply_update_spec(m, u), lines.skip(1)),
        }
    }
}

/// The record at `h` after the derive pass over `[lo, hi]`: when `h` and
/// its predecessor both have records and the timestamps do not run
/// backwards, `block_time` becomes their difference; otherwise the
/// record is untouched.  `lo` itself has no predecessor in range and is
/// never touched.
pub open spec fn derived_rec(m: Map<u64, BlockRecord>, lo: u64, hi: u64, h: u64) -> BlockRecord {
    let r = m[h];
    if lo < h <= hi && m.contains_key(h) && m.contains_key((h - 1) as u64) && r.timestamp
        >= m[(h - 1) as u64].timestamp {
        BlockRecord {
            block_time: Some((r.timestamp - m[(h - 1) as u64].timestamp) as u64),
            ..r
        }
    } else {
        r
    }
}

/// The whole store after the derive pass: same heights, each record
/// derived pointwise.
pub open spec fn derived_map(m: Map<u64, BlockRecord>, lo: u64, hi: u64) -> Map<u64, BlockRecord> {
    Map::new(|h: u64| m.contains_key(h), |h: u64| derived_rec(m, lo, hi, h))
}

spec fn partial_derived(m: Map<u64, BlockRecord>, lo: u64, hi: u64, upto: u64) -> Map<
    u64,
    BlockRecord,
> {
    Map::new(
        |k: u64| m.contains_key(k),
        |k: u64|
            if k <= upto {
                derived_rec(m, lo, hi, k)
            } else {
                m[k]
            },
    )
}

/// Runs the consensus-log pass against the engine.
pub fn run_consensus_pass(e: &mut MergeEngine, lines: &Vec<Vec<u8>>) -> (r: Result<(), EtlError>)
    requires
        old(e).wf(),
    ensures
        final(e).wf(),
        match r {
            Ok(()) => consensus_pass_spec(
                (old(e).records(), old(e).lo(), old(e).hi()),
                views(lines@),
            ) == Ok::<_, EtlError>((final(e).records(), final(e).lo(), final(e).hi())),
            Err(err) => consensus_pass_spec(
                (old(e).records(), old(e).lo(), old(e).hi()),
                views(lines@),
            ) == Err::<(Map<u64, BlockRecord>, u64, u64), _>(err),
        },
{
    let ghost st0 = (e.records(), e.lo(), e.hi());
    let ghost vl = views(lines@);
    let mut i: usize = 0;
    proof {
        assert(vl.skip(0) =~= vl);
    }
    while i < lines.len()
        invariant
            e.wf(),
            0 <= i <= lines@.len(),
            vl == views(lines@),
            st0 == (old(e).records(), old(e).lo(), old(e).hi()),
            consensus_pass_spec(st0, vl) == consensus_pass_spec(
                (e.records(), e.lo(), e.hi()),
                vl.skip(i as int),
            ),
        decreases lines@.len() - i,
    {
        proof {
            assert(vl[i as int] == lines@[i as int]@);
            assert(vl.skip(i as int)[0] == vl[i as int]);
            assert(vl.skip(i as int).skip(1) =~= vl.skip(i + 1));
        }
        match parse_consensus_line(lines[i].as_slice()) {
            Err(err) => {
                proof {
                    assert(consensus_pass_spec(
                        (e.records(), e.lo(), e.hi()),
                        vl.skip(i as int),
                    ) == Err::<(Map<u64, BlockRecord>, u64, u64), EtlError>(err));
                }
                return Err(err);
            },
            Ok(None) => {},
            Ok(Some(r)) => {
                e.create_record(r);
            },
        }
        i = i + 1;
    }
    proof {
        assert(vl.skip(lines@.len() as int) =~= Seq::<Seq<u8>>::empty());
    }
    Ok(())
}

/// Runs the application-log pass against the engine.
pub fn run_application_pass(e: &mut MergeEngine, lines: &Vec<Vec<u8>>) -> (r: Result<
    (),
    EtlError,
>)
    requires
        old(e).wf(),
    ensures
        final(e).wf(),
        final(e).lo() == old(e).lo(),
        final(e).hi() == old(e).hi(),
        match r {
            Ok(()) => app_pass_spec(old(e).records(), views(lines@)) == Ok::<_, EtlError>(
                final(e).records(),
            ),
            Err(err) => app_pass_spec(old(e).records(), views(lines@)) == Err::<
                Map<u64, BlockRecord>,
                _,
            >(err),
        },
{
    let ghost m0 = e.records();
    let ghost vl = views(lines@);
    let mut i: usize = 0;
    proof {
        assert(vl.skip(0) =~= vl);
    }
    while i < lines.len()
        invariant
            e.wf(),
            0 <= i <= lines@.len(),
            vl == views(lines@),
            m0 == old(e).records(),
            e.lo() == old(e).lo(),
            e.hi() == old(e).hi(),
            app_pass_spec(m0, vl) == app_pass_spec(e.records(), vl.skip(i as int)),
        decreases lines@.len() - i,
    {
        proof {
            assert(vl[i as int] == lines@[i as int]@);
            assert(vl.skip(i as int)[0] == vl[i as int]);
            assert(vl.skip(i as int).skip(1) =~= vl.skip(i + 1));
        }
        match parse_application_line(lines[i].as_slice()) {
            Err(err) => {
                proof {
                    assert(app_pass_spec(e.records(), vl.skip(i as int)) == Err::<
                        Map<u64, BlockRecord>,
                        EtlError,
                    >(err));
                }
                return Err(err);
            },
            Ok(None) => {},
            Ok(Some(u)) => {
                e.apply_update(u);
            },
        }
        i = i + 1;
    }
    proof {
        assert(vl.skip(lines@.len() as int) =~= Seq::<Seq<u8>>::empty());
    }
    Ok(())
}

/// Runs the block-time derive pass over the engine's observed range,
/// in ascending height order, mutating the store in place.
pub fn run_derive_pass(e: &mut MergeEngine)
    requires
        old(e).wf(),
    ensures
        final(e).wf(),
        final(e).records() == derived_map(old(e).records(), old(e).lo(), old(e).hi()),
        final(e).lo() == old(e).lo(),
        final(e).hi() == old(e).hi(),
{
    let lo = e.range_lo();
    let hi = e.range_hi();
    let ghost m0 = e.records();
    if lo >= hi {
        proof {
            assert(e.records() =~= derived_map(m0, lo, hi));
        }
        return;
    }
    let mut h = lo;
    proof {
        assert(e.records() =~= partial_derived(m0, lo, hi, h));
    }
    while h < hi
        invariant
            e.wf(),
            e.lo() == lo,
            e.hi() == hi,
            lo <= h <= hi,
            lo < hi,
            e.records() == partial_derived(m0, lo, hi, h),
        decreases hi - h,
    {
        h = h + 1;
        let prev = e.get_record(h - 1);
        let cur = e.get_record(h);
        match (prev, cur) {
            (Some(p), Some(c)) => {
                proof {
                    assert(c == m0[h]);
                    assert(m0.contains_key((h - 1) as u64));
                    assert(p.timestamp == m0[(h - 1) as u64].timestamp);
                }
                if c.timestamp >= p.timestamp {
                    let diff: i128 = (c.timestamp as i128) - (p.timestamp as i128);
                    let bt: u64 = diff as u64;
                    proof {
                        assert(0 <= c.timestamp - p.timestamp <= u64::MAX);
                        assert(bt == c.timestamp - p.timestamp);
                    }
                    let newr = BlockRecord { block_time: Some(bt), ..c };
                    proof {
                        assert(newr == derived_rec(m0, lo, hi, h));
                    }
                    e.create_record(newr);
                    proof {
                        assert(e.records() =~= partial_derived(m0, lo, hi, h));
                    }
                } else {
                    proof {
                        assert(derived_rec(m0, lo, hi, h) == m0[h]);
                        assert(e.records() =~= partial_derived(m0, lo, hi, h));
                    }
                }
            },
            _ => {
                proof {
                    assert(e.records() =~= partial_derived(m0, lo, hi, h));
                }
            },
        }
    }
    proof {
        assert(e.records() =~= derived_map(m0, lo, hi));
    }
}

/// No line of the stream is a fatal consensus-format violation.
pub open spec fn consensus_ok(lines: Seq<Seq<u8>>) -> bool {
    forall|i: int| 0 <= i < lines.len() ==> !(#[trigger] consensus_line_spec(lines[i]) is Err)
}

/// The records a consensus pass creates, independent of prior state:
/// for each height, the record of its last marked line.
pub open spec fn consensus_records_of(lines: Seq<Seq<u8>>) -> Map<u64, BlockRecord>
    decreases lines.len(),
{
    if lines.len() == 0 {
        Map::empty()
    } else {
        let front = consensus_records_of(lines.drop_last());
        match consensus_line_spec(lines.last()) {
            Ok(Some(r)) => front.insert(r.height, r),
            _ => front,
        }
    }
}

/// The least height a consensus pass creates (`u64::MAX` when none).
pub open spec fn consensus_lo_of(lines: Seq<Seq<u8>>) -> u64
    decreases lines.len(),
{
    if lines.len() == 0 {
        u64::MAX
    } else {
        match consensus_line_spec(lines.last()) {
            Ok(Some(r)) => min_u64(consensus_lo_of(lines.drop_last()), r.height),
            _ => consensus_lo_of(lines.drop_last()),
        }
    }
}

/// The greatest height a consensus pass creates (0 when none).
pub open spec fn consensus_hi_of(lines: Seq<Seq<u8>>) -> u64
    decreases lines.len(),
{
    if lines.len() == 0 {
        0
    } else {
        match consensus_line_spec(lines.last()) {
            Ok(Some(r)) => max_u64(consensus_hi_of(lines.drop_last()), r.height),
            _ => consensus_hi_of(lines.drop_last()),
        }
    }
}

proof fn lemma_consensus_pass_snoc(
    st: (Map<u64, BlockRecord>, u64, u64),
    lines: Seq<Seq<u8>>,
    x: Seq<u8>,
)
    ensures
        consensus_pass_spec(st, lines.push(x)) == (match consensus_pass_spec(st, lines) {
            Ok(t) => (match consensus_line_spec(x) {
                Err(e) => Err(e),
                Ok(None) => Ok::<_, EtlError>(t),
                Ok(Some(r)) => Ok(consensus_step(t, r)),
            }),
            Err(e) => Err(e),
        }),
    decreases lines.len(),
{
    let l = lines.push(x);
    if lines.len() == 0 {
        assert(l[0] == x);
        assert(l.skip(1) =~= lines);
        assert(consensus_pass_spec(st, lines) == Ok::<_, EtlError>(st));
        match consensus_line_spec(x) {
            Err(e) => {
                assert(consensus_pass_spec(st, l) == Err::<
                    (Map<u64, BlockRecord>, u64, u64),
                    EtlError,
                >(e));
            },
            Ok(None) => {
                assert(consensus_pass_spec(st, l) == consensus_pass_spec(st, lines));
            },
            Ok(Some(r)) => {
                assert(consensus_pass_spec(st, l) == consensus_pass_spec(
                    consensus_step(st, r),
                    lines,
                ));
                assert(consensus_pass_spec(consensus_step(st, r), lines) == Ok::<_, EtlError>(
                    consensus_step(st, r),
                ));
            },
        }
    } else {
        assert(l[0] == lines[0]);
        assert(l.skip(1) =~= lines.skip(1).push(x));
        match consensus_line_spec(lines[0]) {
            Err(e) => {
                assert(consensus_pass_spec(st, l) == Err::<
                    (Map<u64, BlockRecord>, u64, u64),
                    EtlError,
                >(e));
                assert(consensus_pass_spec(st, lines) == Err::<
                    (Map<u64, BlockRecord>, u64, u64),
                    EtlError,
                >(e));
            },
            Ok(None) => {
                lemma_consensus_pass_snoc(st, lines.skip(1), x);
                assert(consensus_pass_spec(st, l) == consensus_pass_spec(st, l.skip(1)));
                assert(consensus_pass_spec(st, lines) == consensus_pass_spec(
                    st,
                    lines.skip(1),
                ));
            },
            Ok(Some(r)) => {
                lemma_consensus_pass_snoc(consensus_step(st, r), lines.skip(1), x);
                assert(consensus_pass_spec(st, l) == consensus_pass_spec(
                    consensus_step(st, r),
                    l.skip(1),
                ));
                assert(consensus_pass_spec(st, lines) == consensus_pass_spec(
                    consensus_step(st, r),
                    lines.skip(1),
                ));
            },
        }
    }
}

/// What the consensus pass computes, in closed form: it succeeds exactly
/// when no line is malformed, and then lays the created records over the
/// prior store (later lines winning) and widens the range to cover them.
pub proof fn lemma_consensus_pass_characterized(
    st: (Map<u64, BlockRecord>, u64, u64),
    lines: Seq<Seq<u8>>,
)
    ensures
        consensus_pass_spec(st, lines) is Ok <==> consensus_ok(lines),
        consensus_ok(lines) ==> consensus_pass_spec(st, lines) == Ok::<_, EtlError>(
            (
                st.0.union_prefer_right(consensus_records_of(lines)),
                min_u64(st.1, consensus_lo_of(lines)),
                max_u64(st.2, consensus_hi_of(lines)),
            ),
        ),
    decreases lines.len(),
{
    if lines.len() == 0 {
        assert(st.0.union_prefer_right(consensus_records_of(lines)) =~= st.0);
    } else {
        let dl = lines.drop_last();
        let x = lines.last();
        assert(lines =~= dl.push(x));
        lemma_consensus_pass_characterized(st, dl);
        lemma_consensus_pass_snoc(st, dl, x);
        assert(forall|i: int| 0 <= i < dl.len() ==> dl[i] == lines[i]);
        assert(x == lines[lines.len() - 1]);
        if consensus_ok(lines) {
            assert(consensus_ok(dl));
            let t = (
                st.0.union_prefer_right(consensus_records_of(dl)),
                min_u64(st.1, consensus_lo_of(dl)),
                max_u64(st.2, consensus_hi_of(dl)),
            );
            assert(consensus_pass_spec(st, dl) == Ok::<_, EtlError>(t));
            match consensus_line_spec(x) {
                Err(e) => {
                    assert(false);
                },
                Ok(None) => {},
                Ok(Some(r)) => {
                    assert(t.0.insert(r.height, r) =~= st.0.union_prefer_right(
                        consensus_records_of(dl).insert(r.height, r),
                    ));
                },
            }
        } else {
            if consensus_ok(dl) {
                assert(consensus_line_spec(x) is Err) by {
                    let i = choose|i: int|
                        0 <= i < lines.len() && consensus_line_spec(lines[i]) is Err;
                    assert(i == lines.len() - 1);
                }
            }
        }
    }
}

/// Re-running the consensus pass over the same lines on the store it
/// already produced changes nothing: overwrite, not accumulation.
pub proof fn lemma_consensus_pass_idempotent(
    st: (Map<u64, BlockRecord>, u64, u64),
    lines: Seq<Seq<u8>>,
)
    requires
        consensus_pass_spec(st, lines) is Ok,
    ensures
        consensus_pass_spec(consensus_pass_spec(st, lines)->Ok_0, lines) == consensus_pass_spec(
            st,
            lines,
        ),
{
    lemma_consensus_pass_characterized(st, lines);
    let t = consensus_pass_spec(st, lines)->Ok_0;
    lemma_consensus_pass_characterized(t, lines);
    assert(t.0.union_prefer_right(consensus_records_of(lines)) =~= st.0.union_prefer_right(
        consensus_records_of(lines),
    ));
}

/// No record in the store carries a block time yet.
pub open spec fn all_block_time_unset(m: Map<u64, BlockRecord>) -> bool {
    forall|h: u64| m.contains_key(h) ==> (#[trigger] m[h]).block_time is None
}

/// Ingesting the consensus log never sets a block time: created records
/// have it unset.
pub proof fn lemma_consensus_pass_block_time_unset(
    st: (Map<u64, BlockRecord>, u64, u64),
    lines: Seq<Seq<u8>>,
)
    requires
        all_block_time_unset(st.0),
        consensus_pass_spec(st, lines) is Ok,
    ensures
        all_block_time_unset(consensus_pass_spec(st, lines)->Ok_0.0),
    decreases lines.len(),
{
    if lines.len() > 0 {
        match consensus_line_spec(lines[0]) {
            Err(e) => {
                assert(false);
            },
            Ok(None) => {
                lemma_consensus_pass_block_time_unset(st, lines.skip(1));
            },
            Ok(Some(r)) => {
                assert(r.block_time is None);
                let st1 = consensus_step(st, r);
                assert(all_block_time_unset(st1.0));
                lemma_consensus_pass_block_time_unset(st1, lines.skip(1));
            },
        }
    }
}

/// Applying the application log never sets a block time either: a phase
/// update keeps every non-phase field.
pub proof fn lemma_app_pass_block_time_unset(m: Map<u64, BlockRecord>, lines: Seq<Seq<u8>>)
    requires
        all_block_time_unset(m),
        app_pass_spec(m, lines) is Ok,
    ensures
        all_block_time_unset(app_pass_spec(m, lines)->Ok_0),
    decreases lines.len(),
{
    if lines.len() > 0 {
        match app_line_spec(lines[0]) {
            Err(e) => {
                assert(false);
            },
            Ok(None) => {
                lemma_app_pass_block_time_unset(m, lines.skip(1));
            },
            Ok(Some(u)) => {
                let m1 = apply_update_spec(m, u);
                assert(all_block_time_unset(m1));
                lemma_app_pass_block_time_unset(m1, lines.skip(1));
            },
        }
    }
}

/// The application pass never creates or removes a height: an update
/// for an unknown height is dropped, and a known one is overwritten in
/// place.
pub proof fn lemma_app_pass_dom_unchanged(m: Map<u64, BlockRecord>, lines: Seq<Seq<u8>>)
    requires
        app_pass_spec(m, lines) is Ok,
    ensures
        app_pass_spec(m, lines)->Ok_0.dom() == m.dom(),
    decreases lines.len(),
{
    if lines.len() > 0 {
        match app_line_spec(lines[0]) {
            Err(e) => {
                assert(false);
            },
            Ok(None) => {
                lemma_app_pass_dom_unchanged(m, lines.skip(1));
            },
            Ok(Some(u)) => {
                let m1 = apply_update_spec(m, u);
                assert(m1.dom() =~= m.dom());
                lemma_app_pass_dom_unchanged(m1, lines.skip(1));
            },
        }
    }
}

/// Block-time correctness: for adjacent present heights `h-1, h` in the
/// derived range, `block_time(h)` is the timestamp difference when the
/// timestamps do not run backwards, and stays as it was (unset before
/// the derive pass) when they do.
pub proof fn lemma_block_time_correct(m: Map<u64, BlockRecord>, lo: u64, hi: u64, h: u64)
    requires
        lo < h <= hi,
        m.contains_key(h),
        m.contains_key((h - 1) as u64),
    ensures
        m[h].timestamp >= m[(h - 1) as u64].timestamp ==> derived_map(m, lo, hi)[h].block_time
            == Some((m[h].timestamp - m[(h - 1) as u64].timestamp) as u64),
        m[h].timestamp < m[(h - 1) as u64].timestamp ==> derived_map(m, lo, hi)[h].block_time
            == m[h].block_time,
{
}

/// The lowest observed height has no predecessor: the derive pass never
/// touches its record.
pub proof fn lemma_lowest_block_time_unchanged(m: Map<u64, BlockRecord>, lo: u64, hi: u64)
    requires
        m.contains_key(lo),
    ensures
        derived_map(m, lo, hi)[lo] == m[lo],
{
}

/// What a whole run means: the consensus pass from an empty store, then
/// the application pass, then the report over the derived store.  The
/// first fatal format violation aborts the run with its error.
pub open spec fn etl_spec(cls: Seq<Seq<u8>>, als: Seq<Seq<u8>>) -> Result<Seq<Seq<u8>>, EtlError> {
    let st0 = (Map::<u64, BlockRecord>::empty(), u64::MAX, 0u64);
    match consensus_pass_spec(st0, cls) {
        Err(e) => Err(e),
        Ok(st) => match app_pass_spec(st.0, als) {
            Err(e) => Err(e),
            Ok(m) => Ok(report_lines_spec(derived_map(m, st.1, st.2), st.1 as int, st.2 as int)),
        },
    }
}

/// Runs the whole pipeline on the two log streams, one element per
/// line, and returns the report lines.
pub fn run_etl(consensus_lines: &Vec<Vec<u8>>, application_lines: &Vec<Vec<u8>>) -> (r: Result<
    Vec<Vec<u8>>,
    EtlError,
>)
    ensures
        match r {
            Ok(out) => etl_spec(views(consensus_lines@), views(application_lines@)) == Ok::<
                _,
                EtlError,
            >(views(out@)),
            Err(err) => etl_spec(views(consensus_lines@), views(application_lines@)) == Err::<
                Seq<Seq<u8>>,
                _,
            >(err),
        },
{
    let mut e = MergeEngine::new();
    match run_consensus_pass(&mut e, consensus_lines) {
        Err(err) => {
            return Err(err);
        },
        Ok(()) => {},
    }
    match run_application_pass(&mut e, application_lines) {
        Err(err) => {
            return Err(err);
        },
        Ok(()) => {},
    }
    run_derive_pass(&mut e);
    let out = run_report(&e);
    Ok(out)
}

} // verus!
