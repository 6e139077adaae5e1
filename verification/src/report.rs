//! The report emitter: one comma-separated line per existing record,
//! heights strictly ascending over the observed range, absent heights
//! skipped silently.

use vstd::prelude::*;
use crate::engine::MergeEngine;
use crate::record::BlockRecord;
use crate::text::{dec_digits, format_u64, views};

verus! {

/// The reported block time: 0 when unset.
pub open spec fn block_time_or_zero(r: BlockRecord) -> u64 {
    match r.block_time {
        None => 0,
        Some(v) => v,
    }
}

/// One report line: height, block_time, tx_count and the five phase
/// durations, decimal, comma-separated, in this fixed order.
pub open spec fn render_line(r: BlockRecord) -> Seq<u8> {
    dec_digits(r.height as nat) + seq![44u8] + dec_digits(block_time_or_zero(r) as nat)
        + seq![44u8] + dec_digits(r.tx_count as nat) + seq![44u8] + dec_digits(
        r.phase_begin as nat,
    ) + seq![44u8] + dec_digits(r.phase_snapshot as nat) + seq![44u8] + dec_digits(
        r.phase_end as nat,
    ) + seq![44u8] + dec_digits(r.phase_commit as nat) + seq![44u8] + dec_digits(
        r.phase_commit_evm as nat,
    )
}

/// Renders one record as its report line.
pub fn render_record(r: &BlockRecord) -> (out: Vec<u8>)
    ensures
        out@ == render_line(*r),
{
    let mut out = format_u64(r.height);
    out.push(44);
    let bt: u64 = match r.block_time {
        None => 0,
        Some(v) => v,
    };
    let mut part = format_u64(bt);
    out.append(&mut part);
    out.push(44);
    let mut part = format_u64(r.tx_count);
    out.append(&mut part);
    out.push(44);
    let mut part = format_u64(r.phase_begin);
    out.append(&mut part);
    out.push(44);
    let mut part = format_u64(r.phase_snapshot);
    out.append(&mut part);
    out.push(44);
    let mut part = format_u64(r.phase_end);
    out.append(&mut part);
    out.push(44);
    let mut part = format_u64(r.phase_commit);
    out.append(&mut part);
    out.push(44);
    let mut part = format_u64(r.phase_commit_evm);
    out.append(&mut part);
    proof {
        assert(out@ =~= render_line(*r));
    }
    out
}

/// The heights reported over `[lo, hi]`: every height in the range that
/// has a record, in ascending order.
pub open spec fn report_heights(m: Map<u64, BlockRecord>, lo: int, hi: int) -> Seq<u64>
    decreases hi - lo + 1,
{
    if lo > hi || lo < 0 || lo > u64::MAX {
        seq![]
    } else {
        let rest = report_heights(m, lo + 1, hi);
        if m.contains_key(lo as u64) {
            seq![lo as u64] + rest
        } else {
            rest
        }
    }
}

/// The report lines over `[lo, hi]`, one per reported height, in the
/// same order.
pub open spec fn report_lines_spec(m: Map<u64, BlockRecord>, lo: int, hi: int) -> Seq<Seq<u8>> {
    report_heights(m, lo, hi).map_values(|h: u64| render_line(m[h]))
}

/// Every reported height lies in `[lo, hi]` and has a record.
pub proof fn lemma_report_heights_bounds(m: Map<u64, BlockRecord>, lo: int, hi: int)
    ensures
        forall|k: int|
            0 <= k < report_heights(m, lo, hi).len() ==> {
                &&& lo <= #[trigger] report_heights(m, lo, hi)[k] <= hi
                &&& m.contains_key(report_heights(m, lo, hi)[k])
            },
    decreases hi - lo + 1,
{
    if !(lo > hi || lo < 0 || lo > u64::MAX) {
        lemma_report_heights_bounds(m, lo + 1, hi);
        let cur = report_heights(m, lo, hi);
        let rest = report_heights(m, lo + 1, hi);
        assert forall|k: int|
            0 <= k < cur.len() implies (lo <= #[trigger] cur[k] <= hi && m.contains_key(
            cur[k],
        )) by {
            if m.contains_key(lo as u64) {
                if k == 0 {
                    assert(cur[0] == lo as u64);
                } else {
                    assert(cur[k] == rest[k - 1]);
                }
            } else {
                assert(cur[k] == rest[k]);
            }
        }
    }
}

/// The report is strictly increasing in height: no duplicates, no
/// reordering.
pub proof fn lemma_report_heights_ascending(m: Map<u64, BlockRecord>, lo: int, hi: int)
    ensures
        forall|i: int, j: int|
            0 <= i < j < report_heights(m, lo, hi).len() ==> #[trigger] report_heights(
                m,
                lo,
                hi,
            )[i] < #[trigger] report_heights(m, lo, hi)[j],
    decreases hi - lo + 1,
{
    if !(lo > hi || lo < 0 || lo > u64::MAX) {
        lemma_report_heights_ascending(m, lo + 1, hi);
        lemma_report_heights_bounds(m, lo + 1, hi);
        let cur = report_heights(m, lo, hi);
        let rest = report_heights(m, lo + 1, hi);
        assert forall|i: int, j: int|
            0 <= i < j < cur.len() implies #[trigger] cur[i] < #[trigger] cur[j] by {
            if m.contains_key(lo as u64) {
                if i == 0 {
                    assert(cur[0] == lo as u64);
                    assert(cur[j] == rest[j - 1]);
                    assert(lo + 1 <= rest[j - 1]);
                } else {
                    assert(cur[i] == rest[i - 1]);
                    assert(cur[j] == rest[j - 1]);
                }
            } else {
                assert(cur[i] == rest[i]);
                assert(cur[j] == rest[j]);
            }
        }
    }
}

/// Every height in the range that has a record is reported: a gap is
/// skipped, nothing else is.
pub proof fn lemma_report_heights_complete(m: Map<u64, BlockRecord>, lo: int, hi: int, h: u64)
    requires
        0 <= lo <= h <= hi,
        m.contains_key(h),
    ensures
        report_heights(m, lo, hi).contains(h),
    decreases hi - lo + 1,
{
    if lo == h as int {
        assert(report_heights(m, lo, hi)[0] == h);
    } else {
        lemma_report_heights_complete(m, lo + 1, hi, h);
        let rest = report_heights(m, lo + 1, hi);
        let k = choose|k: int| 0 <= k < rest.len() && rest[k] == h;
        if m.contains_key(lo as u64) {
            assert(report_heights(m, lo, hi)[k + 1] == h);
        } else {
            assert(report_heights(m, lo, hi) == rest);
        }
    }
}

/// Emits the report over the engine's observed range, in ascending
/// height order, skipping heights without a record.
pub fn run_report(e: &MergeEngine) -> (out: Vec<Vec<u8>>)
    requires
        e.wf(),
    ensures
        views(out@) == report_lines_spec(e.records(), e.lo() as int, e.hi() as int),
{
    let mut out: Vec<Vec<u8>> = Vec::new();
    let lo = e.range_lo();
    let hi = e.range_hi();
    let ghost m = e.records();
    if lo > hi {
        proof {
            assert(views(out@) =~= report_lines_spec(m, lo as int, hi as int));
        }
        return out;
    }
    let mut h = lo;
    proof {
        assert(views(out@) + report_lines_spec(m, lo as int, hi as int) =~= report_lines_spec(
            m,
            lo as int,
            hi as int,
        ));
    }
    loop
        invariant_except_break
            e.wf(),
            m == e.records(),
            lo == e.lo(),
            hi == e.hi(),
            lo <= h <= hi,
            report_lines_spec(m, lo as int, hi as int) == views(out@) + report_lines_spec(
                m,
                h as int,
                hi as int,
            ),
        ensures
            views(out@) == report_lines_spec(m, lo as int, hi as int),
        decreases hi - h,
    {
        match e.get_record(h) {
            Some(rec) => {
                let line = render_record(&rec);
                proof {
                    assert(report_lines_spec(m, h as int, hi as int) =~= seq![render_line(m[h])]
                        + report_lines_spec(m, h + 1, hi as int));
                    assert(views(out@.push(line)) =~= views(out@).push(line@));
                    assert(views(out@) + report_lines_spec(m, h as int, hi as int) =~= views(
                        out@.push(line),
                    ) + report_lines_spec(m, h + 1, hi as int));
                }
                out.push(line);
            },
            None => {
                proof {
                    assert(report_lines_spec(m, h as int, hi as int) =~= report_lines_spec(
                        m,
                        h + 1,
                        hi as int,
                    ));
                }
            },
        }
        if h == hi {
            proof {
                assert(report_lines_spec(m, h + 1, hi as int) =~= Seq::<Seq<u8>>::empty());
                assert(views(out@) =~= views(out@) + report_lines_spec(m, h + 1, hi as int));
            }
            break;
        }
        h = h + 1;
    }
    out
}

} // verus!
