use feth_etl::application::{parse_application_line, PhaseUpdate};
use feth_etl::codec::{decode_record, encode_record};
use feth_etl::consensus::parse_consensus_line;
use feth_etl::engine::MergeEngine;
use feth_etl::error::EtlError;
use feth_etl::pipeline::{run_application_pass, run_consensus_pass, run_derive_pass, run_etl};
use feth_etl::record::BlockRecord;
use feth_etl::report::run_report;
use feth_etl::text::{format_u64, parse_u64};

fn b(s: &str) -> Vec<u8> {
    s.as_bytes().to_vec()
}

/// An application-log line: a 52-byte header, then the comma fields.
fn app_line(suffix: &str) -> Vec<u8> {
    let mut l = String::new();
    while l.len() < 52 {
        l.push('#');
    }
    l.push_str(suffix);
    l.into_bytes()
}

#[test]
fn consensus_counts_compose() {
    let line = b("I[2022-04-07|02:17:07.759] Executed block module=state height=191 validTxs=3368 invalidTxs=666");
    let rec = parse_consensus_line(&line).unwrap().unwrap();
    assert_eq!(rec.height, 191);
    assert_eq!(rec.valid_tx_count, 3368);
    assert_eq!(rec.tx_count, 3368 + 666);
    assert_eq!(rec.block_time, None);
    assert_eq!(rec.phase_begin, 0);
    assert_eq!(rec.phase_snapshot, 0);
    assert_eq!(rec.phase_end, 0);
    assert_eq!(rec.phase_commit, 0);
    assert_eq!(rec.phase_commit_evm, 0);
}

#[test]
fn consensus_timestamp_is_epoch_seconds() {
    let line = b("I[1970-01-01|00:00:10.000] Executed block height=1 validTxs=0 invalidTxs=0");
    let rec = parse_consensus_line(&line).unwrap().unwrap();
    assert_eq!(rec.timestamp, 10);
}

#[test]
fn consensus_unmarked_line_skipped() {
    let line = b("I[2022-04-07|02:17:07.759] Committed state height=191");
    assert_eq!(parse_consensus_line(&line), Ok(None));
}

#[test]
fn consensus_missing_height_fatal() {
    let line = b("I[2022-04-07|02:17:07.759] Executed block validTxs=3 invalidTxs=1");
    assert_eq!(parse_consensus_line(&line), Err(EtlError::ConsensusFormat));
    let out = run_etl(&vec![line], &Vec::new());
    assert_eq!(out, Err(EtlError::ConsensusFormat));
}

#[test]
fn consensus_bad_timestamp_fatal() {
    let line = b("I[not-a-valid-timestamp!] Executed block height=5 validTxs=1 invalidTxs=0");
    assert_eq!(parse_consensus_line(&line), Err(EtlError::ConsensusFormat));
}

#[test]
fn consensus_short_marked_line_fatal() {
    let line = b("Executed block");
    assert_eq!(parse_consensus_line(&line), Err(EtlError::ConsensusFormat));
}

#[test]
fn consensus_duplicate_key_last_wins() {
    let line =
        b("I[1970-01-01|00:00:10.000] Executed block height=4 height=5 validTxs=2 invalidTxs=0");
    let rec = parse_consensus_line(&line).unwrap().unwrap();
    assert_eq!(rec.height, 5);
}

#[test]
fn consensus_duplicate_key_bad_last_fatal() {
    let line =
        b("I[1970-01-01|00:00:10.000] Executed block height=5 height=x validTxs=2 invalidTxs=0");
    assert_eq!(parse_consensus_line(&line), Err(EtlError::ConsensusFormat));
}

#[test]
fn consensus_odd_tokens_ignored() {
    let line = b("I[1970-01-01|00:00:10.000] Executed block a=b=c mood=great height=7 validTxs=1 invalidTxs=2");
    let rec = parse_consensus_line(&line).unwrap().unwrap();
    assert_eq!(rec.height, 7);
    assert_eq!(rec.tx_count, 3);
}

#[test]
fn consensus_rerun_is_idempotent() {
    let lines = vec![
        b("I[1970-01-01|00:00:10.000] Executed block height=10 validTxs=3 invalidTxs=1"),
        b("I[1970-01-01|00:00:16.000] Executed block height=11 validTxs=5 invalidTxs=0"),
    ];
    let mut e = MergeEngine::new();
    assert_eq!(run_consensus_pass(&mut e, &lines), Ok(()));
    let first_10 = e.get_record(10).unwrap();
    let first_11 = e.get_record(11).unwrap();
    assert_eq!(run_consensus_pass(&mut e, &lines), Ok(()));
    assert_eq!(e.get_record(10).unwrap(), first_10);
    assert_eq!(e.get_record(11).unwrap(), first_11);
    assert_eq!(encode_record(&e.get_record(10).unwrap()), encode_record(&first_10));
}

#[test]
fn consensus_overwrite_not_accumulation() {
    let lines = vec![
        b("I[1970-01-01|00:00:10.000] Executed block height=10 validTxs=3 invalidTxs=1"),
        b("I[1970-01-01|00:00:12.000] Executed block height=10 validTxs=7 invalidTxs=2"),
    ];
    let mut e = MergeEngine::new();
    assert_eq!(run_consensus_pass(&mut e, &lines), Ok(()));
    let rec = e.get_record(10).unwrap();
    assert_eq!(rec.valid_tx_count, 7);
    assert_eq!(rec.tx_count, 9);
    assert_eq!(rec.timestamp, 12);
}

#[test]
fn application_begin_block_update() {
    let line = app_line("tps,begin_block,31,33,td_height 781,end of begin_block");
    let upd = parse_application_line(&line).unwrap().unwrap();
    assert_eq!(upd, PhaseUpdate::BeginBlock { height: 781, snapshot: 31, begin: 33 });
}

#[test]
fn application_end_block_update() {
    let line = app_line("tps,end_block,6,td_height 781,end of end_block");
    let upd = parse_application_line(&line).unwrap().unwrap();
    assert_eq!(upd, PhaseUpdate::EndBlock { height: 781, end: 6 });
}

#[test]
fn application_commit_update() {
    let line = app_line("tps,commit,2,60,62,td_height 781,end of commit");
    let upd = parse_application_line(&line).unwrap().unwrap();
    assert_eq!(upd, PhaseUpdate::Commit { height: 781, commit_evm: 60, commit: 62 });
}

#[test]
fn application_unmarked_line_skipped() {
    let line = app_line("begin_block,31,33,td_height 781,end of begin_block");
    assert_eq!(parse_application_line(&line), Ok(None));
}

#[test]
fn application_unknown_trailing_marker_ignored() {
    let line = app_line("tps,begin_block,31,33,td_height 781,end of something else");
    assert_eq!(parse_application_line(&line), Ok(None));
}

#[test]
fn application_short_marked_line_fatal() {
    let line = b("tps,commit,2,60,62,td_height 781,end of commit");
    assert_eq!(parse_application_line(&line), Err(EtlError::ApplicationFormat));
}

#[test]
fn application_bad_number_fatal() {
    let line = app_line("tps,commit,1,x,5,td_height 10,end of commit");
    assert_eq!(parse_application_line(&line), Err(EtlError::ApplicationFormat));
}

#[test]
fn application_bad_td_height_fatal() {
    let line = app_line("tps,end_block,6,td_height,end of end_block");
    assert_eq!(parse_application_line(&line), Err(EtlError::ApplicationFormat));
}

#[test]
fn application_update_unknown_height_dropped() {
    let app = vec![app_line("tps,commit,1,2,5,td_height 10,end of commit")];
    let mut e = MergeEngine::new();
    assert_eq!(run_application_pass(&mut e, &app), Ok(()));
    assert_eq!(e.get_record(10), None);
    let out = run_etl(&Vec::new(), &app).unwrap();
    assert_eq!(out.len(), 0);
}

#[test]
fn application_field_isolation() {
    let consensus = vec![
        b("I[1970-01-01|00:00:10.000] Executed block height=10 validTxs=3 invalidTxs=1"),
        b("I[1970-01-01|00:00:16.000] Executed block height=11 validTxs=5 invalidTxs=0"),
    ];
    let mut e = MergeEngine::new();
    assert_eq!(run_consensus_pass(&mut e, &consensus), Ok(()));
    let before_11 = e.get_record(11).unwrap();
    let app = vec![
        app_line("tps,begin_block,31,33,td_height 10,end of begin_block"),
        app_line("tps,commit,2,60,62,td_height 10,end of commit"),
    ];
    assert_eq!(run_application_pass(&mut e, &app), Ok(()));
    let rec = e.get_record(10).unwrap();
    assert_eq!(rec.phase_snapshot, 31);
    assert_eq!(rec.phase_begin, 33);
    assert_eq!(rec.phase_commit_evm, 60);
    assert_eq!(rec.phase_commit, 62);
    assert_eq!(rec.phase_end, 0);
    assert_eq!(rec.height, 10);
    assert_eq!(rec.timestamp, 10);
    assert_eq!(rec.tx_count, 4);
    assert_eq!(rec.valid_tx_count, 3);
    assert_eq!(rec.block_time, None);
    assert_eq!(e.get_record(11).unwrap(), before_11);
}

#[test]
fn application_update_order_does_not_clobber() {
    let consensus =
        vec![b("I[1970-01-01|00:00:10.000] Executed block height=10 validTxs=0 invalidTxs=0")];
    let mut e = MergeEngine::new();
    assert_eq!(run_consensus_pass(&mut e, &consensus), Ok(()));
    let app = vec![
        app_line("tps,commit,2,60,62,td_height 10,end of commit"),
        app_line("tps,end_block,6,td_height 10,end of end_block"),
        app_line("tps,begin_block,31,33,td_height 10,end of begin_block"),
    ];
    assert_eq!(run_application_pass(&mut e, &app), Ok(()));
    let rec = e.get_record(10).unwrap();
    assert_eq!(rec.phase_snapshot, 31);
    assert_eq!(rec.phase_begin, 33);
    assert_eq!(rec.phase_end, 6);
    assert_eq!(rec.phase_commit_evm, 60);
    assert_eq!(rec.phase_commit, 62);
}

#[test]
fn derive_sets_block_time_of_adjacent_heights() {
    let consensus = vec![
        b("I[1970-01-01|00:00:10.000] Executed block height=10 validTxs=3 invalidTxs=1"),
        b("I[1970-01-01|00:00:16.000] Executed block height=11 validTxs=5 invalidTxs=0"),
    ];
    let mut e = MergeEngine::new();
    assert_eq!(run_consensus_pass(&mut e, &consensus), Ok(()));
    run_derive_pass(&mut e);
    assert_eq!(e.get_record(11).unwrap().block_time, Some(6));
    assert_eq!(e.get_record(10).unwrap().block_time, None);
}

#[test]
fn derive_skips_backwards_timestamps() {
    let consensus = vec![
        b("I[1970-01-01|00:00:20.000] Executed block height=10 validTxs=0 invalidTxs=0"),
        b("I[1970-01-01|00:00:16.000] Executed block height=11 validTxs=0 invalidTxs=0"),
    ];
    let mut e = MergeEngine::new();
    assert_eq!(run_consensus_pass(&mut e, &consensus), Ok(()));
    run_derive_pass(&mut e);
    assert_eq!(e.get_record(11).unwrap().block_time, None);
    let lines = run_report(&e);
    assert_eq!(lines[1], b("11,0,0,0,0,0,0,0"));
}

#[test]
fn etl_scenario_two_blocks() {
    let consensus = vec![
        b("I[1970-01-01|00:00:10.000] Executed block height=10 validTxs=3 invalidTxs=1"),
        b("I[1970-01-01|00:00:16.000] Executed block height=11 validTxs=5 invalidTxs=0"),
    ];
    let out = run_etl(&consensus, &Vec::new()).unwrap();
    assert_eq!(out.len(), 2);
    assert_eq!(out[0], b("10,0,4,0,0,0,0,0"));
    assert_eq!(out[1], b("11,6,5,0,0,0,0,0"));
}

#[test]
fn report_ascending_despite_input_order() {
    let consensus = vec![
        b("I[1970-01-01|00:00:16.000] Executed block height=11 validTxs=0 invalidTxs=0"),
        b("I[1970-01-01|00:00:10.000] Executed block height=10 validTxs=2 invalidTxs=0"),
    ];
    let out = run_etl(&consensus, &Vec::new()).unwrap();
    assert_eq!(out.len(), 2);
    assert_eq!(out[0], b("10,0,2,0,0,0,0,0"));
    assert_eq!(out[1], b("11,6,0,0,0,0,0,0"));
}

#[test]
fn report_skips_missing_heights() {
    let consensus = vec![
        b("I[1970-01-01|00:00:10.000] Executed block height=5 validTxs=0 invalidTxs=0"),
        b("I[1970-01-01|00:00:11.000] Executed block height=6 validTxs=0 invalidTxs=0"),
        b("I[1970-01-01|00:00:14.000] Executed block height=8 validTxs=0 invalidTxs=0"),
    ];
    let out = run_etl(&consensus, &Vec::new()).unwrap();
    assert_eq!(out.len(), 3);
    assert_eq!(out[0], b("5,0,0,0,0,0,0,0"));
    assert_eq!(out[1], b("6,1,0,0,0,0,0,0"));
    assert_eq!(out[2], b("8,0,0,0,0,0,0,0"));
}

#[test]
fn etl_empty_logs_empty_report() {
    let out = run_etl(&Vec::new(), &Vec::new()).unwrap();
    assert_eq!(out.len(), 0);
}

#[test]
fn etl_full_pipeline_with_phases() {
    let consensus = vec![
        b("I[1970-01-01|00:00:10.000] Executed block height=10 validTxs=3 invalidTxs=1"),
        b("I[1970-01-01|00:00:16.000] Executed block height=11 validTxs=5 invalidTxs=0"),
    ];
    let app = vec![
        app_line("tps,begin_block,31,33,td_height 11,end of begin_block"),
        app_line("tps,end_block,6,td_height 11,end of end_block"),
        app_line("tps,commit,2,60,62,td_height 11,end of commit"),
    ];
    let out = run_etl(&consensus, &app).unwrap();
    assert_eq!(out.len(), 2);
    assert_eq!(out[0], b("10,0,4,0,0,0,0,0"));
    assert_eq!(out[1], b("11,6,5,33,31,6,62,60"));
}

#[test]
fn codec_roundtrip() {
    let rec = BlockRecord {
        height: 781,
        timestamp: -1234567890,
        tx_count: 9,
        valid_tx_count: 7,
        block_time: Some(6),
        phase_begin: 1,
        phase_snapshot: 2,
        phase_end: 3,
        phase_commit: 4,
        phase_commit_evm: 5,
    };
    let bytes = encode_record(&rec);
    assert_eq!(bytes.len(), 82);
    assert_eq!(decode_record(&bytes), Some(rec));
    let unset = BlockRecord { block_time: None, timestamp: i64::MIN, ..rec };
    assert_eq!(decode_record(&encode_record(&unset)), Some(unset));
}

#[test]
fn codec_rejects_bad_bytes() {
    assert_eq!(decode_record(&vec![0u8; 81]), None);
    let mut bytes = vec![0u8; 82];
    bytes[8] = 9;
    assert_eq!(decode_record(&bytes), None);
}

#[test]
fn parse_u64_edges() {
    assert_eq!(parse_u64(b"0"), Some(0));
    assert_eq!(parse_u64(b"18446744073709551615"), Some(u64::MAX));
    assert_eq!(parse_u64(b"18446744073709551616"), None);
    assert_eq!(parse_u64(b""), None);
    assert_eq!(parse_u64(b"12x"), None);
    assert_eq!(parse_u64(b"007"), Some(7));
}

#[test]
fn format_u64_decimal() {
    assert_eq!(format_u64(0), b("0"));
    assert_eq!(format_u64(1234567890), b("1234567890"));
    assert_eq!(format_u64(u64::MAX), b("18446744073709551615"));
}
