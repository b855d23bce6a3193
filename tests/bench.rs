use std::str::FromStr;
use subxt_signer::{sr25519::Keypair, SecretUri};
use chain_bench::batch::{batch_nonces, build_batch, count_finalized};
use chain_bench::dispatch::{submission_plan, submit_mode, HeadTailDispatch, Stage, Step, SubmitMode};
use chain_bench::finality::{find_time, finality_stats, latency_stats, record_time, HeadSampler};
use chain_bench::metrics::{BlockHash, Metrics};
use chain_bench::report::{window_of, BackwardWalk, BlockSummary, ReportError, WalkStep};

fn hash(n: u64) -> BlockHash {
    BlockHash::from_halves(0, n as u128)
}

#[test]
fn batch_nonces_are_contiguous() {
    assert_eq!(batch_nonces(5, 4), vec![5, 6, 7, 8]);
    assert_eq!(batch_nonces(0, 1), vec![0]);
    assert!(batch_nonces(9, 0).is_empty());
    let big = batch_nonces(u64::MAX - 3, 3);
    assert_eq!(big, vec![u64::MAX - 3, u64::MAX - 2, u64::MAX - 1]);
}

#[test]
fn build_batch_signs_every_nonce_in_order() {
    let r: Result<Vec<(u64, &str)>, String> = build_batch(10, 3, |n| Ok((n, "transfer")));
    assert_eq!(r.unwrap(), vec![(10, "transfer"), (11, "transfer"), (12, "transfer")]);
}

#[test]
fn build_batch_returns_first_error_and_no_partial_batch() {
    let r: Result<Vec<u64>, String> =
        build_batch(1, 10, |n| if n >= 4 { Err(format!("bad nonce {}", n)) } else { Ok(n) });
    assert_eq!(r, Err("bad nonce 4".to_string()));
}

#[test]
fn count_finalized_counts_successes() {
    assert_eq!(count_finalized(&vec![true, false, true, true]), 3);
    assert_eq!(count_finalized(&vec![]), 0);
}

#[test]
fn begin_fields_first_writer_wins() {
    let mut m = Metrics::new();
    for t in [1_000u64, 900, 2_000, 5] {
        m.set_begin_timestamp(t);
    }
    assert_eq!(m.begin_send, Some(1_000));
    m.set_begin_block(hash(7));
    m.set_begin_block(hash(8));
    m.set_begin_block(hash(6));
    assert_eq!(m.first_tx_begin_block, Some(hash(7)));
}

#[test]
fn end_fields_last_writer_wins() {
    let mut m = Metrics::new();
    for (t, b) in [(300u64, 3u64), (100, 1), (250, 9)] {
        m.set_end_timestamp(t);
        m.set_finalize_block(hash(b));
    }
    assert_eq!(m.finalize_end, 250);
    assert_eq!(m.last_tx_finalize_block, Some(hash(9)));
}

#[test]
fn tx_counts_add_up_in_any_order() {
    let counts = [10u32, 0, 7, 25, 3];
    let mut forward = Metrics::new();
    for k in counts {
        forward.add_tx_number(k);
    }
    let mut backward = Metrics::new();
    for k in counts.iter().rev() {
        backward.add_tx_number(*k);
    }
    assert_eq!(forward.total_tx, 45);
    assert_eq!(backward.total_tx, 45);
}

fn count_modes(plan: &[SubmitMode]) -> (usize, usize) {
    let watched = plan.iter().filter(|m| **m == SubmitMode::Watched).count();
    (watched, plan.len() - watched)
}

#[test]
fn head_and_tail_plan_watches_two() {
    for m in [2usize, 3, 10, 1000] {
        let plan = submission_plan(m);
        assert_eq!(count_modes(&plan), (2, m - 2));
        assert_eq!(plan[0], SubmitMode::Watched);
        assert_eq!(plan[m - 1], SubmitMode::Watched);
    }
    assert_eq!(count_modes(&submission_plan(1)), (1, 0));
    assert_eq!(submit_mode(5, 2), SubmitMode::FireAndForget);
}

/// Drives a dispatch; `accept` says whether submission attempt of `index`
/// succeeds, given how many attempts it already had.
fn drive(d: &mut HeadTailDispatch, accept: &dyn Fn(usize, u32) -> bool) -> (usize, usize) {
    let mut watched = 0;
    let mut unwatched = 0;
    let mut tries = vec![0u32; d.len];
    while let Step::Submit { index, watched: w } = d.step() {
        if w {
            watched += 1;
        } else {
            unwatched += 1;
        }
        let ok = accept(index, tries[index]);
        tries[index] += 1;
        d.on_submitted(ok);
    }
    (watched, unwatched)
}

#[test]
fn interior_failures_do_not_stop_the_tail() {
    let mut d = HeadTailDispatch::new(10, 3);
    let failing = [2usize, 5, 8];
    let (watched, unwatched) = drive(&mut d, &|i, _| !failing.contains(&i));
    assert_eq!((watched, unwatched), (2, 8));
    assert_eq!(d.stage, Stage::AwaitHead);
    assert_eq!(d.accepted, 10 - 3);
    d.on_head_finalized(Some(hash(1)), 1_000);
    assert_eq!(d.step(), Step::AwaitTail);
    d.on_tail_finalized(Some(hash(4)), 9_000);
    assert_eq!(d.step(), Step::Finished);
    let mut m = Metrics::new();
    d.report_to(&mut m);
    assert_eq!(m.total_tx, 7);
    assert_eq!(m.first_tx_begin_block, Some(hash(1)));
    assert_eq!(m.last_tx_finalize_block, Some(hash(4)));
    assert_eq!(m.finalize_end, 9_000);
}

#[test]
fn watched_submissions_are_retried_then_given_up() {
    let mut d = HeadTailDispatch::new(4, 3);
    let (watched, unwatched) = drive(&mut d, &|i, tries| i != 0 || tries >= 2);
    assert_eq!((watched, unwatched), (4, 2));
    assert_eq!(d.accepted, 4);
    assert_eq!(d.stage, Stage::AwaitHead);

    let mut stuck = HeadTailDispatch::new(4, 3);
    let (watched, unwatched) = drive(&mut stuck, &|i, _| i != 3);
    assert_eq!((watched, unwatched), (4, 2));
    assert_eq!(stuck.step(), Step::GaveUp);
    let mut m = Metrics::new();
    stuck.report_to(&mut m);
    assert_eq!(m.total_tx, 3);
    assert_eq!(m.first_tx_begin_block, None);
}

#[test]
fn single_transaction_batch_is_head_and_tail() {
    let mut d = HeadTailDispatch::new(1, 1);
    assert_eq!(d.step(), Step::Submit { index: 0, watched: true });
    d.on_submitted(true);
    d.on_head_finalized(Some(hash(3)), 42);
    assert_eq!(d.step(), Step::Finished);
    let mut m = Metrics::new();
    d.report_to(&mut m);
    assert_eq!(m.first_tx_begin_block, Some(hash(3)));
    assert_eq!(m.last_tx_finalize_block, Some(hash(3)));
    assert_eq!((m.finalize_end, m.total_tx), (42, 1));
}

#[test]
fn three_accounts_hundred_each_end_to_end() {
    let mut m = Metrics::new();
    let start_ms = 1_700_000_000_000u64;
    let finalize_delay_ms = 6_000u64;
    for account in 0..3u64 {
        let begin = start_ms + account * 10;
        m.set_begin_timestamp(begin);
        let nonces = batch_nonces(account * 1_000, 100);
        let txs: Result<Vec<u64>, String> = build_batch(account * 1_000, 100, |n| Ok(n));
        assert_eq!(txs.unwrap(), nonces);
        let mut d = HeadTailDispatch::new(100, 5);
        drive(&mut d, &|_, _| true);
        d.on_head_finalized(Some(hash(100 + account)), begin + finalize_delay_ms / 2);
        d.on_tail_finalized(Some(hash(200 + account)), begin + finalize_delay_ms);
        d.report_to(&mut m);
    }
    let w = window_of(&m).unwrap();
    assert_eq!(w.total_tx, 300);
    assert_eq!(w.begin_block, hash(100));
    assert_eq!(w.end_block, hash(202));
    assert_eq!(w.begin_ms, start_ms);
    assert_eq!(w.end_ms, start_ms + 20 + finalize_delay_ms);
    assert_eq!(w.duration_secs(), 6);
    let ms = w.duration_ms();
    assert_eq!(ms, 6_020);
    let tps = w.total_tx as f64 / (ms as f64 / 1000.0);
    assert!((tps - 300.0 / 6.02).abs() < 1e-9);
}

#[test]
fn window_errors() {
    let mut m = Metrics::new();
    assert_eq!(window_of(&m).unwrap_err(), ReportError::MissingBeginBlock);
    m.set_begin_block(hash(1));
    assert_eq!(window_of(&m).unwrap_err(), ReportError::MissingEndBlock);
    m.set_finalize_block(hash(2));
    assert_eq!(window_of(&m).unwrap_err(), ReportError::MissingBeginTime);
    m.set_begin_timestamp(500);
    m.set_end_timestamp(400);
    assert_eq!(window_of(&m).unwrap_err(), ReportError::ClockWentBack);
    m.set_end_timestamp(2_500);
    assert_eq!(window_of(&m).unwrap().duration_secs(), 2);
    assert_eq!(window_of(&m).unwrap().duration_ms(), 2_000);
}

/// A chain stub: block `n` has hash `n` and parent `n - 1`.
fn walk(begin: u64, end: u64, max_depth: usize) -> Result<Vec<BlockSummary>, ReportError> {
    let mut w = BackwardWalk::new(hash(begin), hash(end), max_depth);
    while let WalkStep::Fetch(h) = w.step() {
        let n = h.lo as u64;
        let block = BlockSummary { number: n, hash: h, timestamp: 6_000 * n, tx_count: n % 4 };
        w.on_block(block, hash(n.wrapping_sub(1)));
    }
    w.chronological()
}

#[test]
fn backward_walk_returns_chronological_blocks() {
    let blocks = walk(20, 30, 64).unwrap();
    assert_eq!(blocks.len(), 11);
    let numbers: Vec<u64> = blocks.iter().map(|b| b.number).collect();
    assert_eq!(numbers, (20..=30).collect::<Vec<u64>>());
    assert_eq!(blocks[0].timestamp, 120_000);
    assert_eq!(walk(7, 7, 1).unwrap().len(), 1);
}

#[test]
fn backward_walk_reports_divergent_chain() {
    assert_eq!(walk(40, 30, 5), Err(ReportError::DivergentChain));
    assert_eq!(walk(20, 30, 10), Err(ReportError::DivergentChain));
    assert_eq!(walk(20, 30, 11).unwrap().len(), 11);
}

#[test]
fn sampler_skips_first_and_stops_at_limit() {
    let mut s = HeadSampler::new(3);
    assert!(s.observe(99, 1));
    assert!(s.samples.is_empty());
    assert!(s.observe(100, 10));
    assert!(s.observe(101, 20));
    assert!(!s.observe(100, 30));
    assert!(!s.wants_more());
    assert_eq!(s.samples.len(), 2);
    assert_eq!(find_time(&s.samples, 100), Some(30));
    assert_eq!(find_time(&s.samples, 101), Some(20));
    assert_eq!(find_time(&s.samples, 99), None);
}

#[test]
fn finality_stats_exact_values() {
    let mut best = Vec::new();
    let mut fin = Vec::new();
    for (n, t) in [(10u64, 1_000u64), (11, 7_000), (12, 13_000), (13, 19_000)] {
        record_time(&mut best, n, t);
    }
    for (n, t) in [(10u64, 19_500u64), (11, 19_500), (12, 25_600), (9, 13_400)] {
        record_time(&mut fin, n, t);
    }
    let st = finality_stats(&fin).unwrap();
    assert_eq!((st.first_block, st.last_block), (9, 12));
    assert_eq!(st.span_ms, 12_200);
    assert_eq!(st.span_secs(), 12);
    assert_eq!(st.block_count(), 3);
    let lat = latency_stats(&best, &fin);
    assert_eq!(lat.count, 3);
    assert_eq!(lat.total_ms, 18_500 + 12_500 + 12_600);
    assert_eq!(lat.avg_latency_ms(), Some(43_600 / 3));
    assert!(finality_stats(&Vec::new()).is_none());
    let mut backwards = Vec::new();
    record_time(&mut backwards, 1, 500);
    record_time(&mut backwards, 2, 100);
    assert!(finality_stats(&backwards).is_none());
    let mut best_early = Vec::new();
    record_time(&mut best_early, 1, 50);
    record_time(&mut best_early, 2, 90);
    let lat_back = latency_stats(&best_early, &backwards);
    assert_eq!((lat_back.count, lat_back.total_ms), (2, 450 + 10));
    assert_eq!(latency_stats(&Vec::new(), &fin).avg_latency_ms(), None);
}

#[test]
fn bench_keys_follow_their_uris() {
    let keys = chain_bench::keys::generate_bench_key_pairs("sender", 3).unwrap();
    assert_eq!(keys.len(), 3);
    for (i, k) in keys.iter().enumerate() {
        let uri = SecretUri::from_str(&format!("//bench-sender:{}", i)).unwrap();
        let expected = Keypair::from_uri(&uri).unwrap();
        assert_eq!(k.public_key().0, expected.public_key().0);
    }
    assert_ne!(keys[0].public_key().0, keys[1].public_key().0);
    let receivers = chain_bench::keys::generate_bench_key_pairs("receiver", 1).unwrap();
    assert_ne!(receivers[0].public_key().0, keys[0].public_key().0);
    assert!(chain_bench::keys::generate_bench_key_pairs("sender", 0).unwrap().is_empty());
}

#[test]
fn default_metrics_are_empty() {
    let m = Metrics::default();
    assert_eq!((m.begin_send, m.finalize_end, m.total_tx), (None, 0, 0));
    assert_eq!(m.first_tx_begin_block, None);
    assert_eq!(m.last_tx_finalize_block, None);
}

#[test]
fn zero_timestamp_is_a_first_write() {
    let mut m = Metrics::new();
    m.set_begin_timestamp(0);
    m.set_begin_timestamp(77);
    assert_eq!(m.begin_send, Some(0));
}

#[test]
fn failed_finality_wait_resubmits_the_boundary() {
    let mut d = HeadTailDispatch::new(3, 3);
    drive(&mut d, &|_, _| true);
    d.on_head_finalized(None, 10);
    assert_eq!(d.step(), Step::Submit { index: 0, watched: true });
    d.on_submitted(true);
    assert_eq!(d.step(), Step::AwaitHead);
    d.on_head_finalized(Some(hash(5)), 20);
    let mut m = Metrics::new();
    d.report_head_to(&mut m);
    assert_eq!(m.first_tx_begin_block, Some(hash(5)));
    assert_eq!(d.step(), Step::AwaitTail);
    d.on_tail_finalized(None, 30);
    assert_eq!(d.step(), Step::Submit { index: 2, watched: true });
    d.on_submitted(false);
    assert_eq!(d.step(), Step::Submit { index: 2, watched: true });
    d.on_submitted(true);
    d.on_tail_finalized(Some(hash(9)), 40);
    assert_eq!(d.step(), Step::Finished);
    d.report_to(&mut m);
    assert_eq!(m.total_tx, 3);
    assert_eq!((m.last_tx_finalize_block, m.finalize_end), (Some(hash(9)), 40));
}

#[test]
fn failed_finality_waits_give_up_after_the_bound() {
    let mut d = HeadTailDispatch::new(3, 2);
    drive(&mut d, &|_, _| true);
    d.on_head_finalized(None, 10);
    d.on_submitted(true);
    d.on_head_finalized(None, 20);
    assert_eq!(d.step(), Step::GaveUp);
    let mut m = Metrics::new();
    d.report_to(&mut m);
    assert_eq!((m.first_tx_begin_block, m.total_tx), (None, 3));

    let mut t = HeadTailDispatch::new(1, 2);
    t.on_submitted(true);
    t.on_head_finalized(None, 10);
    assert_eq!(t.step(), Step::Submit { index: 0, watched: true });
    t.on_submitted(false);
    assert_eq!(t.step(), Step::GaveUp);
}

#[test]
fn head_block_is_reported_before_the_tail() {
    let mut m = Metrics::new();
    let mut slow = HeadTailDispatch::new(2, 1);
    let mut fast = HeadTailDispatch::new(2, 1);
    drive(&mut slow, &|_, _| true);
    drive(&mut fast, &|_, _| true);
    slow.on_head_finalized(Some(hash(1)), 5);
    slow.report_head_to(&mut m);
    fast.on_head_finalized(Some(hash(2)), 6);
    fast.report_head_to(&mut m);
    fast.on_tail_finalized(Some(hash(3)), 7);
    fast.report_to(&mut m);
    slow.on_tail_finalized(Some(hash(4)), 8);
    slow.report_to(&mut m);
    assert_eq!(m.first_tx_begin_block, Some(hash(1)));
    assert_eq!((m.last_tx_finalize_block, m.finalize_end, m.total_tx), (Some(hash(4)), 8, 4));
}

#[test]
fn batch_reaches_the_last_nonce() {
    assert_eq!(batch_nonces(u64::MAX - 1, 2), vec![u64::MAX - 1, u64::MAX]);
    let r: Result<Vec<u64>, String> = build_batch(u64::MAX, 1, |n| Ok(n));
    assert_eq!(r.unwrap(), vec![u64::MAX]);
}
