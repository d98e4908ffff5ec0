use mbo_statistical_profiler::book::{Action, BookConsistency, BookSnapshot, OrderEvent, Side, NS_PER_SECOND};
use mbo_statistical_profiler::trackers::cross_scale_ofi::{aligned_bin_pairs, predictive_target_bin, CrossScaleOfiTracker};

fn make_msg_ts(action: Action, side: Side, ts: i64) -> OrderEvent {
    OrderEvent::new(1, action, side, 100_000_000_000, 100).with_timestamp(ts)
}

fn make_lob(bid: i64, ask: i64, bid_size: u32, ask_size: u32) -> BookSnapshot {
    let mut lob = BookSnapshot::new(10);
    lob.best_bid = Some(bid);
    lob.best_ask = Some(ask);
    lob.bid_sizes[0] = bid_size;
    lob.ask_sizes[0] = ask_size;
    lob.triggering_action = Some(Action::Add);
    lob.consistency = BookConsistency::Valid;
    lob
}

#[test]
fn cross_scale_ofi_test_filters_invalid_books() {
    let mut tracker = CrossScaleOfiTracker::new();
    let ts = 14 * 3600 * NS_PER_SECOND + 30 * 60 * NS_PER_SECOND;
    let empty_lob = BookSnapshot::new(10);
    tracker.process_event(&make_msg_ts(Action::Add, Side::Bid, ts), &empty_lob);
    assert!(tracker.day_ofi_vals.is_empty());
}

#[test]
fn test_collects_ofi_and_mid() {
    let mut tracker = CrossScaleOfiTracker::new();
    let ts = 14 * 3600 * NS_PER_SECOND + 30 * 60 * NS_PER_SECOND;

    let lob1 = make_lob(100_000_000_000, 100_010_000_000, 100, 100);
    tracker.process_event(&make_msg_ts(Action::Add, Side::Bid, ts), &lob1);

    let lob2 = make_lob(100_000_000_000, 100_010_000_000, 150, 100);
    tracker.process_event(&make_msg_ts(Action::Add, Side::Bid, ts + NS_PER_SECOND), &lob2);

    assert_eq!(tracker.day_ofi_vals.len(), 1);
    assert_eq!(tracker.day_mid_x2.len(), 2);
    // Bid size grew by 50 at an unchanged price.
    assert_eq!(tracker.day_ofi_vals[0], 50);
    assert_eq!(tracker.day_ofi_ts[0], ts + NS_PER_SECOND);
    assert_eq!(tracker.day_mid_x2[0], 200_010_000_000);
}

#[test]
fn cross_scale_ofi_test_reset_day_clears_state() {
    let mut tracker = CrossScaleOfiTracker::new();
    let ts = 14 * 3600 * NS_PER_SECOND + 30 * 60 * NS_PER_SECOND;
    let lob = make_lob(100_000_000_000, 100_010_000_000, 100, 100);
    tracker.process_event(&make_msg_ts(Action::Add, Side::Bid, ts), &lob);

    tracker.end_of_day();
    tracker.reset_day();

    assert!(tracker.day_ofi_vals.is_empty());
    assert!(tracker.day_mid_x2.is_empty());
    assert!(!tracker.state.initialized);
}

#[test]
fn test_empty_day_produces_no_correlations() {
    let mut tracker = CrossScaleOfiTracker::new();
    let usable = tracker.end_of_day();
    assert!(!usable);
    assert_eq!(tracker.n_days, 1);
}

#[test]
fn test_predictive_alignment_offset() {
    // For cross-scale: source bin ending at offset (src_bin+1)*src_width
    // pairs with target bin starting at ceil(src_end / tgt_width) * tgt_width.
    //
    // Example: src_scale=1s, tgt_scale=5s.
    // Source bin 4 ends at 5s. Target bin ceil(5/5)=1 starts at 5s.
    // So source bins 0-4 (covering 0-5s) pair with target bin 1 (return from 5s-10s).
    // This is the predictive alignment: current 1s OFI predicts the NEXT 5s return.
    let src_width = 1.0_f64;
    let tgt_width = 5.0_f64;

    let src_bin: usize = 4;
    let src_end = (src_bin as f64 + 1.0) * src_width;
    let tgt_bin = (src_end / tgt_width).ceil() as usize;
    assert_eq!(
        tgt_bin, 1,
        "Source bin 4 (ends at 5s) should pair with target bin 1 (starts at 5s)"
    );

    let src_bin_0: usize = 0;
    let src_end_0 = (src_bin_0 as f64 + 1.0) * src_width;
    let tgt_bin_0 = (src_end_0 / tgt_width).ceil() as usize;
    assert_eq!(
        tgt_bin_0, 1,
        "Source bin 0 (ends at 1s) should pair with target bin 1 (starts at 5s)"
    );

    let src_ns = (src_width * 1e9) as u64;
    let tgt_ns = (tgt_width * 1e9) as u64;
    assert_eq!(predictive_target_bin(src_bin as u64, src_ns, tgt_ns), 1);
    assert_eq!(predictive_target_bin(src_bin_0 as u64, src_ns, tgt_ns), 1);
}

#[test]
fn predictive_target_bin_moves_past_the_source_end() {
    // Source bin 5 of width 1s ends at 6s; the next 5s bin starts at 10s.
    assert_eq!(predictive_target_bin(5, 1_000_000_000, 5_000_000_000), 2);
    // Same width: bin i ends where bin i + 1 starts.
    assert_eq!(predictive_target_bin(7, 1_000_000_000, 1_000_000_000), 8);
    // A wide source and a narrow target: 5s bin 0 ends at 5s, the 1s bin 5.
    assert_eq!(predictive_target_bin(0, 5_000_000_000, 1_000_000_000), 5);
}

#[test]
fn cross_scale_first_valid_book_only_primes() {
    let mut tracker = CrossScaleOfiTracker::new();
    let lob = make_lob(100_000_000_000, 100_010_000_000, 100, 100);
    tracker.process_event(&make_msg_ts(Action::Add, Side::Bid, 5), &lob);
    assert!(tracker.state.initialized);
    assert!(tracker.day_ofi_vals.is_empty());
    assert_eq!(tracker.day_mid_ts, vec![5]);
}

#[test]
fn aligned_pairs_same_scale_are_contemporaneous() {
    let usable = vec![true, false, true, true];
    let has_return = vec![false, true, true, false];
    let pairs = aligned_bin_pairs(&usable, &has_return, true, 1_000_000_000, 1_000_000_000);
    assert_eq!(pairs, vec![(2, 2)]);
}

#[test]
fn aligned_pairs_across_scales_use_the_next_target_bin() {
    // 1s source bins against 5s target bins: bins 0-4 → target 1, 5-9 → target 2.
    let usable = vec![true; 12];
    let has_return = vec![false, true, true];
    let pairs = aligned_bin_pairs(&usable, &has_return, false, 1_000_000_000, 5_000_000_000);
    let expected: Vec<(usize, usize)> = (0..10).map(|i| (i, if i < 5 { 1 } else { 2 })).collect();
    assert_eq!(pairs, expected);
}
