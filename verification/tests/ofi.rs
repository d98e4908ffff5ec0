use mbo_statistical_profiler::book::{Action, BookConsistency, BookSnapshot, OrderEvent, Side, NS_PER_SECOND};
use mbo_statistical_profiler::trackers::ofi::{lagged_bin_pairs, spread_bucket, OfiTracker, N_SPREAD_BUCKETS};

fn make_msg_ts(action: Action, side: Side, ts: i64) -> OrderEvent {
    OrderEvent::new(1, action, side, 100_000_000_000, 100).with_timestamp(ts)
}

fn make_lob(bid: i64, ask: i64, bid_size: u32, ask_size: u32) -> BookSnapshot {
    let mut lob = BookSnapshot::new(10);
    lob.best_bid = Some(bid);
    lob.best_ask = Some(ask);
    lob.bid_sizes[0] = bid_size;
    lob.ask_sizes[0] = ask_size;
    lob.triggering_action = Some(Action::Add);
    lob.consistency = BookConsistency::Valid;
    lob
}

fn ts0() -> i64 {
    14 * 3600 * NS_PER_SECOND + 30 * 60 * NS_PER_SECOND
}

#[test]
fn test_ofi_positive_on_bid_increase() {
    let mut tracker = OfiTracker::new();
    let ts = ts0();

    let lob1 = make_lob(100_000_000_000, 100_010_000_000, 100, 100);
    tracker.process_event(&make_msg_ts(Action::Add, Side::Bid, ts), &lob1);

    let lob2 = make_lob(100_000_000_000, 100_010_000_000, 200, 100);
    tracker.process_event(&make_msg_ts(Action::Add, Side::Bid, ts + NS_PER_SECOND), &lob2);

    assert!(!tracker.day_ofi_vals.is_empty());
    let total: i64 = tracker.day_ofi_vals.iter().sum();
    assert!(total > 0, "Bid size increase should produce positive OFI, got {}", total);
}

#[test]
fn ofi_test_filters_invalid_books() {
    let mut tracker = OfiTracker::new();
    let empty_lob = BookSnapshot::new(10);
    let r = tracker.process_event(&make_msg_ts(Action::Add, Side::Bid, ts0()), &empty_lob);
    assert!(r.is_none());
    assert!(tracker.day_ofi_vals.is_empty());
}

#[test]
fn ofi_test_reset_day_clears_state() {
    let mut tracker = OfiTracker::new();
    let lob = make_lob(100_000_000_000, 100_010_000_000, 100, 100);
    tracker.process_event(&make_msg_ts(Action::Add, Side::Bid, ts0()), &lob);

    tracker.end_of_day();
    tracker.reset_day();

    assert!(tracker.day_ofi_vals.is_empty());
    assert!(!tracker.state.initialized);
}

fn two_book_ofi(first: BookSnapshot, second: BookSnapshot, action: Action, side: Side) -> i64 {
    let mut tracker = OfiTracker::new();
    let ts = ts0();
    assert!(tracker.process_event(&make_msg_ts(Action::Add, side, ts), &first).is_none());
    let r = tracker.process_event(&make_msg_ts(action, side, ts + NS_PER_SECOND), &second);
    assert_eq!(tracker.day_ofi_vals.len(), 1);
    assert_eq!(r, Some(tracker.day_ofi_vals[0]));
    tracker.day_ofi_vals[0]
}

#[test]
fn test_ofi_bid_size_increase_exact_value() {
    // Bid price unchanged, bid size 100→150, ask unchanged: OFI = 50.
    let v = two_book_ofi(
        make_lob(100_000_000_000, 100_010_000_000, 100, 100),
        make_lob(100_000_000_000, 100_010_000_000, 150, 100),
        Action::Add,
        Side::Bid,
    );
    assert_eq!(v, 50, "Bid size +50: expected OFI=50, got {}", v);
}

#[test]
fn test_ofi_bid_price_drop_bearish() {
    // Bid price drops: bid_contrib = -prev_bid_size = -100; OFI = -100.
    let v = two_book_ofi(
        make_lob(100_000_000_000, 100_010_000_000, 100, 100),
        make_lob(99_990_000_000, 100_010_000_000, 100, 100),
        Action::Trade,
        Side::Ask,
    );
    assert_eq!(v, -100, "Bid price drop: expected OFI=-100, got {}", v);
}

#[test]
fn test_ofi_ask_price_improves() {
    // Ask drops (improves) with ask_size=200: OFI = 0 + (-200) = -200.
    let v = two_book_ofi(
        make_lob(100_000_000_000, 100_010_000_000, 100, 200),
        make_lob(100_000_000_000, 100_005_000_000, 100, 200),
        Action::Add,
        Side::Ask,
    );
    assert_eq!(v, -200, "Ask price drops (improve): OFI should be -200, got {}", v);
}

#[test]
fn test_ofi_only_size_changes() {
    // Bid size +20, ask size +30: OFI = 20 - 30 = -10.
    let v = two_book_ofi(
        make_lob(100_000_000_000, 100_010_000_000, 100, 100),
        make_lob(100_000_000_000, 100_010_000_000, 120, 130),
        Action::Add,
        Side::Bid,
    );
    assert_eq!(v, -10, "Size only: bid+20, ask+30, OFI should be -10, got {}", v);
}

#[test]
fn test_ofi_bid_up_and_ask_down() {
    // Bid up with size 150, ask down with size 200: OFI = 150 - 200 = -50.
    let v = two_book_ofi(
        make_lob(100_000_000_000, 100_020_000_000, 100, 100),
        make_lob(100_010_000_000, 100_015_000_000, 150, 200),
        Action::Add,
        Side::Bid,
    );
    assert_eq!(v, -50, "Bid up + ask down: OFI should be -50, got {}", v);
}

#[test]
fn test_spread_bucket_classification() {
    assert_eq!(spread_bucket(10_000_000), Some(0)); // exactly 1 tick
    assert_eq!(spread_bucket(14_000_000), Some(0)); // < 1.5 ticks
    assert_eq!(spread_bucket(20_000_000), Some(1)); // exactly 2 ticks
    assert_eq!(spread_bucket(24_000_000), Some(1)); // < 2.5 ticks
    assert_eq!(spread_bucket(30_000_000), Some(2)); // 3 ticks
    assert_eq!(spread_bucket(40_000_000), Some(2)); // 4 ticks
    assert_eq!(spread_bucket(50_000_000), Some(3)); // 5 ticks
    assert_eq!(spread_bucket(100_000_000), Some(3)); // 10 ticks
    assert_eq!(spread_bucket(0), None); // zero spread
    assert_eq!(spread_bucket(-10_000_000), None); // negative
    assert!(N_SPREAD_BUCKETS == 4);
}

#[test]
fn test_spread_bucket_boundary_precision() {
    // 1.5 ticks → bucket 1 (2-tick)
    assert_eq!(spread_bucket(15_000_000), Some(1));
    // 2.5 ticks → bucket 2 (3-4 tick)
    assert_eq!(spread_bucket(25_000_000), Some(2));
    // 4.5 ticks → bucket 3 (5+ tick)
    assert_eq!(spread_bucket(45_000_000), Some(3));
}

#[test]
fn ofi_unchanged_book_gives_zero() {
    let v = two_book_ofi(
        make_lob(100_000_000_000, 100_010_000_000, 100, 100),
        make_lob(100_000_000_000, 100_010_000_000, 100, 100),
        Action::Add,
        Side::Bid,
    );
    assert_eq!(v, 0);
}

#[test]
fn ofi_end_of_day_sums_and_components() {
    let mut tracker = OfiTracker::new();
    let ts = ts0();
    tracker.process_event(&make_msg_ts(Action::Add, Side::Bid, ts), &make_lob(100_000_000_000, 100_010_000_000, 100, 100));
    tracker.process_event(&make_msg_ts(Action::Add, Side::Bid, ts + 1), &make_lob(100_000_000_000, 100_010_000_000, 150, 100));
    let mut cancel_book = make_lob(100_000_000_000, 100_010_000_000, 120, 100);
    cancel_book.triggering_action = Some(Action::Cancel);
    tracker.process_event(&make_msg_ts(Action::Cancel, Side::Bid, ts + 2), &cancel_book);
    assert_eq!(tracker.day_ofi_vals, vec![50, -30]);
    assert_eq!(tracker.day_abs_add, 50);
    assert_eq!(tracker.day_abs_cancel, 30);
    let summary = tracker.end_of_day();
    assert_eq!(summary.eod_delta, 20);
    assert!(summary.processed);
    assert_eq!(tracker.total_abs_add, 50);
    assert_eq!(tracker.total_abs_cancel, 30);
    assert_eq!(tracker.n_days, 1);
}

#[test]
fn ofi_records_mid_and_spread_samples() {
    let mut tracker = OfiTracker::new();
    tracker.process_event(&make_msg_ts(Action::Add, Side::Bid, 7), &make_lob(100_000_000_000, 100_010_000_000, 100, 100));
    assert_eq!(tracker.day_mid_x2, vec![200_010_000_000]);
    assert_eq!(tracker.day_mid_ts, vec![7]);
    assert_eq!(tracker.day_spreads, vec![10_000_000]);
    assert!(tracker.headroom());
}

#[test]
fn lagged_pairs_follow_the_lag() {
    let usable = vec![true, true, false, true];
    let has_value = vec![true, false, true, true, true];
    assert_eq!(lagged_bin_pairs(&usable, &has_value, 0), vec![(0, 0), (3, 3)]);
    assert_eq!(lagged_bin_pairs(&usable, &has_value, 1), vec![(1, 2), (3, 4)]);
    assert_eq!(lagged_bin_pairs(&usable, &has_value, 2), vec![(0, 2), (1, 3)]);
    assert_eq!(lagged_bin_pairs(&usable, &has_value, 9), vec![]);
}

#[test]
fn spread_bucket_takes_any_spread() {
    assert_eq!(spread_bucket(i128::MAX), Some(3));
    assert_eq!(spread_bucket(i128::MIN), None);
    assert_eq!(spread_bucket(1), Some(0));
    assert_eq!(spread_bucket(44_999_999), Some(2));
}
