use mbo_statistical_profiler::book::{Action, BookConsistency, BookSnapshot, OrderEvent, Side};
use mbo_statistical_profiler::trackers::trades::{classify_trade_price, PriceLevel, TradeTracker};

fn make_trade_msg(side: Side, price: i64, size: u32) -> OrderEvent {
    OrderEvent::new(1, Action::Trade, side, price, size).with_timestamp(1_000_000_000)
}

fn make_lob() -> BookSnapshot {
    let mut lob = BookSnapshot::new(10);
    lob.best_bid = Some(100_000_000_000);
    lob.best_ask = Some(100_010_000_000);
    lob.bid_sizes[0] = 100;
    lob.ask_sizes[0] = 100;
    lob.consistency = BookConsistency::Valid;
    lob
}

#[test]
fn test_counts_trades() {
    let mut tracker = TradeTracker::new();
    let lob = make_lob();

    tracker.process_event(&make_trade_msg(Side::Bid, 100_000_000_000, 50), &lob, 3);
    tracker.process_event(&make_trade_msg(Side::Ask, 100_010_000_000, 100), &lob, 3);

    assert_eq!(tracker.total_trades, 2);
    assert_eq!(tracker.total_volume, 150);
}

#[test]
fn test_ignores_non_trades() {
    let mut tracker = TradeTracker::new();
    let lob = make_lob();
    let add_msg =
        OrderEvent::new(1, Action::Add, Side::Bid, 100_000_000_000, 100).with_timestamp(1_000_000_000);

    let r = tracker.process_event(&add_msg, &lob, 3);
    assert!(r.is_none());
    assert_eq!(tracker.total_trades, 0);
}

#[test]
fn test_price_classification() {
    let mut tracker = TradeTracker::new();
    let lob = make_lob(); // bid=100, ask=100.01

    // At bid
    tracker.process_event(&make_trade_msg(Side::Bid, 100_000_000_000, 10), &lob, 3);
    // At ask
    tracker.process_event(&make_trade_msg(Side::Ask, 100_010_000_000, 10), &lob, 3);
    // Inside
    tracker.process_event(&make_trade_msg(Side::Unspecified, 100_005_000_000, 10), &lob, 3);
    // Outside (below bid)
    tracker.process_event(&make_trade_msg(Side::Bid, 99_990_000_000, 10), &lob, 3);

    assert_eq!(tracker.at_bid_count, 1);
    assert_eq!(tracker.at_ask_count, 1);
    assert_eq!(tracker.inside_count, 1);
    assert_eq!(tracker.outside_count, 1);
}

#[test]
fn test_directional_size_tracking() {
    let mut tracker = TradeTracker::new();
    let lob = make_lob();

    let a = tracker.process_event(&make_trade_msg(Side::Bid, 100_000_000_000, 50), &lob, 3).unwrap();
    let b = tracker.process_event(&make_trade_msg(Side::Ask, 100_010_000_000, 200), &lob, 3).unwrap();

    let buyer: Vec<u32> = [a, b].iter().filter(|o| o.side == Side::Bid).map(|o| o.size).collect();
    let seller: Vec<u32> = [a, b].iter().filter(|o| o.side == Side::Ask).map(|o| o.size).collect();
    assert_eq!(buyer, vec![50]);
    assert_eq!(seller, vec![200]);
}

#[test]
fn test_price_classification_counts_exact() {
    // 2 at bid, 3 at ask, 1 inside, 1 outside; at_bid_pct = 2/7 * 100
    let mut tracker = TradeTracker::new();
    let lob = make_lob();

    for _ in 0..2 {
        tracker.process_event(&make_trade_msg(Side::Bid, 100_000_000_000, 10), &lob, 3);
    }
    for _ in 0..3 {
        tracker.process_event(&make_trade_msg(Side::Ask, 100_010_000_000, 10), &lob, 3);
    }
    tracker.process_event(&make_trade_msg(Side::Unspecified, 100_005_000_000, 10), &lob, 3);
    tracker.process_event(&make_trade_msg(Side::Bid, 100_020_000_000, 10), &lob, 3);

    assert_eq!(tracker.at_bid_count, 2, "Expected 2 at-bid trades");
    assert_eq!(tracker.at_ask_count, 3, "Expected 3 at-ask trades");
    assert_eq!(tracker.inside_count, 1, "Expected 1 inside trade");
    assert_eq!(tracker.outside_count, 1, "Expected 1 outside trade");
    assert_eq!(tracker.total_trades, 7, "Expected 7 total trades");

    let classified =
        tracker.at_bid_count + tracker.at_ask_count + tracker.inside_count + tracker.outside_count;
    let at_bid_pct = tracker.at_bid_count as f64 / classified as f64 * 100.0;
    let expected_pct = 2.0 / 7.0 * 100.0;
    assert!(
        (at_bid_pct - expected_pct).abs() < 1e-10,
        "at_bid_pct expected {}, got {}",
        expected_pct,
        at_bid_pct
    );
}

#[test]
fn classify_trade_price_levels() {
    let bid = 100_000_000_000;
    let ask = 100_010_000_000;
    assert_eq!(classify_trade_price(bid, bid, ask), PriceLevel::AtBid);
    assert_eq!(classify_trade_price(ask, bid, ask), PriceLevel::AtAsk);
    assert_eq!(classify_trade_price(100_005_000_000, bid, ask), PriceLevel::Inside);
    assert_eq!(classify_trade_price(99_000_000_000, bid, ask), PriceLevel::Outside);
    assert_eq!(classify_trade_price(101_000_000_000, bid, ask), PriceLevel::Outside);
}

#[test]
fn trades_outside_quotes_count_as_trade_throughs() {
    let mut tracker = TradeTracker::new();
    let lob = make_lob();
    tracker.process_event(&make_trade_msg(Side::Bid, 99_990_000_000, 10), &lob, 2);
    tracker.process_event(&make_trade_msg(Side::Bid, 100_000_000_000, 10), &lob, 2);
    assert_eq!(tracker.trade_through_count, 1);
    assert_eq!(tracker.regime_trade_through[2], 1);
    assert_eq!(tracker.regime_trade_count[2], 2);
}

#[test]
fn trades_cluster_and_large_trade_threshold() {
    let mut tracker = TradeTracker::new();
    let lob = make_lob();
    let t = |ts: i64| OrderEvent::new(1, Action::Trade, Side::Bid, 100_000_000_000, 10).with_timestamp(ts);
    tracker.process_event(&t(1_000_000_000), &lob, 3);
    tracker.process_event(&t(1_500_000_000), &lob, 3);
    tracker.process_event(&t(1_900_000_000), &lob, 3);
    let far = tracker.process_event(&t(5_000_000_000), &lob, 3).unwrap();
    assert_eq!(far.closed_cluster, Some(3));
    assert_eq!(tracker.total_clusters, 1);
    assert_eq!(tracker.max_cluster_size, 3);
    assert_eq!(tracker.end_of_day(Some(10)), None);
    assert_eq!(tracker.large_trade_threshold, Some(10));
    assert_eq!(tracker.day_trade_timestamps.len(), 4);
}

#[test]
fn trades_one_second_gap_stays_in_the_cluster() {
    let mut tracker = TradeTracker::new();
    let lob = make_lob();
    let t = |ts: i64| OrderEvent::new(1, Action::Trade, Side::Bid, 100_000_000_000, 10).with_timestamp(ts);
    for ts in [1_000_000_000, 2_000_000_000, 2_500_000_000] {
        assert_eq!(tracker.process_event(&t(ts), &lob, 3).unwrap().closed_cluster, None);
    }
    assert_eq!(tracker.end_of_day(None), Some(3));
    assert_eq!(tracker.total_clusters, 1);
    assert_eq!(tracker.total_clustered_trades, 3);
    assert_eq!(tracker.max_cluster_size, 3);
}
