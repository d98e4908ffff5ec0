use mbo_statistical_profiler::book::{Action, BookConsistency, BookSnapshot, OrderEvent, Side};
use mbo_statistical_profiler::trackers::spread::{width_class, SpreadTracker};

const NS_PER_SECOND: i64 = 1_000_000_000;

fn make_lob_spread(bid: i64, ask: i64) -> BookSnapshot {
    let mut lob = BookSnapshot::new(10);
    lob.best_bid = Some(bid);
    lob.best_ask = Some(ask);
    lob.bid_sizes[0] = 100;
    lob.ask_sizes[0] = 100;
    lob.consistency = BookConsistency::Valid;
    lob
}

fn make_msg() -> OrderEvent {
    OrderEvent::new(1, Action::Add, Side::Bid, 100_000_000_000, 100).with_timestamp(1_000_000_000)
}

#[test]
fn test_one_tick_spread() {
    let mut tracker = SpreadTracker::new(1000);
    let lob = make_lob_spread(100_000_000_000, 100_010_000_000);
    tracker.process_event(&make_msg(), &lob, 3);

    assert_eq!(tracker.total_events, 1);
    assert_eq!(tracker.width_counts[0], 1);
}

#[test]
fn test_intraday_curve_uses_begin_day_utc_offset() {
    // begin_day caches the offset, and each observation carries the cached
    // value: with the timestamp 14:30 UTC,
    //   - utc_offset=-5 (EST):   local = 09:30 → bin 0
    //   - utc_offset=-4 (EDT):   local = 10:30 → bin 60
    let mut tracker = SpreadTracker::new(1000);
    let lob = make_lob_spread(100_000_000_000, 100_010_000_000);
    let ts = 14 * 3600 * NS_PER_SECOND + 30 * 60 * NS_PER_SECOND; // 14:30 UTC

    let msg = OrderEvent::new(1, Action::Add, Side::Bid, 100_000_000_000, 100).with_timestamp(ts);

    tracker.begin_day(0, -4, 0);
    let obs = tracker.process_event(&msg, &lob, 3).unwrap();

    assert_eq!(obs.utc_offset, -4);
    assert_eq!(obs.timestamp, Some(ts));
    let local_seconds = ts / NS_PER_SECOND + obs.utc_offset as i64 * 3600;
    let minutes_since_open = local_seconds / 60 - (9 * 60 + 30);
    assert_eq!(
        minutes_since_open, 60,
        "With EDT offset (-4), 14:30 UTC = 10:30 EDT = bin 60."
    );
}

#[test]
fn test_spread_conversions_exact() {
    // bid = $100.000, ask = $100.010
    // Spread USD = $0.01; Mid = $100.005
    // Spread ticks = 0.01 / 0.01 = 1.0
    // Spread bps = 0.01 / 100.005 * 10000 = 0.99995...
    let spread_usd = 0.01_f64;
    let mid = 100.005_f64;
    let spread_ticks = spread_usd / 0.01;
    let spread_bps = spread_usd / mid * 10000.0;

    assert!(
        (spread_ticks - 1.0).abs() < 1e-10,
        "ticks expected 1.0, got {}",
        spread_ticks
    );
    assert!(
        (spread_bps - 0.99995).abs() < 0.001,
        "bps expected ~1.0, got {}",
        spread_bps
    );

    // The library's exact observation of the same book.
    let mut tracker = SpreadTracker::new(1000);
    let lob = make_lob_spread(100_000_000_000, 100_010_000_000);
    let obs = tracker.process_event(&make_msg(), &lob, 3).unwrap();
    assert_eq!(obs.spread_nanos, 10_000_000);
    assert_eq!(obs.mid_x2, 200_010_000_000);
}

#[test]
fn test_spread_3tick_classification() {
    let mut tracker = SpreadTracker::new(1000);
    // 3-tick spread: bid=$100.00, ask=$100.03
    let lob = make_lob_spread(100_000_000_000, 100_030_000_000);
    tracker.process_event(&make_msg(), &lob, 3);
    assert_eq!(
        tracker.width_counts[2], 1,
        "3-tick spread should go to bucket [2] (3-4 tick)"
    );
}

#[test]
fn width_classes_by_rounded_ticks() {
    assert_eq!(width_class(0), 0);
    assert_eq!(width_class(14_999_999), 0);
    assert_eq!(width_class(15_000_000), 1);
    assert_eq!(width_class(20_000_000), 1);
    assert_eq!(width_class(25_000_000), 2);
    assert_eq!(width_class(40_000_000), 2);
    assert_eq!(width_class(45_000_000), 3);
    assert_eq!(width_class(1_000_000_000), 3);
}

#[test]
fn spread_skips_crossed_and_invalid_books() {
    let mut tracker = SpreadTracker::new(10);
    let crossed = make_lob_spread(100_010_000_000, 100_000_000_000);
    assert!(tracker.process_event(&make_msg(), &crossed, 3).is_none());
    let mut invalid = make_lob_spread(100_000_000_000, 100_010_000_000);
    invalid.consistency = BookConsistency::Locked;
    assert!(tracker.process_event(&make_msg(), &invalid, 3).is_none());
    assert_eq!(tracker.total_events, 0);
    let sum: u64 = tracker.width_counts.iter().sum();
    assert_eq!(sum, tracker.total_events);
}
