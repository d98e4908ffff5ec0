use mbo_statistical_profiler::book::{Action, BookConsistency, BookSnapshot, OrderEvent, Side, NS_PER_SECOND};
use mbo_statistical_profiler::trackers::mid_series::ReturnTracker;

fn make_msg(ts: i64) -> OrderEvent {
    OrderEvent::new(1, Action::Add, Side::Bid, 100_000_000_000, 100).with_timestamp(ts)
}

fn make_lob_with_mid(mid_nanodollars: i64) -> BookSnapshot {
    let mut lob = BookSnapshot::new(10);
    let half_spread = 5_000_000; // $0.005
    lob.best_bid = Some(mid_nanodollars - half_spread);
    lob.best_ask = Some(mid_nanodollars + half_spread);
    lob.bid_sizes[0] = 100;
    lob.ask_sizes[0] = 100;
    lob.consistency = BookConsistency::Valid;
    lob
}

#[test]
fn returns_test_collects_mid_prices() {
    let mut tracker = ReturnTracker::new();
    let ts_base = 14 * 3600 * NS_PER_SECOND + 30 * 60 * NS_PER_SECOND;

    let lob = make_lob_with_mid(100_000_000_000);
    tracker.process_event(&make_msg(ts_base), &lob);

    let lob2 = make_lob_with_mid(100_010_000_000);
    tracker.process_event(&make_msg(ts_base + NS_PER_SECOND), &lob2);

    assert_eq!(tracker.series.day_mid_x2.len(), 2);
    assert_eq!(tracker.series.day_mid_x2[1], 200_020_000_000);
}

#[test]
fn returns_test_reset_day_clears() {
    let mut tracker = ReturnTracker::new();
    let ts = 14 * 3600 * NS_PER_SECOND + 30 * 60 * NS_PER_SECOND;
    let lob = make_lob_with_mid(100_000_000_000);
    tracker.process_event(&make_msg(ts), &lob);

    tracker.end_of_day();
    tracker.reset_day();
    assert_eq!(tracker.series.day_mid_x2.len(), 0);
    assert_eq!(tracker.series.day_timestamps.len(), 0);
}

#[test]
fn returns_begin_day_caches_context() {
    let mut tracker = ReturnTracker::new();
    assert_eq!(tracker.utc_offset, -5);
    tracker.begin_day(0, -4, 1_700_000_000_000_000_000);
    assert_eq!(tracker.utc_offset, -4);
    assert_eq!(tracker.day_epoch_ns, 1_700_000_000_000_000_000);
}

#[test]
fn test_log_return_known_value() {
    // ln(101/100) = 0.00995033085...
    let expected = (101.0_f64 / 100.0).ln();
    assert!(
        (expected - 0.009950330853168083).abs() < 1e-12,
        "ln(101/100) expected 0.009950330853168083, got {}",
        expected
    );
}

#[test]
fn test_zero_return_fraction_formula() {
    let mut zero_count: u64 = 0;
    let mut total: u64 = 0;
    let returns: [f64; 10] = [0.01, 0.0, -0.01, 0.0, 0.0, 0.02, -0.005, 0.0, 0.001, -0.001];
    for &r in &returns {
        total += 1;
        if r.abs() < 1e-15 {
            zero_count += 1;
        }
    }
    // 4 zeros out of 10
    assert_eq!(zero_count, 4);
    assert!(
        (zero_count as f64 / total as f64 - 0.4).abs() < 1e-10,
        "Zero fraction expected 0.4, got {}",
        zero_count as f64 / total as f64
    );
}

#[test]
fn test_drawdown_known_series() {
    // Cumulative returns: [0.1, 0.05, -0.05, -0.1, 0.2]
    // Max drawdown = 0.1 - (-0.1) = 0.2; max runup = 0.2 - (-0.1) = 0.3
    let cum_rets = [0.1, 0.05, -0.05, -0.1, 0.2];
    let mut peak = 0.0f64;
    let mut trough = 0.0f64;
    let mut max_dd = 0.0f64;
    let mut max_ru = 0.0f64;

    for &cum in &cum_rets {
        if cum > peak {
            peak = cum;
        }
        let dd = peak - cum;
        if dd > max_dd {
            max_dd = dd;
        }
        if cum < trough {
            trough = cum;
        }
        let ru = cum - trough;
        if ru > max_ru {
            max_ru = ru;
        }
    }

    assert!(
        (max_dd - 0.2).abs() < 1e-10,
        "Max drawdown expected 0.2, got {}",
        max_dd
    );
    assert!(
        (max_ru - 0.3).abs() < 1e-10,
        "Max runup expected 0.3, got {}",
        max_ru
    );
}
