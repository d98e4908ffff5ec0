use mbo_statistical_profiler::book::{Action, BookConsistency, BookSnapshot, OrderEvent, Side, NS_PER_SECOND};
use mbo_statistical_profiler::trackers::mid_series::VolatilityTracker;

fn make_msg(ts: i64) -> OrderEvent {
    OrderEvent::new(1, Action::Add, Side::Bid, 100_000_000_000, 100).with_timestamp(ts)
}

fn make_lob_with_mid(mid_nanodollars: i64) -> BookSnapshot {
    let mut lob = BookSnapshot::new(10);
    let half_spread = 5_000_000;
    lob.best_bid = Some(mid_nanodollars - half_spread);
    lob.best_ask = Some(mid_nanodollars + half_spread);
    lob.bid_sizes[0] = 100;
    lob.ask_sizes[0] = 100;
    lob.consistency = BookConsistency::Valid;
    lob
}

#[test]
fn test_collects_mid_prices_and_spreads() {
    let mut tracker = VolatilityTracker::new();
    let ts_base = 14 * 3600 * NS_PER_SECOND + 30 * 60 * NS_PER_SECOND;
    let lob = make_lob_with_mid(100_000_000_000);

    tracker.process_event(&make_msg(ts_base), &lob);
    tracker.process_event(&make_msg(ts_base + NS_PER_SECOND), &lob);

    assert_eq!(tracker.series.day_mid_x2.len(), 2);
    assert_eq!(tracker.day_spreads.len(), 2);
    assert_eq!(tracker.day_spreads[0], 10_000_000);
}

#[test]
fn test_reset_day_clears_buffers() {
    let mut tracker = VolatilityTracker::new();
    let ts = 14 * 3600 * NS_PER_SECOND + 30 * 60 * NS_PER_SECOND;
    let lob = make_lob_with_mid(100_000_000_000);
    tracker.process_event(&make_msg(ts), &lob);

    tracker.end_of_day();
    tracker.reset_day();

    assert!(tracker.series.day_mid_x2.is_empty());
    assert!(tracker.series.day_timestamps.is_empty());
    assert!(tracker.day_spreads.is_empty());
}

#[test]
fn volatility_end_of_day_needs_two_samples() {
    let mut tracker = VolatilityTracker::new();
    let lob = make_lob_with_mid(100_000_000_000);
    tracker.process_event(&make_msg(1), &lob);
    assert!(!tracker.end_of_day());
    tracker.process_event(&make_msg(2), &lob);
    assert!(tracker.end_of_day());
    assert_eq!(tracker.n_days, 2);
}

#[test]
fn test_rv_known_returns_exact() {
    // Returns: [0.01, -0.02, 0.015, -0.005]
    // RV = 0.0001 + 0.0004 + 0.000225 + 0.000025 = 0.00075
    let returns = [0.01, -0.02, 0.015, -0.005];
    let rv: f64 = returns.iter().map(|r| r * r).sum();
    assert!(
        (rv - 0.00075).abs() < 1e-15,
        "RV expected 0.00075, got {}",
        rv
    );
}

#[test]
fn test_annualized_vol_formula() {
    // Annualized = sqrt(RV * 252) * 100 = sqrt(0.189) * 100 ≈ 43.47%
    let rv = 0.00075;
    let annualized = (rv * 252.0_f64).sqrt() * 100.0;
    assert!(
        (annualized - 43.47).abs() < 0.1,
        "Annualized vol expected ~43.47%, got {}%",
        annualized
    );
}

#[test]
fn test_rv_zero_for_constant_prices() {
    // All same prices → all returns = 0 → RV = 0
    let returns: Vec<f64> = vec![0.0; 100];
    let rv: f64 = returns.iter().map(|r| r * r).sum();
    assert_eq!(rv, 0.0, "Constant prices: RV should be exactly 0");
}
