use mbo_statistical_profiler::book::{Action, BookConsistency, BookSnapshot, OrderEvent, Side, NS_PER_SECOND};
use mbo_statistical_profiler::trackers::mid_series::{NoiseTracker, MIN_NOISE_SAMPLES};

fn make_msg(ts: i64) -> OrderEvent {
    OrderEvent::new(1, Action::Add, Side::Bid, 100_000_000_000, 100).with_timestamp(ts)
}

fn make_lob_with_mid(mid_nanodollars: i64) -> BookSnapshot {
    let mut lob = BookSnapshot::new(10);
    let half_spread = 5_000_000;
    lob.best_bid = Some(mid_nanodollars - half_spread);
    lob.best_ask = Some(mid_nanodollars + half_spread);
    lob.bid_sizes[0] = 100;
    lob.ask_sizes[0] = 100;
    lob.consistency = BookConsistency::Valid;
    lob
}

#[test]
fn noise_test_collects_mid_prices() {
    let mut tracker = NoiseTracker::new();
    let ts_base = 14 * 3600 * NS_PER_SECOND + 30 * 60 * NS_PER_SECOND;
    let lob = make_lob_with_mid(100_000_000_000);

    tracker.process_event(&make_msg(ts_base), &lob);
    tracker.process_event(&make_msg(ts_base + NS_PER_SECOND), &lob);

    assert_eq!(tracker.series.day_mid_x2.len(), 2);
}

#[test]
fn noise_test_reset_day_clears() {
    let mut tracker = NoiseTracker::new();
    let ts = 14 * 3600 * NS_PER_SECOND + 30 * 60 * NS_PER_SECOND;
    let lob = make_lob_with_mid(100_000_000_000);
    tracker.process_event(&make_msg(ts), &lob);

    tracker.end_of_day();
    tracker.reset_day();

    assert!(tracker.series.day_mid_x2.is_empty());
    assert!(tracker.series.day_timestamps.is_empty());
}

#[test]
fn noise_day_needs_minimum_samples() {
    let mut tracker = NoiseTracker::new();
    let lob = make_lob_with_mid(100_000_000_000);
    for i in 0..(MIN_NOISE_SAMPLES as i64 - 1) {
        tracker.process_event(&make_msg(i * NS_PER_SECOND), &lob);
    }
    assert!(!tracker.end_of_day());
    tracker.process_event(&make_msg(100 * NS_PER_SECOND), &lob);
    assert!(tracker.end_of_day());
    assert_eq!(tracker.n_days, 2);
}

#[test]
fn test_roll_spread_negative_autocovariance() {
    // With bid-ask bounce, first-order autocovariance of returns should be negative.
    // gamma_1 < 0 → Roll spread is defined.
    let returns: Vec<f64> = vec![0.01, -0.01, 0.01, -0.01, 0.01, -0.01];
    let n = returns.len() as f64;
    let mean = returns.iter().sum::<f64>() / n;
    let gamma_1: f64 = returns
        .windows(2)
        .map(|w| (w[0] - mean) * (w[1] - mean))
        .sum::<f64>()
        / n;

    assert!(
        gamma_1 < 0.0,
        "Alternating returns should produce negative gamma_1, got {}",
        gamma_1
    );
    let roll = 2.0 * (-gamma_1).sqrt();
    assert!(roll > 0.0, "Roll spread should be positive, got {}", roll);
}

#[test]
fn test_roll_spread_alternating_exact() {
    // Returns: [0.01, -0.01, 0.01, -0.01, 0.01, -0.01] (6 values)
    // mean = 0
    // gamma_1 = sum((r_t - mean)(r_{t+1} - mean)) / n
    //         = 5 * (0.01 * -0.01) / 6 = -0.0005 / 6
    // Roll = 2 * sqrt(-gamma_1)
    let returns = [0.01_f64, -0.01, 0.01, -0.01, 0.01, -0.01];
    let n = returns.len() as f64;
    let mean = returns.iter().sum::<f64>() / n;
    let gamma_1: f64 = returns
        .windows(2)
        .map(|w| (w[0] - mean) * (w[1] - mean))
        .sum::<f64>()
        / n;

    let expected_gamma = -0.0005 / 6.0;
    assert!(
        (gamma_1 - expected_gamma).abs() < 1e-15,
        "gamma_1 expected {}, got {}",
        expected_gamma,
        gamma_1
    );

    let roll = 2.0 * (-gamma_1).sqrt();
    let expected_roll = 2.0 * (0.0005 / 6.0_f64).sqrt();
    assert!(
        (roll - expected_roll).abs() < 1e-10,
        "Roll spread expected {}, got {}",
        expected_roll,
        roll
    );
}
