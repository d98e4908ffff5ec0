use std::f64::consts::PI;

use mbo_statistical_profiler::book::{Action, BookConsistency, BookSnapshot, OrderEvent, Side, NS_PER_SECOND};
use mbo_statistical_profiler::trackers::mid_series::JumpTracker;

fn make_msg(ts: i64) -> OrderEvent {
    OrderEvent::new(1, Action::Add, Side::Bid, 100_000_000_000, 100).with_timestamp(ts)
}

fn make_lob_with_mid(mid_nanodollars: i64) -> BookSnapshot {
    let mut lob = BookSnapshot::new(10);
    let half_spread = 5_000_000;
    lob.best_bid = Some(mid_nanodollars - half_spread);
    lob.best_ask = Some(mid_nanodollars + half_spread);
    lob.bid_sizes[0] = 100;
    lob.ask_sizes[0] = 100;
    lob.consistency = BookConsistency::Valid;
    lob
}

#[test]
fn test_collects_data() {
    let mut tracker = JumpTracker::new();
    let ts_base = 14 * 3600 * NS_PER_SECOND + 30 * 60 * NS_PER_SECOND;
    let lob = make_lob_with_mid(100_000_000_000);

    tracker.process_event(&make_msg(ts_base), &lob);
    tracker.process_event(&make_msg(ts_base + NS_PER_SECOND), &lob);

    assert_eq!(tracker.series.day_mid_x2.len(), 2);
    assert_eq!(tracker.series.day_timestamps.len(), 2);
    assert_eq!(tracker.series.day_mid_x2[0], 200_000_000_000);
}

#[test]
fn test_reset_day() {
    let mut tracker = JumpTracker::new();
    let ts = 14 * 3600 * NS_PER_SECOND + 30 * 60 * NS_PER_SECOND;
    let lob = make_lob_with_mid(100_000_000_000);
    tracker.process_event(&make_msg(ts), &lob);

    tracker.end_of_day();
    tracker.reset_day();

    assert!(tracker.series.day_mid_x2.is_empty());
    assert!(tracker.series.day_timestamps.is_empty());
}

#[test]
fn jump_tracker_skips_invalid_and_untimed() {
    let mut tracker = JumpTracker::new();
    let empty = BookSnapshot::new(10);
    tracker.process_event(&make_msg(1), &empty);
    let lob = make_lob_with_mid(100_000_000_000);
    let untimed = OrderEvent::new(1, Action::Add, Side::Bid, 100_000_000_000, 100);
    tracker.process_event(&untimed, &lob);
    assert!(tracker.series.day_mid_x2.is_empty());
    assert!(!tracker.end_of_day());
}

#[test]
fn test_bv_less_than_rv_for_jumpy_series() {
    // BV should be <= RV when jumps are present (by construction)
    // For constant returns (no jumps): RV ≈ BV
    let returns = vec![0.001, 0.001, 0.001, 0.001, 0.001];
    let rv: f64 = returns.iter().map(|r| r * r).sum();
    let bv_sum: f64 = returns.windows(2).map(|w: &[f64]| w[0].abs() * w[1].abs()).sum();
    let bv = (PI / 2.0) * bv_sum;

    // For constant returns, BV ≈ (pi/2) * n * r^2 vs RV = n * r^2
    // So BV/RV ≈ pi/2 ≈ 1.57 (BV > RV for continuous case, jump = 0)
    let jump = (rv - bv).max(0.0);
    assert!(
        jump < 1e-10,
        "No jump expected for constant returns, got J={}",
        jump
    );
}

#[test]
fn test_bv_constant_returns_exact() {
    // Returns: [0.01, 0.01, 0.01, 0.01]
    // RV = 4 * 0.01^2 = 0.0004
    // BV = (pi/2) * sum(|r_t| * |r_{t-1}|) for 3 adjacent pairs
    //    = (pi/2) * 3 * 0.0001 = (pi/2) * 0.0003
    let returns: [f64; 4] = [0.01, 0.01, 0.01, 0.01];
    let rv: f64 = returns.iter().map(|r| r * r).sum();
    let bv: f64 = PI / 2.0
        * returns
            .windows(2)
            .map(|w| w[0].abs() * w[1].abs())
            .sum::<f64>();

    assert!(
        (rv - 0.0004).abs() < 1e-15,
        "RV expected 0.0004, got {}",
        rv
    );
    let expected_bv = PI / 2.0 * 0.0003;
    assert!(
        (bv - expected_bv).abs() < 1e-15,
        "BV expected {}, got {}",
        expected_bv,
        bv
    );
    // BV > RV for constant returns (no jumps) since pi/2 > 1
    assert!(bv > rv, "For constant returns, BV should exceed RV");
}

#[test]
fn test_jump_fraction_with_outlier() {
    // Returns: [0.001]*5 + [0.5] + [0.001]*5
    // RV = 10*0.001^2 + 0.5^2 = 0.00001 + 0.25 = 0.25001
    // BV is robust to single jump → dominated by 0.001*0.001 pairs
    // jump_fraction = (RV - BV) / RV should be > 0.9
    let mut returns: Vec<f64> = vec![0.001; 5];
    returns.push(0.5);
    returns.extend(vec![0.001; 5]);

    let rv: f64 = returns.iter().map(|r| r * r).sum();
    let bv: f64 = PI / 2.0
        * returns
            .windows(2)
            .map(|w| w[0].abs() * w[1].abs())
            .sum::<f64>();
    let j = (rv - bv).max(0.0);
    let jump_frac = j / rv;

    assert!(rv > 0.24, "RV should be dominated by the jump, got {}", rv);
    assert!(
        jump_frac > 0.9,
        "Jump fraction should be >0.9, got {}",
        jump_frac
    );
}
