use mbo_statistical_profiler::book::{Action, BookConsistency, BookSnapshot, OrderEvent, Side};
use mbo_statistical_profiler::trackers::depth::{DepthObservation, DepthTracker};

fn make_msg() -> OrderEvent {
    OrderEvent::new(1, Action::Add, Side::Bid, 100_000_000_000, 100).with_timestamp(1_000_000_000)
}

fn make_lob_symmetric() -> BookSnapshot {
    let mut lob = BookSnapshot::new(10);
    lob.best_bid = Some(100_000_000_000);
    lob.best_ask = Some(100_010_000_000);
    for i in 0..10 {
        lob.bid_sizes[i] = 100;
        lob.ask_sizes[i] = 100;
    }
    lob.consistency = BookConsistency::Valid;
    lob
}

fn make_lob_imbalanced() -> BookSnapshot {
    let mut lob = BookSnapshot::new(10);
    lob.best_bid = Some(100_000_000_000);
    lob.best_ask = Some(100_010_000_000);
    for i in 0..10 {
        lob.bid_sizes[i] = 200;
        lob.ask_sizes[i] = 100;
    }
    lob.consistency = BookConsistency::Valid;
    lob
}

fn imbalance_of(o: &DepthObservation) -> f64 {
    let (n, d) = o.imbalance().unwrap();
    n as f64 / d as f64
}

fn l1_of(o: &DepthObservation) -> f64 {
    let (n, d) = o.l1_concentration().unwrap();
    n as f64 / d as f64
}

#[test]
fn test_symmetric_book_zero_imbalance() {
    let mut tracker = DepthTracker::new();
    let lob = make_lob_symmetric();

    let obs = tracker.process_event(&make_msg(), &lob, 3).unwrap();

    assert_eq!(tracker.n_snapshots, 1);
    assert!(
        (imbalance_of(&obs) - 0.0).abs() < 1e-10,
        "Symmetric book should have zero imbalance, got {}",
        imbalance_of(&obs)
    );
}

#[test]
fn test_imbalanced_book_positive() {
    let mut tracker = DepthTracker::new();
    let lob = make_lob_imbalanced();

    let obs = tracker.process_event(&make_msg(), &lob, 3).unwrap();

    let imbalance = imbalance_of(&obs);
    assert!(
        imbalance > 0.0,
        "More bids than asks should give positive imbalance, got {}",
        imbalance
    );
    // (2000 - 1000) / (2000 + 1000) = 1/3
    assert!(
        (imbalance - 1.0 / 3.0).abs() < 1e-10,
        "Expected imbalance 1/3, got {}",
        imbalance
    );
}

#[test]
fn test_l1_concentration() {
    let mut tracker = DepthTracker::new();
    let lob = make_lob_symmetric();

    let obs = tracker.process_event(&make_msg(), &lob, 3).unwrap();

    // L1 = 200, Total = 2000, concentration = 0.1
    let l1_conc = l1_of(&obs);
    assert!(
        (l1_conc - 0.1).abs() < 1e-10,
        "L1 concentration expected 0.1, got {}",
        l1_conc
    );
}

#[test]
fn test_empty_book_skipped() {
    let mut tracker = DepthTracker::new();
    let lob = BookSnapshot::new(10);

    let obs = tracker.process_event(&make_msg(), &lob, 3);
    assert!(obs.is_none());
    assert_eq!(tracker.n_snapshots, 0);
}

#[test]
fn test_depth_imbalance_exact() {
    // bid_vol=300, ask_vol=200
    // DI = (300 - 200) / (300 + 200) = 100 / 500 = 0.2
    let mut tracker = DepthTracker::new();
    let mut lob = BookSnapshot::new(10);
    lob.best_bid = Some(100_000_000_000);
    lob.best_ask = Some(100_010_000_000);
    lob.bid_sizes[0] = 300;
    lob.ask_sizes[0] = 200;
    lob.consistency = BookConsistency::Valid;

    let obs = tracker.process_event(&make_msg(), &lob, 3).unwrap();

    let imbalance = imbalance_of(&obs);
    assert!(
        (imbalance - 0.2).abs() < 1e-10,
        "DI = (300-200)/500 = 0.2, got {}",
        imbalance
    );
    assert_eq!(obs.imbalance(), Some((100, 500)));
}

#[test]
fn test_l1_concentration_exact() {
    // L1 = bid_sizes[0] + ask_sizes[0] = 50 + 50 = 100
    // total = (50+200) + (50+200) = 500
    // C = 100 / 500 = 0.2
    let mut tracker = DepthTracker::new();
    let mut lob = BookSnapshot::new(10);
    lob.best_bid = Some(100_000_000_000);
    lob.best_ask = Some(100_010_000_000);
    lob.bid_sizes[0] = 50;
    lob.ask_sizes[0] = 50;
    lob.bid_sizes[1] = 200;
    lob.ask_sizes[1] = 200;
    lob.consistency = BookConsistency::Valid;

    let obs = tracker.process_event(&make_msg(), &lob, 3).unwrap();

    let l1_conc = l1_of(&obs);
    assert!(
        (l1_conc - 0.2).abs() < 1e-10,
        "L1 concentration = 100/500 = 0.2, got {}",
        l1_conc
    );
    assert_eq!(obs.l1_concentration(), Some((100, 500)));
}

#[test]
fn depth_empty_valid_book_has_no_ratios() {
    let mut tracker = DepthTracker::default();
    let mut lob = BookSnapshot::new(3);
    lob.best_bid = Some(1);
    lob.best_ask = Some(2);
    lob.consistency = BookConsistency::Valid;
    let obs = tracker.process_event(&make_msg(), &lob, 0).unwrap();
    assert_eq!(obs.levels, 3);
    assert_eq!(obs.imbalance(), None);
    assert_eq!(obs.l1_concentration(), None);
    tracker.end_of_day(0);
    tracker.reset_day();
    assert_eq!(tracker.n_days, 1);
    assert_eq!(tracker.n_snapshots, 1);
    assert_eq!(tracker.name(), "DepthTracker");
}

#[test]
fn depth_profile_levels_capped_at_ten() {
    let mut tracker = DepthTracker::new();
    let mut lob = BookSnapshot::new(12);
    lob.best_bid = Some(1);
    lob.best_ask = Some(2);
    lob.bid_sizes[11] = 7;
    lob.consistency = BookConsistency::Valid;
    let obs = tracker.process_event(&make_msg(), &lob, 0).unwrap();
    assert_eq!(obs.levels, 10);
    // Volumes still cover every level.
    assert_eq!(obs.bid_vol, 7);
    assert_eq!(obs.imbalance(), Some((7, 7)));
}
