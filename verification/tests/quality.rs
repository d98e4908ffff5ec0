use mbo_statistical_profiler::book::{Action, BookConsistency, BookSnapshot, OrderEvent, Side};
use mbo_statistical_profiler::trackers::quality::QualityTracker;

fn make_msg(action: Action) -> OrderEvent {
    OrderEvent::new(1, action, Side::Bid, 100_000_000_000, 100).with_timestamp(1_000_000_000)
}

fn make_lob() -> BookSnapshot {
    let mut lob = BookSnapshot::new(10);
    lob.best_bid = Some(100_000_000_000);
    lob.best_ask = Some(100_010_000_000);
    lob.bid_sizes[0] = 100;
    lob.ask_sizes[0] = 100;
    lob.consistency = BookConsistency::Valid;
    lob
}

fn pct(count: u64, total: u64) -> f64 {
    if total > 0 {
        count as f64 / total as f64 * 100.0
    } else {
        0.0
    }
}

#[test]
fn test_counts_events() {
    let mut tracker = QualityTracker::new();
    let lob = make_lob();

    tracker.process_event(&make_msg(Action::Add), &lob, 3);
    tracker.process_event(&make_msg(Action::Cancel), &lob, 3);
    tracker.process_event(&make_msg(Action::Trade), &lob, 3);

    assert_eq!(tracker.total_events, 3);
    assert_eq!(tracker.action_counts[0], 1); // Add
    assert_eq!(tracker.action_counts[2], 1); // Cancel
    assert_eq!(tracker.action_counts[3], 1); // Trade
}

#[test]
fn test_day_boundary() {
    let mut tracker = QualityTracker::new();
    let lob = make_lob();

    tracker.process_event(&make_msg(Action::Add), &lob, 3);
    tracker.process_event(&make_msg(Action::Add), &lob, 3);
    tracker.end_of_day(0);

    assert_eq!(tracker.n_days, 1);
    assert_eq!(tracker.per_day_counts.len(), 1);
    assert_eq!(tracker.per_day_counts[0], (0, 2));

    tracker.reset_day();
    tracker.process_event(&make_msg(Action::Add), &lob, 3);
    tracker.end_of_day(1);

    assert_eq!(tracker.n_days, 2);
    assert_eq!(tracker.total_events, 3);
}

#[test]
fn test_finalize_produces_valid_json() {
    let mut tracker = QualityTracker::new();
    let lob = make_lob();

    for _ in 0..10 {
        tracker.process_event(&make_msg(Action::Add), &lob, 3);
    }
    tracker.end_of_day(0);

    assert_eq!(tracker.total_events, 10);
    assert_eq!(tracker.n_days, 1);
    assert!(pct(tracker.action_counts[0], tracker.total_events) > 99.0);
}

#[test]
fn test_book_consistency_tracking() {
    let mut tracker = QualityTracker::new();

    let valid_lob = make_lob();
    tracker.process_event(&make_msg(Action::Add), &valid_lob, 3);

    let empty_lob = BookSnapshot::new(10);
    tracker.process_event(&make_msg(Action::Add), &empty_lob, 0);

    assert!(pct(tracker.book_consistency_counts[0], tracker.total_events) > 0.0);
    assert!(pct(tracker.book_consistency_counts[1], tracker.total_events) > 0.0);
}

#[test]
fn quality_distributions_partition_events() {
    let mut tracker = QualityTracker::new();
    let mut lob = make_lob();
    let actions = [
        Action::Add,
        Action::Modify,
        Action::Cancel,
        Action::Trade,
        Action::Fill,
        Action::Clear,
        Action::NoAction,
        Action::TradeAggregate,
    ];
    for (i, a) in actions.iter().enumerate() {
        lob.consistency = match i % 4 {
            0 => BookConsistency::Valid,
            1 => BookConsistency::Empty,
            2 => BookConsistency::Locked,
            _ => BookConsistency::Crossed,
        };
        tracker.process_event(&make_msg(*a), &lob, (i % 9) as u8);
    }
    assert_eq!(tracker.total_events, 8);
    assert_eq!(tracker.action_counts, [1, 1, 1, 2, 1, 1, 1]);
    assert_eq!(tracker.book_consistency_counts, [2, 2, 2, 2]);
    // Regimes 7 and 8 are outside the seven regimes and are not counted.
    assert_eq!(tracker.regime_counts.iter().sum::<u64>(), 7);
    assert_eq!(tracker.action_counts.iter().sum::<u64>(), tracker.total_events);
}

#[test]
fn quality_index_mappings() {
    assert_eq!(QualityTracker::action_index(Action::Add), 0);
    assert_eq!(QualityTracker::action_index(Action::Fill), 4);
    assert_eq!(QualityTracker::action_index(Action::NoAction), 6);
    assert_eq!(QualityTracker::consistency_index(BookConsistency::Crossed), 3);
    assert_eq!(QualityTracker::new().name(), "QualityTracker");
}

#[test]
fn quality_regime_counts_cover_in_range_events_only() {
    let mut tracker = QualityTracker::new();
    let lob = make_lob();
    for regime in [0u8, 3, 6] {
        tracker.process_event(&make_msg(Action::Add), &lob, regime);
    }
    let sum: u64 = tracker.regime_counts.iter().sum();
    assert_eq!(sum, tracker.total_events);
    tracker.process_event(&make_msg(Action::Add), &lob, 7);
    let sum: u64 = tracker.regime_counts.iter().sum();
    assert_eq!(sum, 3);
    assert_eq!(tracker.total_events, 4);
    let actions: u64 = tracker.action_counts.iter().sum();
    assert_eq!(actions, 4);
    assert!((pct(tracker.action_counts[0], tracker.total_events) - 100.0).abs() < 1e-9);
}
