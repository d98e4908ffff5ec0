use mbo_statistical_profiler::ofi_core::{OfiState, OfiStep};

fn step(state: &mut OfiState, bid: i64, bs: u32, ask: i64, asz: u32) -> Option<i64> {
    match state.observe(bid, bs, ask, asz) {
        OfiStep::Primed => None,
        OfiStep::Imbalance(v) => Some(v),
    }
}

#[test]
fn first_observation_primes_the_state() {
    let mut s = OfiState::new();
    assert!(!s.initialized);
    assert_eq!(step(&mut s, 100, 10, 101, 20), None);
    assert!(s.initialized);
    assert_eq!((s.prev_bid_price, s.prev_bid_size, s.prev_ask_price, s.prev_ask_size), (100, 10, 101, 20));
}

#[test]
fn unchanged_book_has_zero_imbalance() {
    let mut s = OfiState::new();
    step(&mut s, 100, 10, 101, 20);
    assert_eq!(step(&mut s, 100, 10, 101, 20), Some(0));
}

#[test]
fn mirrored_book_negates_the_imbalance() {
    let mut s = OfiState::new();
    step(&mut s, 100, 10, 101, 20);
    let v = step(&mut s, 101, 15, 102, 5).unwrap();
    // Bid up: +15; ask up: +prev ask size 20.
    assert_eq!(v, 35);

    let mut m = OfiState::new();
    step(&mut m, -101, 20, -100, 10);
    let w = step(&mut m, -102, 5, -101, 15).unwrap();
    assert_eq!(w, -v);
}

#[test]
fn compute_does_not_move_the_state() {
    let mut s = OfiState::new();
    step(&mut s, 100, 10, 101, 20);
    assert_eq!(s.compute_ofi(99, 7, 101, 20), -10);
    assert_eq!(s.prev_bid_price, 100);
    s.reset();
    assert!(!s.initialized);
}
