//! Plain-value model of an MBO event and of the order book state it leaves.
//!
//! Prices are integer nanodollars (1 USD = 1_000_000_000), sizes are shares,
//! timestamps are nanoseconds since the Unix epoch.

use vstd::prelude::*;

verus! {

/// Number of intraday time regimes (pre-market .. post-market).
pub const N_REGIMES: usize = 7;

/// Nanodollars per US dollar.
pub const NANOS_PER_DOLLAR: i64 = 1_000_000_000;

/// Minimum tick for NMS stocks priced at or above $1.00, in nanodollars ($0.01).
pub const TICK_NANOS: i64 = 10_000_000;

/// Nanoseconds per second.
pub const NS_PER_SECOND: i64 = 1_000_000_000;

/// What an MBO event did to the book.
#[derive(Clone, Copy, Debug, PartialEq, Eq, Structural)]
pub enum Action {
    Add,
    Modify,
    Cancel,
    Trade,
    Fill,
    Clear,
    /// No action recorded.
    NoAction,
    /// An aggressor print: `side` is the side of the aggressor itself.
    TradeAggregate,
}

/// Side of an order or of a trade print.
#[derive(Clone, Copy, Debug, PartialEq, Eq, Structural)]
pub enum Side {
    Bid,
    Ask,
    /// No side disclosed.
    Unspecified,
}

/// Classification of the top of the book.
#[derive(Clone, Copy, Debug, PartialEq, Eq, Structural)]
pub enum BookConsistency {
    Valid,
    Empty,
    Locked,
    Crossed,
}

/// One market-by-order event.
#[derive(Clone, Copy, Debug)]
pub struct OrderEvent {
    pub order_id: u64,
    pub action: Action,
    pub side: Side,
    /// Price in nanodollars.
    pub price: i64,
    pub size: u32,
    /// Event time in nanoseconds since the Unix epoch, when known.
    pub timestamp: Option<i64>,
}

impl OrderEvent {
    /// An event without a timestamp.
    pub fn new(order_id: u64, action: Action, side: Side, price: i64, size: u32) -> (r: Self)
        ensures
            r.order_id == order_id,
            r.action == action,
            r.side == side,
            r.price == price,
            r.size == size,
            r.timestamp is None,
    {
        OrderEvent { order_id, action, side, price, size, timestamp: None }
    }

    /// The same event stamped with `ts`.
    pub fn with_timestamp(self, ts: i64) -> (r: Self)
        ensures
            r.order_id == self.order_id,
            r.action == self.action,
            r.side == self.side,
            r.price == self.price,
            r.size == self.size,
            r.timestamp == Some(ts),
    {
        OrderEvent { timestamp: Some(ts), ..self }
    }

    /// Whether the event is an execution (`Trade` or `Fill`).
    pub open spec fn spec_is_execution(&self) -> bool {
        self.action == Action::Trade || self.action == Action::Fill
    }

    #[verifier::when_used_as_spec(spec_is_execution)]
    pub fn is_execution(&self) -> (r: bool)
        ensures
            r == self.spec_is_execution(),
    {
        match self.action {
            Action::Trade | Action::Fill => true,
            _ => false,
        }
    }
}

/// The state of the book after an event: best quotes, per-level sizes
/// (level 0 is the top of the book), the consistency classification of the
/// top of the book, and the action that produced this state.
#[derive(Clone, Debug)]
pub struct BookSnapshot {
    pub best_bid: Option<i64>,
    pub best_ask: Option<i64>,
    pub bid_sizes: Vec<u32>,
    pub ask_sizes: Vec<u32>,
    pub consistency: BookConsistency,
    pub triggering_action: Option<Action>,
    /// Whether the event that produced this state was an execution.
    pub trade_event: bool,
}

/// Sum of the first `n` entries of `s`.
pub open spec fn sum_sizes(s: Seq<u32>, n: int) -> int
    decreases n,
{
    if n <= 0 {
        0
    } else {
        sum_sizes(s, n - 1) + s[n - 1] as int
    }
}

pub proof fn lemma_sum_sizes_bounds(s: Seq<u32>, n: int)
    requires
        0 <= n <= s.len(),
    ensures
        0 <= sum_sizes(s, n) <= n * (u32::MAX as int),
    decreases n,
{
    if n > 0 {
        lemma_sum_sizes_bounds(s, n - 1);
    }
}

pub proof fn lemma_sum_sizes_ge_first(s: Seq<u32>, n: int)
    requires
        1 <= n <= s.len(),
    ensures
        sum_sizes(s, n) >= s[0] as int,
    decreases n,
{
    if n > 1 {
        lemma_sum_sizes_ge_first(s, n - 1);
    } else {
        assert(sum_sizes(s, 0) == 0);
    }
}

impl BookSnapshot {
    /// An empty book with `levels` price levels on each side.
    pub fn new(levels: usize) -> (r: Self)
        ensures
            r.best_bid is None,
            r.best_ask is None,
            r.bid_sizes@ == Seq::new(levels as nat, |i: int| 0u32),
            r.ask_sizes@ == Seq::new(levels as nat, |i: int| 0u32),
            r.consistency == BookConsistency::Empty,
            r.triggering_action is None,
            !r.trade_event,
    {
        let mut bid_sizes: Vec<u32> = Vec::new();
        let mut ask_sizes: Vec<u32> = Vec::new();
        let mut i: usize = 0;
        while i < levels
            invariant
                i <= levels,
                bid_sizes@ == Seq::new(i as nat, |j: int| 0u32),
                ask_sizes@ == Seq::new(i as nat, |j: int| 0u32),
            decreases levels - i,
        {
            bid_sizes.push(0);
            ask_sizes.push(0);
            i = i + 1;
            assert(bid_sizes@ =~= Seq::new(i as nat, |j: int| 0u32));
            assert(ask_sizes@ =~= Seq::new(i as nat, |j: int| 0u32));
        }
        BookSnapshot {
            best_bid: None,
            best_ask: None,
            bid_sizes,
            ask_sizes,
            consistency: BookConsistency::Empty,
            triggering_action: None,
            trade_event: false,
        }
    }

    /// Both sides carry the same, non-zero number of levels.
    pub open spec fn well_shaped(&self) -> bool {
        &&& self.bid_sizes.len() >= 1
        &&& self.bid_sizes.len() == self.ask_sizes.len()
        &&& self.bid_sizes.len() <= u32::MAX
    }

    /// Executable check of [`Self::well_shaped`].
    pub fn is_well_shaped(&self) -> (r: bool)
        ensures
            r == self.well_shaped(),
    {
        self.bid_sizes.len() >= 1 && self.bid_sizes.len() == self.ask_sizes.len()
            && self.bid_sizes.len() <= u32::MAX as usize
    }

    pub open spec fn spec_is_valid(&self) -> bool {
        self.consistency == BookConsistency::Valid
    }

    /// Whether the top of the book is classified `Valid`.
    #[verifier::when_used_as_spec(spec_is_valid)]
    pub fn is_valid(&self) -> (r: bool)
        ensures
            r == self.spec_is_valid(),
    {
        match self.consistency {
            BookConsistency::Valid => true,
            _ => false,
        }
    }

    /// Total resting bid volume over all levels.
    pub open spec fn spec_total_bid(&self) -> int {
        sum_sizes(self.bid_sizes@, self.bid_sizes@.len() as int)
    }

    /// Total resting ask volume over all levels.
    pub open spec fn spec_total_ask(&self) -> int {
        sum_sizes(self.ask_sizes@, self.ask_sizes@.len() as int)
    }

    /// Total resting bid volume over all levels.
    pub fn total_bid_volume(&self) -> (r: u64)
        requires
            self.bid_sizes.len() <= u32::MAX,
        ensures
            r == self.spec_total_bid(),
    {
        sum_levels(&self.bid_sizes)
    }

    /// Total resting ask volume over all levels.
    pub fn total_ask_volume(&self) -> (r: u64)
        requires
            self.ask_sizes.len() <= u32::MAX,
        ensures
            r == self.spec_total_ask(),
    {
        sum_levels(&self.ask_sizes)
    }

    /// The bid-ask spread in nanodollars, when both quotes are present.
    pub open spec fn spec_spread(&self) -> Option<int> {
        match (self.best_bid, self.best_ask) {
            (Some(b), Some(a)) => Some(a - b),
            _ => None,
        }
    }

    /// Twice the mid price (`bid + ask`) in nanodollars, when both quotes are present.
    pub open spec fn spec_mid_x2(&self) -> Option<int> {
        match (self.best_bid, self.best_ask) {
            (Some(b), Some(a)) => Some(a + b),
            _ => None,
        }
    }

    /// The bid-ask spread in nanodollars, when both quotes are present.
    pub fn spread(&self) -> (r: Option<i128>)
        ensures
            r matches Some(v) ==> self.spec_spread() == Some(v as int),
            r is None <==> self.spec_spread() is None,
    {
        match (self.best_bid, self.best_ask) {
            (Some(b), Some(a)) => Some(a as i128 - b as i128),
            _ => None,
        }
    }

    /// Twice the mid price in nanodollars, when both quotes are present.
    pub fn mid_x2(&self) -> (r: Option<i128>)
        ensures
            r matches Some(v) ==> self.spec_mid_x2() == Some(v as int),
            r is None <==> self.spec_mid_x2() is None,
    {
        match (self.best_bid, self.best_ask) {
            (Some(b), Some(a)) => Some(a as i128 + b as i128),
            _ => None,
        }
    }
}

/// Sum of all entries of `v`.
pub fn sum_levels(v: &Vec<u32>) -> (r: u64)
    requires
        v.len() <= u32::MAX,
    ensures
        r == sum_sizes(v@, v@.len() as int),
{
    let mut total: u64 = 0;
    let mut i: usize = 0;
    while i < v.len()
        invariant
            i <= v.len() <= u32::MAX,
            total == sum_sizes(v@, i as int),
        decreases v.len() - i,
    {
        proof {
            lemma_sum_sizes_bounds(v@, i as int + 1);
            assert((i as int + 1) * (u32::MAX as int) <= (u32::MAX as int) * (u32::MAX as int))
                by (nonlinear_arith)
                requires
                    i as int + 1 <= u32::MAX as int,
            ;
        }
        total = total + v[i] as u64;
        i = i + 1;
    }
    total
}

} // verus!
