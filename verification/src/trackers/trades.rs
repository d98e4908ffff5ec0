//! Trade flow tracker: trade counts and volume, price-level classification
//! against the best quotes, trade-throughs, inter-trade gaps, trade
//! clustering and the large-trade population.
//!
//! Price classification (trade price P, best bid B, best ask A):
//! `at_bid` when P == B, else `at_ask` when P == A, else `inside` when
//! B < P < A, else `outside`.

use vstd::prelude::*;
use crate::book::{BookSnapshot, OrderEvent, Side, N_REGIMES};

verus! {

/// Largest gap between consecutive trades of one cluster (1 second): a
/// longer gap starts a new cluster.
pub const DEFAULT_CLUSTER_GAP_NS: i64 = 1_000_000_000;

/// Price level of a trade relative to the best quotes.
#[derive(Clone, Copy, Debug, PartialEq, Eq, Structural)]
pub enum PriceLevel {
    AtBid,
    AtAsk,
    Inside,
    Outside,
}

/// The price level of a trade at `price` against best bid `bid` and best ask `ask`.
pub open spec fn spec_price_level(price: i64, bid: i64, ask: i64) -> PriceLevel {
    if price == bid {
        PriceLevel::AtBid
    } else if price == ask {
        PriceLevel::AtAsk
    } else if bid < price && price < ask {
        PriceLevel::Inside
    } else {
        PriceLevel::Outside
    }
}

/// The price level of a trade at `price` against best bid `bid` and best ask `ask`.
pub fn classify_trade_price(price: i64, bid: i64, ask: i64) -> (r: PriceLevel)
    ensures
        r == spec_price_level(price, bid, ask),
        r == PriceLevel::AtBid <==> price == bid,
        r == PriceLevel::AtAsk <==> price == ask && price != bid,
        r == PriceLevel::Inside <==> bid < price < ask,
        r == PriceLevel::Outside <==> price != bid && price != ask && !(bid < price < ask),
{
    if price == bid {
        PriceLevel::AtBid
    } else if price == ask {
        PriceLevel::AtAsk
    } else if price > bid && price < ask {
        PriceLevel::Inside
    } else {
        PriceLevel::Outside
    }
}

/// The four levels partition the trades: a trade at the bid price is at the
/// bid, one at the ask price (and not the bid) is at the ask, one strictly
/// between a bid and an ask is inside, whatever its distance to either quote,
/// and any other is outside; an outside trade on an uncrossed book lies
/// strictly beyond one of the quotes.
pub proof fn lemma_price_level_partition(price: i64, bid: i64, ask: i64)
    ensures
        spec_price_level(price, bid, ask) == PriceLevel::AtBid <==> price == bid,
        spec_price_level(price, bid, ask) == PriceLevel::AtAsk <==> price == ask && price != bid,
        spec_price_level(price, bid, ask) == PriceLevel::Inside <==> bid < price < ask,
        spec_price_level(price, bid, ask) == PriceLevel::Outside <==> price != bid && price
            != ask && !(bid < price < ask),
        spec_price_level(price, bid, ask) == PriceLevel::Outside && bid <= ask ==> price < bid
            || price > ask,
{
}

/// A trade printed strictly outside the best quotes.
pub open spec fn is_trade_through(price: i64, bid: i64, ask: i64) -> bool {
    price < bid || price > ask
}

/// What one trade contributes to the floating-point statistics.
#[derive(Clone, Copy, Debug)]
pub struct TradeObservation {
    pub size: u32,
    pub side: Side,
    /// Trade price, nanodollars.
    pub price: i64,
    /// Positive gap to the previous trade of the day, nanoseconds.
    pub gap_ns: Option<i128>,
    /// Size of a trade cluster this trade closed.
    pub closed_cluster: Option<u64>,
    /// For a large trade on a valid book: `bid + ask` (twice the mid), nanodollars.
    pub large_trade_mid_x2: Option<i128>,
}

/// Integer core of the trade flow tracker.
pub struct TradeTracker {
    pub regime_trade_count: [u64; N_REGIMES],
    pub at_bid_count: u64,
    pub at_ask_count: u64,
    pub inside_count: u64,
    pub outside_count: u64,
    pub total_trades: u64,
    pub total_volume: u64,
    pub trade_through_count: u64,
    pub regime_trade_through: [u64; N_REGIMES],
    pub prev_trade_ts: Option<i64>,
    pub cluster_gap_ns: i64,
    pub current_cluster_size: u64,
    pub total_clustered_trades: u64,
    pub total_clusters: u64,
    pub max_cluster_size: u64,
    /// Trades of at least this size are large; no trade is large before the
    /// threshold is set at the end of the first day.
    pub large_trade_threshold: Option<u64>,
    pub large_trade_buyer_count: u64,
    pub large_trade_seller_count: u64,
    /// Positive timestamps of the day's trades.
    pub day_trade_timestamps: Vec<i64>,
    pub n_days: u32,
}

impl TradeTracker {
    pub open spec fn wf(&self) -> bool {
        &&& self.current_cluster_size <= self.total_trades
        &&& self.at_bid_count + self.at_ask_count + self.inside_count + self.outside_count
            <= self.total_trades
        &&& self.trade_through_count <= self.total_trades
        &&& self.large_trade_buyer_count + self.large_trade_seller_count <= self.total_trades
        &&& self.total_clusters * 2 <= self.total_clustered_trades
        &&& self.max_cluster_size <= self.total_clustered_trades
        &&& forall|i: int| 0 <= i < N_REGIMES ==> #[trigger] self.regime_trade_count@[i] <= self.total_trades
        &&& forall|i: int| 0 <= i < N_REGIMES ==> #[trigger] self.regime_trade_through@[i] <= self.total_trades
    }

    /// Room left in the counters for one more trade and one more end of day.
    pub open spec fn has_headroom(&self) -> bool {
        &&& self.total_trades < u64::MAX
        &&& self.total_volume as int + u32::MAX as int <= u64::MAX as int
        &&& self.total_clustered_trades as int + self.current_cluster_size as int <= u64::MAX as int
        &&& self.total_clusters < u64::MAX
        &&& self.n_days < u32::MAX
    }

    /// Executable check of [`Self::has_headroom`].
    pub fn headroom(&self) -> (r: bool)
        ensures
            r == self.has_headroom(),
    {
        self.total_trades < u64::MAX && self.total_volume <= u64::MAX - (u32::MAX as u64)
            && self.total_clustered_trades <= u64::MAX - self.current_cluster_size
            && self.total_clusters < u64::MAX && self.n_days < u32::MAX
    }

    pub fn new() -> (r: Self)
        ensures
            r.wf(),
            r.total_trades == 0 && r.total_volume == 0,
            r.at_bid_count == 0 && r.at_ask_count == 0 && r.inside_count == 0 && r.outside_count == 0,
            r.trade_through_count == 0,
            r.prev_trade_ts is None,
            r.cluster_gap_ns == DEFAULT_CLUSTER_GAP_NS,
            r.current_cluster_size == 0 && r.total_clustered_trades == 0 && r.total_clusters == 0,
            r.max_cluster_size == 0,
            r.large_trade_threshold is None,
            r.day_trade_timestamps.len() == 0,
            r.n_days == 0,
    {
        TradeTracker {
            regime_trade_count: [0u64; N_REGIMES],
            at_bid_count: 0,
            at_ask_count: 0,
            inside_count: 0,
            outside_count: 0,
            total_trades: 0,
            total_volume: 0,
            trade_through_count: 0,
            regime_trade_through: [0u64; N_REGIMES],
            prev_trade_ts: None,
            cluster_gap_ns: DEFAULT_CLUSTER_GAP_NS,
            current_cluster_size: 0,
            total_clustered_trades: 0,
            total_clusters: 0,
            max_cluster_size: 0,
            large_trade_threshold: None,
            large_trade_buyer_count: 0,
            large_trade_seller_count: 0,
            day_trade_timestamps: Vec::new(),
            n_days: 0,
        }
    }

    /// Close the trade cluster in progress when it holds at least two trades.
    fn close_cluster(&mut self) -> (r: Option<u64>)
        requires
            old(self).wf(),
            old(self).total_clustered_trades as int + old(self).current_cluster_size as int
                <= u64::MAX as int,
            old(self).total_clusters < u64::MAX,
        ensures
            final(self).wf(),
            old(self).current_cluster_size > 1 ==> {
                &&& r == Some(old(self).current_cluster_size)
                &&& final(self).total_clustered_trades == old(self).total_clustered_trades
                    + old(self).current_cluster_size
                &&& final(self).total_clusters == old(self).total_clusters + 1
                &&& final(self).max_cluster_size == (if old(self).current_cluster_size > old(
                    self,
                ).max_cluster_size {
                    old(self).current_cluster_size
                } else {
                    old(self).max_cluster_size
                })
            },
            old(self).current_cluster_size <= 1 ==> {
                &&& r is None
                &&& final(self).total_clustered_trades == old(self).total_clustered_trades
                &&& final(self).total_clusters == old(self).total_clusters
                &&& final(self).max_cluster_size == old(self).max_cluster_size
            },
            final(self).current_cluster_size == old(self).current_cluster_size,
            final(self).total_trades == old(self).total_trades,
            final(self).total_volume == old(self).total_volume,
            final(self).regime_trade_count == old(self).regime_trade_count,
            final(self).regime_trade_through == old(self).regime_trade_through,
            final(self).at_bid_count == old(self).at_bid_count,
            final(self).at_ask_count == old(self).at_ask_count,
            final(self).inside_count == old(self).inside_count,
            final(self).outside_count == old(self).outside_count,
            final(self).trade_through_count == old(self).trade_through_count,
            final(self).prev_trade_ts == old(self).prev_trade_ts,
            final(self).cluster_gap_ns == old(self).cluster_gap_ns,
            final(self).large_trade_threshold == old(self).large_trade_threshold,
            final(self).large_trade_buyer_count == old(self).large_trade_buyer_count,
            final(self).large_trade_seller_count == old(self).large_trade_seller_count,
            final(self).day_trade_timestamps@ == old(self).day_trade_timestamps@,
            final(self).n_days == old(self).n_days,
    {
        if self.current_cluster_size > 1 {
            self.total_clustered_trades = self.total_clustered_trades + self.current_cluster_size;
            self.total_clusters = self.total_clusters + 1;
            if self.current_cluster_size > self.max_cluster_size {
                self.max_cluster_size = self.current_cluster_size;
            }
            Some(self.current_cluster_size)
        } else {
            None
        }
    }

    /// Count the price level and trade-through of a quoted trade, and the
    /// large-trade side split; returns `bid + ask` for a large trade on a
    /// valid book with a positive mid.
    fn record_price_level(&mut self, msg: &OrderEvent, book: &BookSnapshot, regime: u8) -> (r:
        Option<i128>)
        requires
            old(self).wf(),
            old(self).total_trades > 0,
            old(self).at_bid_count + old(self).at_ask_count + old(self).inside_count + old(
                self,
            ).outside_count < old(self).total_trades,
            old(self).trade_through_count < old(self).total_trades,
            old(self).large_trade_buyer_count + old(self).large_trade_seller_count < old(
                self,
            ).total_trades,
            forall|i: int| 0 <= i < N_REGIMES ==> #[trigger] old(self).regime_trade_through@[i] < old(self).total_trades,
        ensures
            final(self).wf(),
            ({
                let quoted = book.best_bid is Some && book.best_ask is Some;
                let bid = book.best_bid->0;
                let ask = book.best_ask->0;
                let level = spec_price_level(msg.price, bid, ask);
                &&& final(self).at_bid_count == old(self).at_bid_count + (if quoted && level
                    == PriceLevel::AtBid {
                    1int
                } else {
                    0
                })
                &&& final(self).at_ask_count == old(self).at_ask_count + (if quoted && level
                    == PriceLevel::AtAsk {
                    1int
                } else {
                    0
                })
                &&& final(self).inside_count == old(self).inside_count + (if quoted && level
                    == PriceLevel::Inside {
                    1int
                } else {
                    0
                })
                &&& final(self).outside_count == old(self).outside_count + (if quoted && level
                    == PriceLevel::Outside {
                    1int
                } else {
                    0
                })
                &&& final(self).trade_through_count == old(self).trade_through_count + (if quoted
                    && is_trade_through(msg.price, bid, ask) {
                    1int
                } else {
                    0
                })
                &&& r == (if quoted && book.is_valid() && bid + ask > 0
                    && old(self).large_trade_threshold is Some && msg.size >= old(
                    self,
                ).large_trade_threshold->0 {
                    Some((bid + ask) as i128)
                } else {
                    None::<i128>
                })
                &&& final(self).regime_trade_through@ == (if quoted && is_trade_through(
                    msg.price,
                    bid,
                    ask,
                ) && regime < N_REGIMES {
                    old(self).regime_trade_through@.update(
                        regime as int,
                        (old(self).regime_trade_through@[regime as int] + 1) as u64,
                    )
                } else {
                    old(self).regime_trade_through@
                })
                &&& final(self).large_trade_buyer_count == old(self).large_trade_buyer_count + (
                if r is Some && msg.side == Side::Bid {
                    1int
                } else {
                    0
                })
                &&& final(self).large_trade_seller_count == old(self).large_trade_seller_count
                    + (if r is Some && msg.side == Side::Ask {
                    1int
                } else {
                    0
                })
            }),
            final(self).total_trades == old(self).total_trades,
            final(self).total_volume == old(self).total_volume,
            final(self).regime_trade_count == old(self).regime_trade_count,
            final(self).prev_trade_ts == old(self).prev_trade_ts,
            final(self).cluster_gap_ns == old(self).cluster_gap_ns,
            final(self).current_cluster_size == old(self).current_cluster_size,
            final(self).total_clustered_trades == old(self).total_clustered_trades,
            final(self).total_clusters == old(self).total_clusters,
            final(self).max_cluster_size == old(self).max_cluster_size,
            final(self).large_trade_threshold == old(self).large_trade_threshold,
            final(self).day_trade_timestamps@ == old(self).day_trade_timestamps@,
            final(self).n_days == old(self).n_days,
    {
        let mut large_trade_mid_x2: Option<i128> = None;
        match (book.best_bid, book.best_ask) {
            (Some(bid), Some(ask)) => {
                match classify_trade_price(msg.price, bid, ask) {
                    PriceLevel::AtBid => {
                        self.at_bid_count = self.at_bid_count + 1;
                    },
                    PriceLevel::AtAsk => {
                        self.at_ask_count = self.at_ask_count + 1;
                    },
                    PriceLevel::Inside => {
                        self.inside_count = self.inside_count + 1;
                    },
                    PriceLevel::Outside => {
                        self.outside_count = self.outside_count + 1;
                    },
                }
                if msg.price < bid || msg.price > ask {
                    self.trade_through_count = self.trade_through_count + 1;
                    if (regime as usize) < N_REGIMES {
                        let idx = regime as usize;
                        self.regime_trade_through[idx] = self.regime_trade_through[idx] + 1;
                    }
                }
                if book.is_valid() {
                    let mid_x2 = bid as i128 + ask as i128;
                    if mid_x2 > 0 {
                        if let Some(threshold) = self.large_trade_threshold {
                            if msg.size as u64 >= threshold {
                                large_trade_mid_x2 = Some(mid_x2);
                                match msg.side {
                                    Side::Bid => {
                                        self.large_trade_buyer_count = self.large_trade_buyer_count
                                            + 1;
                                    },
                                    Side::Ask => {
                                        self.large_trade_seller_count =
                                            self.large_trade_seller_count + 1;
                                    },
                                    Side::Unspecified => {},
                                }
                            }
                        }
                    }
                }
            },
            _ => {},
        }
        large_trade_mid_x2
    }

    /// Record the gap to the previous trade and the clustering it implies;
    /// returns the positive gap, if any, and the size of a cluster closed.
    fn record_timing(&mut self, ts: i64) -> (r: (Option<i128>, Option<u64>))
        requires
            old(self).wf(),
            old(self).total_trades > 0,
            old(self).current_cluster_size < old(self).total_trades,
            old(self).total_clustered_trades as int + old(self).current_cluster_size as int
                <= u64::MAX as int,
            old(self).total_clusters < u64::MAX,
        ensures
            final(self).wf(),
            r.0 == (if old(self).prev_trade_ts is Some && ts > old(self).prev_trade_ts->0 {
                Some((ts - old(self).prev_trade_ts->0) as i128)
            } else {
                None::<i128>
            }),
            final(self).current_cluster_size == (if old(self).prev_trade_ts is None {
                1
            } else if ts <= old(self).prev_trade_ts->0 {
                old(self).current_cluster_size as int
            } else if ts - old(self).prev_trade_ts->0 <= old(self).cluster_gap_ns {
                old(self).current_cluster_size + 1
            } else {
                1
            }),
            r.1 == (if old(self).prev_trade_ts is Some && ts > old(self).prev_trade_ts->0 && ts
                - old(self).prev_trade_ts->0 > old(self).cluster_gap_ns && old(
                self,
            ).current_cluster_size > 1 {
                Some(old(self).current_cluster_size)
            } else {
                None::<u64>
            }),
            final(self).prev_trade_ts == Some(ts),
            final(self).total_clusters == old(self).total_clusters + (if r.1 is Some {
                1int
            } else {
                0
            }),
            final(self).total_clustered_trades == old(self).total_clustered_trades + (
            if r.1 is Some {
                r.1->0 as int
            } else {
                0
            }),
            final(self).max_cluster_size == (if r.1 is Some && r.1->0 > old(
                self,
            ).max_cluster_size {
                r.1->0
            } else {
                old(self).max_cluster_size
            }),
            final(self).total_trades == old(self).total_trades,
            final(self).total_volume == old(self).total_volume,
            final(self).regime_trade_count == old(self).regime_trade_count,
            final(self).regime_trade_through == old(self).regime_trade_through,
            final(self).at_bid_count == old(self).at_bid_count,
            final(self).at_ask_count == old(self).at_ask_count,
            final(self).inside_count == old(self).inside_count,
            final(self).outside_count == old(self).outside_count,
            final(self).trade_through_count == old(self).trade_through_count,
            final(self).cluster_gap_ns == old(self).cluster_gap_ns,
            final(self).large_trade_threshold == old(self).large_trade_threshold,
            final(self).large_trade_buyer_count == old(self).large_trade_buyer_count,
            final(self).large_trade_seller_count == old(self).large_trade_seller_count,
            final(self).day_trade_timestamps@ == old(self).day_trade_timestamps@,
            final(self).n_days == old(self).n_days,
    {
        let mut gap_ns: Option<i128> = None;
        let mut closed_cluster: Option<u64> = None;
        match self.prev_trade_ts {
            Some(prev_ts) => {
                if ts > prev_ts {
                    let gap = ts as i128 - prev_ts as i128;
                    gap_ns = Some(gap);
                    if gap <= self.cluster_gap_ns as i128 {
                        self.current_cluster_size = self.current_cluster_size + 1;
                    } else {
                        closed_cluster = self.close_cluster();
                        self.current_cluster_size = 1;
                    }
                }
            },
            None => {
                self.current_cluster_size = 1;
            },
        }
        self.prev_trade_ts = Some(ts);
        (gap_ns, closed_cluster)
    }

    /// Process one event and the book it produced. Executions (`Trade` or
    /// `Fill`) are counted and classified; other events are ignored.
    pub fn process_event(&mut self, msg: &OrderEvent, book: &BookSnapshot, regime: u8) -> (r:
        Option<TradeObservation>)
        requires
            old(self).wf(),
            old(self).has_headroom(),
        ensures
            final(self).wf(),
            final(self).n_days == old(self).n_days,
            final(self).large_trade_threshold == old(self).large_trade_threshold,
            final(self).cluster_gap_ns == old(self).cluster_gap_ns,
            !msg.is_execution() ==> {
                &&& r is None
                &&& final(self).total_trades == old(self).total_trades
                &&& final(self).total_volume == old(self).total_volume
                &&& final(self).at_bid_count == old(self).at_bid_count
                &&& final(self).at_ask_count == old(self).at_ask_count
                &&& final(self).inside_count == old(self).inside_count
                &&& final(self).outside_count == old(self).outside_count
                &&& final(self).trade_through_count == old(self).trade_through_count
                &&& final(self).prev_trade_ts == old(self).prev_trade_ts
                &&& final(self).current_cluster_size == old(self).current_cluster_size
                &&& final(self).day_trade_timestamps@ == old(self).day_trade_timestamps@
                &&& final(self).regime_trade_count == old(self).regime_trade_count
                &&& final(self).regime_trade_through == old(self).regime_trade_through
                &&& final(self).total_clusters == old(self).total_clusters
                &&& final(self).total_clustered_trades == old(self).total_clustered_trades
                &&& final(self).max_cluster_size == old(self).max_cluster_size
                &&& final(self).large_trade_buyer_count == old(self).large_trade_buyer_count
                &&& final(self).large_trade_seller_count == old(self).large_trade_seller_count
            },
            msg.is_execution() ==> ({
                let ts = match msg.timestamp {
                    Some(t) => t,
                    None => 0i64,
                };
                let quoted = book.best_bid is Some && book.best_ask is Some;
                let bid = book.best_bid->0;
                let ask = book.best_ask->0;
                let level = spec_price_level(msg.price, bid, ask);
                &&& r is Some
                &&& r->0.size == msg.size && r->0.side == msg.side && r->0.price == msg.price
                &&& final(self).total_trades == old(self).total_trades + 1
                &&& final(self).total_volume == old(self).total_volume + msg.size
                &&& final(self).day_trade_timestamps@ == (if ts > 0 {
                    old(self).day_trade_timestamps@.push(ts)
                } else {
                    old(self).day_trade_timestamps@
                })
                &&& final(self).prev_trade_ts == Some(ts)
                // Exactly one price level is counted for a quoted trade, none otherwise.
                &&& final(self).at_bid_count == old(self).at_bid_count + (if quoted && level
                    == PriceLevel::AtBid {
                    1int
                } else {
                    0
                })
                &&& final(self).at_ask_count == old(self).at_ask_count + (if quoted && level
                    == PriceLevel::AtAsk {
                    1int
                } else {
                    0
                })
                &&& final(self).inside_count == old(self).inside_count + (if quoted && level
                    == PriceLevel::Inside {
                    1int
                } else {
                    0
                })
                &&& final(self).outside_count == old(self).outside_count + (if quoted && level
                    == PriceLevel::Outside {
                    1int
                } else {
                    0
                })
                &&& final(self).trade_through_count == old(self).trade_through_count + (if quoted
                    && is_trade_through(msg.price, bid, ask) {
                    1int
                } else {
                    0
                })
                // Gaps and clusters.
                &&& r->0.gap_ns == (if old(self).prev_trade_ts is Some && ts > old(
                    self,
                ).prev_trade_ts->0 {
                    Some((ts - old(self).prev_trade_ts->0) as i128)
                } else {
                    None::<i128>
                })
                &&& final(self).current_cluster_size == (if old(self).prev_trade_ts is None {
                    1
                } else if ts <= old(self).prev_trade_ts->0 {
                    old(self).current_cluster_size as int
                } else if ts - old(self).prev_trade_ts->0 <= old(self).cluster_gap_ns {
                    old(self).current_cluster_size + 1
                } else {
                    1
                })
                &&& r->0.closed_cluster == (if old(self).prev_trade_ts is Some && ts > old(
                    self,
                ).prev_trade_ts->0 && ts - old(self).prev_trade_ts->0 > old(self).cluster_gap_ns
                    && old(self).current_cluster_size > 1 {
                    Some(old(self).current_cluster_size)
                } else {
                    None::<u64>
                })
                // Large trades on a valid book with a positive mid.
                &&& r->0.large_trade_mid_x2 == (if quoted && book.is_valid() && bid + ask > 0
                    && old(self).large_trade_threshold is Some && msg.size >= old(
                    self,
                ).large_trade_threshold->0 {
                    Some((bid + ask) as i128)
                } else {
                    None::<i128>
                })
                &&& final(self).large_trade_buyer_count == old(self).large_trade_buyer_count + (
                if r->0.large_trade_mid_x2 is Some && msg.side == Side::Bid {
                    1int
                } else {
                    0
                })
                &&& final(self).large_trade_seller_count == old(self).large_trade_seller_count
                    + (if r->0.large_trade_mid_x2 is Some && msg.side == Side::Ask {
                    1int
                } else {
                    0
                })
                // Per-regime counts, for a regime in range.
                &&& final(self).regime_trade_count@ == (if regime < N_REGIMES {
                    old(self).regime_trade_count@.update(
                        regime as int,
                        (old(self).regime_trade_count@[regime as int] + 1) as u64,
                    )
                } else {
                    old(self).regime_trade_count@
                })
                &&& final(self).regime_trade_through@ == (if quoted && is_trade_through(
                    msg.price,
                    bid,
                    ask,
                ) && regime < N_REGIMES {
                    old(self).regime_trade_through@.update(
                        regime as int,
                        (old(self).regime_trade_through@[regime as int] + 1) as u64,
                    )
                } else {
                    old(self).regime_trade_through@
                })
                // A closed cluster joins the cluster statistics.
                &&& final(self).total_clusters == old(self).total_clusters + (
                if r->0.closed_cluster is Some {
                    1int
                } else {
                    0
                })
                &&& final(self).total_clustered_trades == old(self).total_clustered_trades + (
                if r->0.closed_cluster is Some {
                    r->0.closed_cluster->0 as int
                } else {
                    0
                })
                &&& final(self).max_cluster_size == (if r->0.closed_cluster is Some
                    && r->0.closed_cluster->0 > old(self).max_cluster_size {
                    r->0.closed_cluster->0
                } else {
                    old(self).max_cluster_size
                })
            }),
    {
        if !msg.is_execution() {
            return None;
        }
        let size = msg.size;
        let ts = match msg.timestamp {
            Some(t) => t,
            None => 0,
        };
        self.total_trades = self.total_trades + 1;
        self.total_volume = self.total_volume + size as u64;
        if ts > 0 {
            self.day_trade_timestamps.push(ts);
        }
        if (regime as usize) < N_REGIMES {
            let idx = regime as usize;
            self.regime_trade_count[idx] = self.regime_trade_count[idx] + 1;
        }
        let large_trade_mid_x2 = self.record_price_level(msg, book, regime);
        let (gap_ns, closed_cluster) = self.record_timing(ts);
        Some(
            TradeObservation {
                size,
                side: msg.side,
                price: msg.price,
                gap_ns,
                closed_cluster,
                large_trade_mid_x2,
            },
        )
    }

    /// Close the day: the last cluster of the day is closed, and after the
    /// first day the large-trade threshold is set from the 95th percentile
    /// of trade sizes, as the smallest size at or above it (`None` when the
    /// percentile is undefined or below one share).
    pub fn end_of_day(&mut self, size_p95_ceiling: Option<u64>) -> (r: Option<u64>)
        requires
            old(self).wf(),
            old(self).has_headroom(),
        ensures
            final(self).wf(),
            final(self).n_days == old(self).n_days + 1,
            r == (if old(self).current_cluster_size > 1 {
                Some(old(self).current_cluster_size)
            } else {
                None::<u64>
            }),
            final(self).large_trade_threshold == (if old(self).n_days == 0 {
                size_p95_ceiling
            } else {
                old(self).large_trade_threshold
            }),
            final(self).total_clustered_trades == old(self).total_clustered_trades + (if old(
                self,
            ).current_cluster_size > 1 {
                old(self).current_cluster_size as int
            } else {
                0
            }),
            final(self).total_clusters == old(self).total_clusters + (if old(
                self,
            ).current_cluster_size > 1 {
                1int
            } else {
                0
            }),
            final(self).max_cluster_size == (if old(self).current_cluster_size > 1 && old(
                self,
            ).current_cluster_size > old(self).max_cluster_size {
                old(self).current_cluster_size
            } else {
                old(self).max_cluster_size
            }),
            final(self).total_trades == old(self).total_trades,
            final(self).total_volume == old(self).total_volume,
            final(self).at_bid_count == old(self).at_bid_count,
            final(self).at_ask_count == old(self).at_ask_count,
            final(self).inside_count == old(self).inside_count,
            final(self).outside_count == old(self).outside_count,
            final(self).trade_through_count == old(self).trade_through_count,
            final(self).prev_trade_ts == old(self).prev_trade_ts,
            final(self).current_cluster_size == old(self).current_cluster_size,
            final(self).day_trade_timestamps@ == old(self).day_trade_timestamps@,
    {
        let closed = self.close_cluster();
        if self.n_days == 0 {
            self.large_trade_threshold = size_p95_ceiling;
        }
        self.n_days = self.n_days + 1;
        closed
    }

    /// Forget the previous trade and the cluster in progress; clear the day's timestamps.
    pub fn reset_day(&mut self)
        requires
            old(self).wf(),
        ensures
            final(self).wf(),
            final(self).prev_trade_ts is None,
            final(self).current_cluster_size == 0,
            final(self).day_trade_timestamps.len() == 0,
            final(self).total_trades == old(self).total_trades,
            final(self).total_volume == old(self).total_volume,
            final(self).at_bid_count == old(self).at_bid_count,
            final(self).at_ask_count == old(self).at_ask_count,
            final(self).inside_count == old(self).inside_count,
            final(self).outside_count == old(self).outside_count,
            final(self).trade_through_count == old(self).trade_through_count,
            final(self).regime_trade_count == old(self).regime_trade_count,
            final(self).regime_trade_through == old(self).regime_trade_through,
            final(self).max_cluster_size == old(self).max_cluster_size,
            final(self).large_trade_buyer_count == old(self).large_trade_buyer_count,
            final(self).large_trade_seller_count == old(self).large_trade_seller_count,
            final(self).cluster_gap_ns == old(self).cluster_gap_ns,
            final(self).total_clustered_trades == old(self).total_clustered_trades,
            final(self).total_clusters == old(self).total_clusters,
            final(self).n_days == old(self).n_days,
            final(self).large_trade_threshold == old(self).large_trade_threshold,
    {
        self.prev_trade_ts = None;
        self.current_cluster_size = 0;
        self.day_trade_timestamps.clear();
    }

    /// The tracker's report name, `TradeTracker`.
    pub fn name(&self) -> (r: &'static str)
        ensures
            r@ == "TradeTracker"@,
    {
        "TradeTracker"
    }
}

/// When the best bid does not exceed the best ask, a trade is a
/// trade-through exactly when it is classified outside the quotes.
pub proof fn lemma_trade_through_iff_outside(price: i64, bid: i64, ask: i64)
    requires
        bid <= ask,
    ensures
        is_trade_through(price, bid, ask) <==> spec_price_level(price, bid, ask)
            == PriceLevel::Outside,
{
}


impl Default for TradeTracker {
    fn default() -> (r: Self)
        ensures
            r.wf(),
            r.total_trades == 0,
            r.large_trade_threshold is None,
            r.n_days == 0,
    {
        TradeTracker::new()
    }
}

} // verus!
