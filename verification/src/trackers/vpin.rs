//! Volume-synchronized probability of informed trading: the volume-bar
//! construction.
//!
//! Aggressor prints (`Action::TradeAggregate`) are accumulated into bars of
//! a fixed number of shares. On an aggressor print `side` is the aggressor's
//! own side: `Bid` means the aggressor bought, `Ask` that it sold; an
//! undisclosed side is split evenly between buy and sell. A print that
//! overflows the bar closes it and carries the excess into the next bar,
//! classified by the same rule.

use vstd::prelude::*;
use crate::book::{Action, BookSnapshot, OrderEvent, Side};

verus! {

/// Default shares per volume bar.
pub const DEFAULT_VOLUME_BAR_SIZE: u64 = 5000;

/// Default number of bars in the rolling VPIN window.
pub const DEFAULT_WINDOW_BARS: usize = 50;

/// Magnitude bound on a price in nanodollars.
pub open spec fn price_bound() -> int {
    0x8000_0000_0000_0000
}

/// The buy share of `x` shares printed with aggressor side `side`.
pub open spec fn buy_part(side: Side, x: int) -> int {
    match side {
        Side::Bid => x,
        Side::Ask => 0,
        Side::Unspecified => x / 2,
    }
}

/// The sell share of `x` shares printed with aggressor side `side`.
pub open spec fn sell_part(side: Side, x: int) -> int {
    match side {
        Side::Bid => 0,
        Side::Ask => x,
        Side::Unspecified => x - x / 2,
    }
}

/// A completed volume bar. Prices are nanodollars; `value_sum` is the
/// traded value in nanodollar-shares.
#[derive(Clone, Copy, Debug, PartialEq, Eq, Structural)]
pub struct VolumeBar {
    pub open_price: i64,
    pub close_price: i64,
    pub value_sum: i128,
    pub total_volume: u64,
    pub buy_volume: u64,
    pub sell_volume: u64,
    pub timestamp_ns: i64,
}

/// Integer core of the VPIN tracker.
pub struct VpinTracker {
    pub volume_bar_size: u64,
    pub window_bars: usize,
    pub current_bar_volume: u64,
    pub current_bar_buy_vol: u64,
    pub current_bar_sell_vol: u64,
    pub current_bar_value_sum: i128,
    pub current_bar_open_price: i64,
    pub current_bar_last_price: i64,
    pub current_bar_first_ts: i64,
    /// The day's completed bars.
    pub completed_bars: Vec<VolumeBar>,
    /// The day's non-negative spread samples `(timestamp, spread in nanodollars)`.
    pub day_spreads: Vec<(i64, i128)>,
    pub n_days: u32,
    pub n_volume_bars_total: u64,
    /// Day context cached by `begin_day`.
    pub utc_offset: i32,
}

/// The `m`-th bar closed by a print of `size` shares at `price` and time `ts`
/// with aggressor side `side`, given the bar in progress before the print.
/// The first bar closed takes the shares that fill the bar in progress;
/// each further bar takes a full bar's worth of the print. Each share is
/// classified into the bar that holds it.
pub open spec fn closed_bar(
    t: VpinTracker,
    side: Side,
    price: i64,
    size: int,
    ts: i64,
    m: int,
) -> VolumeBar {
    let v = t.volume_bar_size as int;
    if m == 0 {
        let fill = v - t.current_bar_volume;
        VolumeBar {
            open_price: if t.current_bar_volume == 0 {
                price
            } else {
                t.current_bar_open_price
            },
            close_price: price,
            value_sum: (t.current_bar_value_sum as int + price as int * fill) as i128,
            total_volume: t.volume_bar_size,
            buy_volume: (t.current_bar_buy_vol as int + buy_part(side, fill)) as u64,
            sell_volume: (t.current_bar_sell_vol as int + sell_part(side, fill)) as u64,
            timestamp_ns: if t.current_bar_volume == 0 {
                ts
            } else {
                t.current_bar_first_ts
            },
        }
    } else {
        VolumeBar {
            open_price: price,
            close_price: price,
            value_sum: (price as int * v) as i128,
            total_volume: t.volume_bar_size,
            buy_volume: buy_part(side, v) as u64,
            sell_volume: sell_part(side, v) as u64,
            timestamp_ns: ts,
        }
    }
}

/// The smaller of two integers.
pub open spec fn min_int(a: int, b: int) -> int {
    if a < b { a } else { b }
}

/// The sum of the volumes of a sequence of bars.
pub open spec fn bars_volume(s: Seq<VolumeBar>) -> int
    decreases s.len(),
{
    if s.len() == 0 {
        0
    } else {
        bars_volume(s.drop_last()) + s.last().total_volume as int
    }
}

impl VpinTracker {
    pub open spec fn wf(&self) -> bool {
        &&& self.volume_bar_size > 0
        &&& self.volume_bar_size as int + u32::MAX as int <= u64::MAX as int
        &&& self.window_bars > 0
        &&& self.current_bar_volume < self.volume_bar_size
        &&& self.current_bar_buy_vol as int + self.current_bar_sell_vol as int
            == self.current_bar_volume as int
        &&& -(self.current_bar_volume as int) * price_bound() <= self.current_bar_value_sum as int
            <= (self.current_bar_volume as int) * price_bound()
        &&& forall|i: int|
            0 <= i < self.completed_bars.len() ==> #[trigger] self.completed_bars@[i].buy_volume
                + self.completed_bars@[i].sell_volume == self.completed_bars@[i].total_volume
        &&& self.current_bar_volume == 0 ==> {
            &&& self.current_bar_value_sum == 0
            &&& self.current_bar_open_price == 0
            &&& self.current_bar_last_price == 0
            &&& self.current_bar_first_ts == 0
        }
    }

    /// Room left in the bar counters for one more print or end of day.
    pub open spec fn has_headroom(&self) -> bool {
        &&& self.n_volume_bars_total as int + u32::MAX as int + 1 <= u64::MAX as int
        &&& self.n_days < u32::MAX
    }

    /// Executable check of [`Self::has_headroom`].
    pub fn headroom(&self) -> (r: bool)
        ensures
            r == self.has_headroom(),
    {
        self.n_volume_bars_total <= u64::MAX - (u32::MAX as u64) - 1 && self.n_days < u32::MAX
    }

    /// A tracker with bars of `volume_bar_size` shares and a rolling window
    /// of `window_bars` bars; a zero argument selects the default.
    pub fn new(volume_bar_size: u64, window_bars: usize) -> (r: Self)
        requires
            volume_bar_size as int + u32::MAX as int <= u64::MAX as int,
        ensures
            r.wf(),
            r.has_headroom(),
            r.volume_bar_size == (if volume_bar_size > 0 {
                volume_bar_size
            } else {
                DEFAULT_VOLUME_BAR_SIZE
            }),
            r.window_bars == (if window_bars > 0 {
                window_bars
            } else {
                DEFAULT_WINDOW_BARS
            }),
            r.current_bar_volume == 0,
            r.completed_bars.len() == 0,
            r.day_spreads.len() == 0,
            r.n_days == 0,
            r.n_volume_bars_total == 0,
            r.utc_offset == -5,
    {
        VpinTracker {
            volume_bar_size: if volume_bar_size > 0 {
                volume_bar_size
            } else {
                DEFAULT_VOLUME_BAR_SIZE
            },
            window_bars: if window_bars > 0 {
                window_bars
            } else {
                DEFAULT_WINDOW_BARS
            },
            current_bar_volume: 0,
            current_bar_buy_vol: 0,
            current_bar_sell_vol: 0,
            current_bar_value_sum: 0,
            current_bar_open_price: 0,
            current_bar_last_price: 0,
            current_bar_first_ts: 0,
            completed_bars: Vec::new(),
            day_spreads: Vec::new(),
            n_days: 0,
            n_volume_bars_total: 0,
            utc_offset: -5,
        }
    }

    /// Cache the day context.
    pub fn begin_day(&mut self, day_index: u32, utc_offset: i32, day_epoch_ns: i64)
        ensures
            final(self).utc_offset == utc_offset,
            final(self).volume_bar_size == old(self).volume_bar_size,
            final(self).window_bars == old(self).window_bars,
            final(self).current_bar_volume == old(self).current_bar_volume,
            final(self).current_bar_buy_vol == old(self).current_bar_buy_vol,
            final(self).current_bar_sell_vol == old(self).current_bar_sell_vol,
            final(self).current_bar_value_sum == old(self).current_bar_value_sum,
            final(self).current_bar_open_price == old(self).current_bar_open_price,
            final(self).current_bar_last_price == old(self).current_bar_last_price,
            final(self).current_bar_first_ts == old(self).current_bar_first_ts,
            final(self).completed_bars@ == old(self).completed_bars@,
            final(self).day_spreads@ == old(self).day_spreads@,
            final(self).n_days == old(self).n_days,
            final(self).n_volume_bars_total == old(self).n_volume_bars_total,
    {
        self.utc_offset = utc_offset;
    }

    /// Clear the bar in progress.
    fn reset_current_bar(&mut self)
        ensures
            final(self).current_bar_volume == 0,
            final(self).current_bar_buy_vol == 0,
            final(self).current_bar_sell_vol == 0,
            final(self).current_bar_value_sum == 0,
            final(self).current_bar_open_price == 0,
            final(self).current_bar_last_price == 0,
            final(self).current_bar_first_ts == 0,
            final(self).volume_bar_size == old(self).volume_bar_size,
            final(self).window_bars == old(self).window_bars,
            final(self).completed_bars@ == old(self).completed_bars@,
            final(self).day_spreads@ == old(self).day_spreads@,
            final(self).n_days == old(self).n_days,
            final(self).n_volume_bars_total == old(self).n_volume_bars_total,
            final(self).utc_offset == old(self).utc_offset,
    {
        self.current_bar_volume = 0;
        self.current_bar_buy_vol = 0;
        self.current_bar_sell_vol = 0;
        self.current_bar_value_sum = 0;
        self.current_bar_open_price = 0;
        self.current_bar_last_price = 0;
        self.current_bar_first_ts = 0;
    }

    /// Close the bar in progress, if it holds any volume, and start an empty one.
    fn complete_bar(&mut self)
        requires
            old(self).n_volume_bars_total < u64::MAX,
        ensures
            final(self).completed_bars@ == (if old(self).current_bar_volume == 0 {
                old(self).completed_bars@
            } else {
                old(self).completed_bars@.push(
                    VolumeBar {
                        open_price: old(self).current_bar_open_price,
                        close_price: old(self).current_bar_last_price,
                        value_sum: old(self).current_bar_value_sum,
                        total_volume: old(self).current_bar_volume,
                        buy_volume: old(self).current_bar_buy_vol,
                        sell_volume: old(self).current_bar_sell_vol,
                        timestamp_ns: old(self).current_bar_first_ts,
                    },
                )
            }),
            final(self).n_volume_bars_total == old(self).n_volume_bars_total + (if old(
                self,
            ).current_bar_volume == 0 {
                0int
            } else {
                1
            }),
            old(self).current_bar_volume != 0 ==> {
                &&& final(self).current_bar_volume == 0
                &&& final(self).current_bar_buy_vol == 0
                &&& final(self).current_bar_sell_vol == 0
                &&& final(self).current_bar_value_sum == 0
                &&& final(self).current_bar_open_price == 0
                &&& final(self).current_bar_last_price == 0
                &&& final(self).current_bar_first_ts == 0
            },
            old(self).current_bar_volume == 0 ==> {
                &&& final(self).current_bar_volume == old(self).current_bar_volume
                &&& final(self).current_bar_buy_vol == old(self).current_bar_buy_vol
                &&& final(self).current_bar_sell_vol == old(self).current_bar_sell_vol
                &&& final(self).current_bar_value_sum == old(self).current_bar_value_sum
                &&& final(self).current_bar_open_price == old(self).current_bar_open_price
                &&& final(self).current_bar_last_price == old(self).current_bar_last_price
                &&& final(self).current_bar_first_ts == old(self).current_bar_first_ts
            },
            final(self).volume_bar_size == old(self).volume_bar_size,
            final(self).window_bars == old(self).window_bars,
            final(self).day_spreads@ == old(self).day_spreads@,
            final(self).n_days == old(self).n_days,
            final(self).utc_offset == old(self).utc_offset,
    {
        if self.current_bar_volume == 0 {
            return;
        }
        self.completed_bars.push(
            VolumeBar {
                open_price: self.current_bar_open_price,
                close_price: self.current_bar_last_price,
                value_sum: self.current_bar_value_sum,
                total_volume: self.current_bar_volume,
                buy_volume: self.current_bar_buy_vol,
                sell_volume: self.current_bar_sell_vol,
                timestamp_ns: self.current_bar_first_ts,
            },
        );
        self.n_volume_bars_total = self.n_volume_bars_total + 1;
        self.reset_current_bar();
    }

    /// Process one event and the book it produced: record the spread of a
    /// valid book, and accumulate an aggressor print into volume bars.
    #[verifier::rlimit(40)]
    pub fn process_event(&mut self, msg: &OrderEvent, book: &BookSnapshot)
        requires
            old(self).wf(),
            old(self).has_headroom(),
        ensures
            final(self).wf(),
            final(self).volume_bar_size == old(self).volume_bar_size,
            final(self).window_bars == old(self).window_bars,
            final(self).n_days == old(self).n_days,
            final(self).utc_offset == old(self).utc_offset,
            // Spread samples of valid books.
            final(self).day_spreads@ == (if book.is_valid() && book.spec_spread() is Some
                && msg.timestamp is Some && book.spec_spread()->0 >= 0 {
                old(self).day_spreads@.push(
                    (msg.timestamp->0, book.spec_spread()->0 as i128),
                )
            } else {
                old(self).day_spreads@
            }),
            ({
                let admitted = book.is_valid() && msg.action == Action::TradeAggregate
                    && msg.size > 0;
                let size = msg.size as int;
                let ts = match msg.timestamp {
                    Some(t) => t,
                    None => 0i64,
                };
                let v = old(self).volume_bar_size as int;
                let total = old(self).current_bar_volume as int + size;
                let k = total / v;
                let rem = total % v;
                if !admitted {
                    &&& final(self).completed_bars@ == old(self).completed_bars@
                    &&& final(self).n_volume_bars_total == old(self).n_volume_bars_total
                    &&& final(self).current_bar_volume == old(self).current_bar_volume
                    &&& final(self).current_bar_buy_vol == old(self).current_bar_buy_vol
                    &&& final(self).current_bar_sell_vol == old(self).current_bar_sell_vol
                    &&& final(self).current_bar_value_sum == old(self).current_bar_value_sum
                    &&& final(self).current_bar_open_price == old(self).current_bar_open_price
                    &&& final(self).current_bar_last_price == old(self).current_bar_last_price
                    &&& final(self).current_bar_first_ts == old(self).current_bar_first_ts
                } else {
                    // `total / V` bars close, the remainder stays in progress.
                    &&& final(self).completed_bars@ == old(self).completed_bars@ + Seq::new(
                        k as nat,
                        |m: int| closed_bar(*old(self), msg.side, msg.price, size, ts, m),
                    )
                    &&& final(self).n_volume_bars_total == old(self).n_volume_bars_total + k
                    &&& final(self).current_bar_volume == rem
                    &&& k == 0 ==> {
                        &&& final(self).current_bar_buy_vol == old(self).current_bar_buy_vol
                            + buy_part(msg.side, size)
                        &&& final(self).current_bar_sell_vol == old(self).current_bar_sell_vol
                            + sell_part(msg.side, size)
                        &&& final(self).current_bar_value_sum == old(
                            self,
                        ).current_bar_value_sum + msg.price * size
                        &&& final(self).current_bar_last_price == msg.price
                        &&& final(self).current_bar_open_price == (if old(
                            self,
                        ).current_bar_volume == 0 {
                            msg.price
                        } else {
                            old(self).current_bar_open_price
                        })
                        &&& final(self).current_bar_first_ts == (if old(
                            self,
                        ).current_bar_volume == 0 {
                            ts
                        } else {
                            old(self).current_bar_first_ts
                        })
                    }
                    &&& (k > 0 && rem > 0) ==> {
                        &&& final(self).current_bar_buy_vol == buy_part(msg.side, rem)
                        &&& final(self).current_bar_sell_vol == sell_part(msg.side, rem)
                        &&& final(self).current_bar_value_sum == msg.price * rem
                        &&& final(self).current_bar_open_price == msg.price
                        &&& final(self).current_bar_last_price == msg.price
                        &&& final(self).current_bar_first_ts == ts
                    }
                }
            }),
    {
        if !book.is_valid() {
            return;
        }
        if let Some(spread) = book.spread() {
            if let Some(ts) = msg.timestamp {
                if spread >= 0 {
                    self.day_spreads.push((ts, spread));
                }
            }
        }
        match msg.action {
            Action::TradeAggregate => {},
            _ => {
                return;
            },
        }
        if msg.size == 0 {
            return;
        }
        let price = msg.price;
        let size = msg.size as u64;
        let ts = match msg.timestamp {
            Some(t) => t,
            None => 0,
        };
        let ghost old_self = *old(self);
        let ghost spreads_after = self.day_spreads@;
        let ghost old_bars = self.completed_bars@;
        let ghost total = self.current_bar_volume as int + size as int;
        let ghost v = self.volume_bar_size as int;
        let ghost side = msg.side;

        // The shares that go into the bar in progress: all of the print, or
        // as many as fill the bar.
        let room = self.volume_bar_size - self.current_bar_volume;
        let first = if size < room {
            size
        } else {
            room
        };
        if self.current_bar_volume == 0 {
            self.current_bar_open_price = price;
            self.current_bar_first_ts = ts;
        }
        self.current_bar_last_price = price;
        proof {
            lemma_value_bound(price as int, first as int, self.current_bar_value_sum as int,
                self.current_bar_volume as int);
        }
        self.current_bar_value_sum = self.current_bar_value_sum + (price as i128) * (first as i128);
        proof {
            lemma_parts_split(msg.side, first as int);
        }
        self.add_shares(msg.side, first);
        self.current_bar_volume = self.current_bar_volume + first;
        let mut remaining: u64 = size - first;

        let ghost mut j: int = 0;
        while self.current_bar_volume >= self.volume_bar_size
            invariant
                0 <= j,
                self.volume_bar_size == old_self.volume_bar_size,
                self.window_bars == old_self.window_bars,
                self.n_days == old_self.n_days,
                self.utc_offset == old_self.utc_offset,
                self.day_spreads@ == spreads_after,
                v == self.volume_bar_size as int,
                v > 0,
                v + u32::MAX <= u64::MAX,
                total == old_self.current_bar_volume as int + size as int,
                old_self.current_bar_volume < v,
                old_self.wf(),
                side == msg.side,
                self.current_bar_buy_vol as int + self.current_bar_sell_vol as int
                    == self.current_bar_volume as int,
                forall|i: int|
                    0 <= i < self.completed_bars.len() ==> #[trigger] self.completed_bars@[i].buy_volume
                        + self.completed_bars@[i].sell_volume
                        == self.completed_bars@[i].total_volume,
                1 <= size <= u32::MAX,
                -price_bound() <= price < price_bound(),
                j * v <= total,
                self.current_bar_volume as int == min_int(total - j * v, v),
                remaining as int == total - j * v - self.current_bar_volume,
                self.completed_bars@ == old_bars + Seq::new(
                    j as nat,
                    |m: int| closed_bar(old_self, side, price, size as int, ts, m),
                ),
                self.n_volume_bars_total == old_self.n_volume_bars_total + j,
                old_self.n_volume_bars_total as int + u32::MAX as int + 1 <= u64::MAX as int,
                -(self.current_bar_volume as int) * price_bound()
                    <= self.current_bar_value_sum as int
                    <= (self.current_bar_volume as int) * price_bound(),
                j == 0 ==> {
                    let fill = self.current_bar_volume - old_self.current_bar_volume;
                    &&& self.current_bar_buy_vol == old_self.current_bar_buy_vol + buy_part(
                        side,
                        fill,
                    )
                    &&& self.current_bar_sell_vol == old_self.current_bar_sell_vol + sell_part(
                        side,
                        fill,
                    )
                    &&& self.current_bar_value_sum == old_self.current_bar_value_sum + price
                        * fill
                    &&& self.current_bar_last_price == price
                    &&& self.current_bar_open_price == (if old_self.current_bar_volume == 0 {
                        price
                    } else {
                        old_self.current_bar_open_price
                    })
                    &&& self.current_bar_first_ts == (if old_self.current_bar_volume == 0 {
                        ts
                    } else {
                        old_self.current_bar_first_ts
                    })
                },
                j > 0 ==> {
                    &&& self.current_bar_buy_vol == buy_part(side, self.current_bar_volume as int)
                    &&& self.current_bar_sell_vol == sell_part(
                        side,
                        self.current_bar_volume as int,
                    )
                    &&& self.current_bar_value_sum == price * self.current_bar_volume
                    &&& self.current_bar_volume > 0 ==> {
                        &&& self.current_bar_open_price == price
                        &&& self.current_bar_last_price == price
                        &&& self.current_bar_first_ts == ts
                    }
                    &&& self.current_bar_volume == 0 ==> {
                        &&& self.current_bar_open_price == 0
                        &&& self.current_bar_last_price == 0
                        &&& self.current_bar_first_ts == 0
                        &&& self.current_bar_value_sum == 0
                    }
                },
            decreases remaining + self.current_bar_volume,
        {
            proof {
                lemma_bar_count_bound(total, v, j, size as int, old_self.current_bar_volume as int);
            }
            let ghost before = *self;
            self.complete_bar();
            proof {
                assert forall|i: int| 0 <= i < self.completed_bars.len() implies #[trigger] self.completed_bars@[i].buy_volume
                    + self.completed_bars@[i].sell_volume == self.completed_bars@[i].total_volume by {
                    if i < before.completed_bars.len() {
                        assert(self.completed_bars@[i] == before.completed_bars@[i]);
                    }
                }
                let nb = Seq::new(
                    (j + 1) as nat,
                    |m: int| closed_bar(old_self, side, price, size as int, ts, m),
                );
                let pb = Seq::new(
                    j as nat,
                    |m: int| closed_bar(old_self, side, price, size as int, ts, m),
                );
                assert(nb =~= pb.push(closed_bar(old_self, side, price, size as int, ts, j)));
                assert(old_bars + nb =~= (old_bars + pb).push(
                    closed_bar(old_self, side, price, size as int, ts, j),
                ));
            }
            let next = if remaining < self.volume_bar_size {
                remaining
            } else {
                self.volume_bar_size
            };
            if next > 0 {
                self.current_bar_volume = next;
                self.current_bar_open_price = price;
                self.current_bar_first_ts = ts;
                self.current_bar_last_price = price;
                proof {
                    lemma_price_times_volume(price as int, next as int);
                }
                self.current_bar_value_sum = (price as i128) * (next as i128);
                proof {
                    lemma_parts_split(msg.side, next as int);
                }
                self.add_shares(msg.side, next);
            }
            remaining = remaining - next;
            proof {
                assert(price as int * 0 == 0);
                j = j + 1;
                assert(j * v == (j - 1) * v + v) by (nonlinear_arith);
            }
        }
        proof {
            assert(total - j * v == self.current_bar_volume as int);
            lemma_div_mod_from_bounds(total, v, j);
        }
    }

    /// Classify `x` shares printed with aggressor side `side` into the bar in
    /// progress.
    fn add_shares(&mut self, side: Side, x: u64)
        requires
            old(self).current_bar_buy_vol as int + old(self).current_bar_sell_vol as int + x
                <= u64::MAX,
        ensures
            final(self).current_bar_buy_vol == old(self).current_bar_buy_vol + buy_part(
                side,
                x as int,
            ),
            final(self).current_bar_sell_vol == old(self).current_bar_sell_vol + sell_part(
                side,
                x as int,
            ),
            final(self).current_bar_volume == old(self).current_bar_volume,
            final(self).current_bar_value_sum == old(self).current_bar_value_sum,
            final(self).current_bar_open_price == old(self).current_bar_open_price,
            final(self).current_bar_last_price == old(self).current_bar_last_price,
            final(self).current_bar_first_ts == old(self).current_bar_first_ts,
            final(self).completed_bars@ == old(self).completed_bars@,
            final(self).day_spreads@ == old(self).day_spreads@,
            final(self).volume_bar_size == old(self).volume_bar_size,
            final(self).window_bars == old(self).window_bars,
            final(self).n_days == old(self).n_days,
            final(self).n_volume_bars_total == old(self).n_volume_bars_total,
            final(self).utc_offset == old(self).utc_offset,
    {
        match side {
            Side::Bid => {
                self.current_bar_buy_vol = self.current_bar_buy_vol + x;
            },
            Side::Ask => {
                self.current_bar_sell_vol = self.current_bar_sell_vol + x;
            },
            Side::Unspecified => {
                self.current_bar_buy_vol = self.current_bar_buy_vol + x / 2;
                self.current_bar_sell_vol = self.current_bar_sell_vol + (x - x / 2);
            },
        }
    }

    /// Close the day: a partially filled bar is closed as it stands.
    pub fn end_of_day(&mut self)
        requires
            old(self).wf(),
            old(self).has_headroom(),
        ensures
            final(self).wf(),
            final(self).n_days == old(self).n_days + 1,
            final(self).current_bar_volume == 0,
            final(self).completed_bars@ == (if old(self).current_bar_volume == 0 {
                old(self).completed_bars@
            } else {
                old(self).completed_bars@.push(
                    VolumeBar {
                        open_price: old(self).current_bar_open_price,
                        close_price: old(self).current_bar_last_price,
                        value_sum: old(self).current_bar_value_sum,
                        total_volume: old(self).current_bar_volume,
                        buy_volume: old(self).current_bar_buy_vol,
                        sell_volume: old(self).current_bar_sell_vol,
                        timestamp_ns: old(self).current_bar_first_ts,
                    },
                )
            }),
            final(self).n_volume_bars_total == old(self).n_volume_bars_total + (if old(
                self,
            ).current_bar_volume == 0 {
                0int
            } else {
                1
            }),
            final(self).day_spreads@ == old(self).day_spreads@,
            final(self).volume_bar_size == old(self).volume_bar_size,
            final(self).window_bars == old(self).window_bars,
            final(self).utc_offset == old(self).utc_offset,
    {
        if self.current_bar_volume > 0 {
            self.complete_bar();
        }
        self.n_days = self.n_days + 1;
    }

    /// Clear the day's bars and spreads and the bar in progress.
    pub fn reset_day(&mut self)
        requires
            old(self).wf(),
        ensures
            final(self).wf(),
            final(self).completed_bars.len() == 0,
            final(self).day_spreads.len() == 0,
            final(self).current_bar_volume == 0,
            final(self).volume_bar_size == old(self).volume_bar_size,
            final(self).window_bars == old(self).window_bars,
            final(self).n_days == old(self).n_days,
            final(self).n_volume_bars_total == old(self).n_volume_bars_total,
            final(self).utc_offset == old(self).utc_offset,
    {
        self.completed_bars.clear();
        self.day_spreads.clear();
        self.reset_current_bar();
    }

    /// The tracker's report name, `VpinTracker`.
    pub fn name(&self) -> (r: &'static str)
        ensures
            r@ == "VpinTracker"@,
    {
        "VpinTracker"
    }
}

/// Move the spread cursor forward past every sample stamped no later than `t`.
pub open spec fn advance(sp: Seq<(i64, i128)>, idx: int, t: i64) -> int
    decreases sp.len() - idx,
{
    if 0 <= idx && idx + 1 < sp.len() && sp[idx + 1].0 <= t {
        advance(sp, idx + 1, t)
    } else {
        idx
    }
}

/// The spread cursor after pairing the first `k` window times.
pub open spec fn walk(sp: Seq<(i64, i128)>, times: Seq<i64>, k: int) -> int
    decreases k,
{
    if k <= 0 {
        0
    } else {
        advance(sp, walk(sp, times, k - 1), times[k - 1])
    }
}

proof fn lemma_advance_in_range(sp: Seq<(i64, i128)>, idx: int, t: i64)
    requires
        0 <= idx < sp.len(),
    ensures
        idx <= advance(sp, idx, t) < sp.len(),
    decreases sp.len() - idx,
{
    if idx + 1 < sp.len() && sp[idx + 1].0 <= t {
        lemma_advance_in_range(sp, idx + 1, t);
    }
}

proof fn lemma_walk_in_range(sp: Seq<(i64, i128)>, times: Seq<i64>, k: int)
    requires
        sp.len() > 0,
        0 <= k <= times.len(),
    ensures
        0 <= walk(sp, times, k) < sp.len(),
    decreases k,
{
    if k > 0 {
        lemma_walk_in_range(sp, times, k - 1);
        lemma_advance_in_range(sp, walk(sp, times, k - 1), times[k - 1]);
    }
}

proof fn lemma_advance_stops(sp: Seq<(i64, i128)>, idx: int, t: i64)
    requires
        0 <= idx < sp.len(),
    ensures
        ({
            let j = advance(sp, idx, t);
            &&& idx <= j < sp.len()
            &&& j + 1 < sp.len() ==> sp[j + 1].0 > t
            &&& j > idx ==> sp[j].0 <= t
        }),
    decreases sp.len() - idx,
{
    if idx + 1 < sp.len() && sp[idx + 1].0 <= t {
        lemma_advance_stops(sp, idx + 1, t);
    }
}

proof fn lemma_walk_behind(sp: Seq<(i64, i128)>, times: Seq<i64>, k: int)
    requires
        sp.len() > 0,
        1 <= k <= times.len(),
        forall|a: int, b: int| 0 <= a <= b < times.len() ==> times[a] <= times[b],
    ensures
        walk(sp, times, k) == 0 || sp[walk(sp, times, k)].0 <= times[k - 1],
    decreases k,
{
    assert(walk(sp, times, k) == advance(sp, walk(sp, times, k - 1), times[k - 1]));
    lemma_walk_in_range(sp, times, k - 1);
    lemma_advance_stops(sp, walk(sp, times, k - 1), times[k - 1]);
    if k > 1 {
        lemma_walk_behind(sp, times, k - 1);
    }
}

/// With spread samples and window times both in time order, each time is
/// paired with the latest spread sample stamped at or before it, whenever
/// the first sample is not later than the time.
pub proof fn lemma_pair_spreads_latest(sp: Seq<(i64, i128)>, times: Seq<i64>, k: int)
    requires
        sp.len() > 0,
        forall|a: int, b: int| 0 <= a <= b < sp.len() ==> sp[a].0 <= sp[b].0,
        forall|a: int, b: int| 0 <= a <= b < times.len() ==> times[a] <= times[b],
        0 <= k < times.len(),
        sp[0].0 <= times[k],
    ensures
        ({
            let i = walk(sp, times, k + 1);
            &&& 0 <= i < sp.len()
            &&& sp[i].0 <= times[k]
            &&& forall|m: int| i < m < sp.len() ==> sp[m].0 > times[k]
        }),
{
    lemma_walk_in_range(sp, times, k);
    let i0 = walk(sp, times, k);
    lemma_advance_stops(sp, i0, times[k]);
    if k >= 1 {
        lemma_walk_behind(sp, times, k);
    }
    let i = walk(sp, times, k + 1);
    assert(i == advance(sp, i0, times[k]));
}

/// Samples (or times) in non-decreasing time order.
pub open spec fn spreads_in_time_order(sp: Seq<(i64, i128)>) -> bool {
    forall|a: int, b: int| 0 <= a <= b < sp.len() ==> sp[a].0 <= sp[b].0
}

pub open spec fn times_in_order(times: Seq<i64>) -> bool {
    forall|a: int, b: int| 0 <= a <= b < times.len() ==> times[a] <= times[b]
}

/// Sample `i` is the latest one stamped at or before `t` (the first sample
/// when every sample is later than `t`): every later sample is stamped
/// after `t`.
pub open spec fn latest_sample(sp: Seq<(i64, i128)>, t: i64, i: int) -> bool {
    &&& 0 <= i < sp.len()
    &&& i == 0 || sp[i].0 <= t
    &&& forall|m: int| i < m < sp.len() ==> sp[m].0 > t
}

/// `v` is the spread of the latest sample stamped at or before `t` (of the
/// first sample when every sample is later).
pub open spec fn spread_at(sp: Seq<(i64, i128)>, t: i64, v: i128) -> bool {
    exists|i: int| #[trigger] latest_sample(sp, t, i) && v == sp[i].1
}

/// With samples in time order, the latest sample at or before a time is
/// unique.
pub proof fn lemma_latest_sample_unique(sp: Seq<(i64, i128)>, t: i64, i: int, j: int)
    requires
        spreads_in_time_order(sp),
        latest_sample(sp, t, i),
        latest_sample(sp, t, j),
    ensures
        i == j,
{
    if i < j {
        assert(sp[0].0 <= sp[j].0);
    } else if j < i {
        assert(sp[0].0 <= sp[i].0);
    }
}

proof fn lemma_walk_latest(sp: Seq<(i64, i128)>, times: Seq<i64>, k: int)
    requires
        sp.len() > 0,
        spreads_in_time_order(sp),
        times_in_order(times),
        0 <= k < times.len(),
    ensures
        latest_sample(sp, times[k], walk(sp, times, k + 1)),
{
    lemma_walk_in_range(sp, times, k);
    let i0 = walk(sp, times, k);
    lemma_advance_stops(sp, i0, times[k]);
    if k >= 1 {
        lemma_walk_behind(sp, times, k);
    }
    let i = walk(sp, times, k + 1);
    assert(i == advance(sp, i0, times[k]));
    assert forall|m: int| i < m < sp.len() implies sp[m].0 > times[k] by {
        assert(sp[i + 1].0 <= sp[m].0);
    }
}

/// Pair each time with a spread sample by a cursor that only moves forward:
/// for each time in turn, the cursor advances past every following sample
/// stamped no later than the time, and the sample under the cursor is taken.
pub fn pair_spreads(spreads: &Vec<(i64, i128)>, times: &Vec<i64>) -> (r: Vec<i128>)
    requires
        spreads.len() > 0,
    ensures
        r.len() == times.len(),
        forall|k: int| 0 <= k < times.len() ==> #[trigger] r@[k] == spreads@[walk(spreads@, times@, k + 1)].1,
        // With samples and times in time order, each time takes the latest
        // sample stamped at or before it (the first sample if none is).
        spreads_in_time_order(spreads@) && times_in_order(times@) ==> forall|k: int|
            0 <= k < times.len() ==> #[trigger] spread_at(spreads@, times@[k], r@[k]),
{
    let mut out: Vec<i128> = Vec::new();
    let mut idx: usize = 0;
    let mut k: usize = 0;
    while k < times.len()
        invariant
            spreads.len() > 0,
            k <= times.len(),
            out.len() == k,
            idx == walk(spreads@, times@, k as int),
            idx < spreads.len(),
            forall|j: int| 0 <= j < k ==> #[trigger] out@[j] == spreads@[walk(spreads@, times@, j + 1)].1,
        decreases times.len() - k,
    {
        let t = times[k];
        let ghost start = idx as int;
        while idx + 1 < spreads.len() && spreads[idx + 1].0 <= t
            invariant
                start <= idx < spreads.len(),
                advance(spreads@, start, t) == advance(spreads@, idx as int, t),
            decreases spreads.len() - idx,
        {
            idx = idx + 1;
        }
        proof {
            lemma_walk_in_range(spreads@, times@, k as int + 1);
        }
        out.push(spreads[idx].1);
        k = k + 1;
    }
    proof {
        if spreads_in_time_order(spreads@) && times_in_order(times@) {
            assert forall|q: int| 0 <= q < times.len() implies #[trigger] spread_at(
                spreads@,
                times@[q],
                out@[q],
            ) by {
                lemma_walk_latest(spreads@, times@, q);
                let w = walk(spreads@, times@, q + 1);
                assert(out@[q] == spreads@[w].1);
                assert(latest_sample(spreads@, times@[q], w));
            }
        }
    }
    out
}

impl VpinTracker {
    /// The timestamps of the rolling windows of the day's bars: for each
    /// window of `window_bars` consecutive bars, the timestamp of its last bar.
    pub fn window_end_timestamps(&self) -> (r: Vec<i64>)
        requires
            self.window_bars > 0,
        ensures
            self.completed_bars.len() < self.window_bars ==> r.len() == 0,
            self.completed_bars.len() >= self.window_bars ==> {
                &&& r.len() == self.completed_bars.len() - self.window_bars + 1
                &&& forall|i: int|
                    0 <= i < r.len() ==> #[trigger] r@[i] == self.completed_bars@[i
                        + self.window_bars - 1].timestamp_ns
            },
    {
        let mut out: Vec<i64> = Vec::new();
        let n = self.window_bars;
        let len = self.completed_bars.len();
        if len < n {
            return out;
        }
        let count = len - n + 1;
        let mut j: usize = 0;
        while j < count
            invariant
                n == self.window_bars,
                len == self.completed_bars.len(),
                n > 0,
                n <= len,
                count == len - n + 1,
                j <= count,
                out.len() == j,
                forall|k: int|
                    0 <= k < out.len() ==> #[trigger] out@[k] == self.completed_bars@[k + n
                        - 1].timestamp_ns,
            decreases count - j,
        {
            out.push(self.completed_bars[j + n - 1].timestamp_ns);
            j = j + 1;
        }
        out
    }
}

proof fn lemma_value_bound(price: int, size: int, value: int, vol: int)
    requires
        -price_bound() <= price < price_bound(),
        0 <= size <= u32::MAX,
        0 <= vol,
        vol + size <= u64::MAX,
        -vol * price_bound() <= value <= vol * price_bound(),
    ensures
        -(vol + size) * price_bound() <= value + price * size <= (vol + size) * price_bound(),
        -(vol + size) * price_bound() > i128::MIN,
        (vol + size) * price_bound() < i128::MAX,
        -size * price_bound() <= price * size <= size * price_bound(),
{
    assert(-size * price_bound() <= price * size <= size * price_bound()) by (nonlinear_arith)
        requires
            -price_bound() <= price < price_bound(),
            0 <= size,
    ;
    assert((vol + size) * price_bound() <= 0xFFFF_FFFF_FFFF_FFFF * price_bound())
        by (nonlinear_arith)
        requires
            vol + size <= 0xFFFF_FFFF_FFFF_FFFF,
            price_bound() > 0,
    ;
    assert((vol + size) * price_bound() == vol * price_bound() + size * price_bound())
        by (nonlinear_arith);
}

proof fn lemma_price_times_volume(price: int, x: int)
    requires
        -price_bound() <= price < price_bound(),
        0 <= x <= u64::MAX,
    ensures
        -x * price_bound() <= price * x <= x * price_bound(),
        i128::MIN <= price * x <= i128::MAX,
{
    assert(-x * price_bound() <= price * x <= x * price_bound()) by (nonlinear_arith)
        requires
            -price_bound() <= price < price_bound(),
            0 <= x,
    ;
    assert(x * price_bound() <= 0xFFFF_FFFF_FFFF_FFFF * price_bound()) by (nonlinear_arith)
        requires
            x <= 0xFFFF_FFFF_FFFF_FFFF,
            price_bound() > 0,
    ;
}

proof fn lemma_value_bound_rem(price: int, x: int)
    requires
        -price_bound() <= price < price_bound(),
        0 <= x,
    ensures
        -x * price_bound() <= price * x <= x * price_bound(),
{
    assert(-x * price_bound() <= price * x <= x * price_bound()) by (nonlinear_arith)
        requires
            -price_bound() <= price < price_bound(),
            0 <= x,
    ;
}

proof fn lemma_bar_count_bound(total: int, v: int, j: int, size: int, c: int)
    requires
        v > 0,
        0 <= j,
        total - j * v >= v,
        total == c + size,
        0 <= c < v,
        1 <= size <= u32::MAX,
    ensures
        j + 1 <= u32::MAX + 1,
        (j + 1) * v <= total,
{
    assert((j + 1) * v == j * v + v) by (nonlinear_arith);
    assert(j + 1 <= size) by (nonlinear_arith)
        requires
            (j + 1) * v <= c + size,
            c < v,
            v > 0,
            0 <= j,
    ;
}

proof fn lemma_div_mod_from_bounds(total: int, v: int, j: int)
    requires
        v > 0,
        0 <= total - j * v < v,
    ensures
        total / v == j,
        total % v == total - j * v,
{
    vstd::arithmetic::div_mod::lemma_fundamental_div_mod_converse(total, v, j, total - j * v);
}

/// Every bar closed by a print holds exactly the bar size, split entirely
/// into buy and sell volume, and the volume is conserved: the closed bars
/// and the bar in progress together hold the volume in progress before the
/// print plus the printed shares.
pub proof fn lemma_volume_conserved(t: VpinTracker, side: Side, price: i64, size: int, ts: i64)
    requires
        t.wf(),
        0 <= size,
    ensures
        ({
            let v = t.volume_bar_size as int;
            let total = t.current_bar_volume as int + size;
            let bars = Seq::new((total / v) as nat, |m: int| closed_bar(t, side, price, size, ts, m));
            &&& forall|m: int| 0 <= m < bars.len() ==> #[trigger] bars[m].total_volume == t.volume_bar_size
            &&& forall|m: int|
                0 <= m < bars.len() ==> #[trigger] bars[m].buy_volume + bars[m].sell_volume
                    == bars[m].total_volume
            &&& bars_volume(bars) + total % v == total
        }),
{
    assert forall|m: int| 0 <= m < (t.current_bar_volume as int + size) / (t.volume_bar_size as int)
        implies #[trigger] closed_bar(t, side, price, size, ts, m).buy_volume + closed_bar(
        t,
        side,
        price,
        size,
        ts,
        m,
    ).sell_volume == t.volume_bar_size by {
        let v = t.volume_bar_size as int;
        let x = if m == 0 { v - t.current_bar_volume } else { v };
        lemma_parts_split(side, x);
    }
    let v = t.volume_bar_size as int;
    let total = t.current_bar_volume as int + size;
    let k = total / v;
    vstd::arithmetic::div_mod::lemma_fundamental_div_mod(total, v);
    vstd::arithmetic::div_mod::lemma_div_pos_is_pos(total, v);
    lemma_bars_volume_uniform(t, side, price, size, ts, k);
}

/// The buy and sell shares of a print partition it.
pub proof fn lemma_parts_split(side: Side, x: int)
    requires
        0 <= x,
    ensures
        0 <= buy_part(side, x),
        0 <= sell_part(side, x),
        buy_part(side, x) + sell_part(side, x) == x,
{
}

proof fn lemma_bars_volume_uniform(t: VpinTracker, side: Side, price: i64, size: int, ts: i64, n: int)
    requires
        0 <= n,
    ensures
        bars_volume(Seq::new(n as nat, |m: int| closed_bar(t, side, price, size, ts, m))) == n
            * t.volume_bar_size as int,
    decreases n,
{
    let s = Seq::new(n as nat, |m: int| closed_bar(t, side, price, size, ts, m));
    if n == 0 {
        assert(s.len() == 0);
    } else {
        lemma_bars_volume_uniform(t, side, price, size, ts, n - 1);
        assert(s.last() == closed_bar(t, side, price, size, ts, n - 1));
        assert(s.drop_last() =~= Seq::new(
            (n - 1) as nat,
            |m: int| closed_bar(t, side, price, size, ts, m),
        ));
        assert(n * t.volume_bar_size as int == (n - 1) * t.volume_bar_size as int
            + t.volume_bar_size as int) by (nonlinear_arith);
    }
}

} // verus!
