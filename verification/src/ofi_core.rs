//! Per-event order flow imbalance (Cont, Kukanov & Stoikov 2014, Eq. 3).
//!
//! ```text
//! OFI_t = bid_size_t     * I(bid_t >= bid_{t-1})
//!       - bid_size_{t-1} * I(bid_t <= bid_{t-1})
//!       - ask_size_t     * I(ask_t <= ask_{t-1})
//!       + ask_size_{t-1} * I(ask_t >= ask_{t-1})
//! ```

use vstd::prelude::*;

verus! {

/// Indicator of a condition, as an integer.
pub open spec fn ind(c: bool) -> int {
    if c { 1 } else { 0 }
}

/// The order flow imbalance contributed by the move of the top of the book
/// from `(prev_bid, prev_bid_size, prev_ask, prev_ask_size)` to
/// `(bid, bid_size, ask, ask_size)`.
pub open spec fn ofi_value(
    bid: int,
    bid_size: int,
    ask: int,
    ask_size: int,
    prev_bid: int,
    prev_bid_size: int,
    prev_ask: int,
    prev_ask_size: int,
) -> int {
    bid_size * ind(bid >= prev_bid) - prev_bid_size * ind(bid <= prev_bid) - ask_size * ind(
        ask <= prev_ask,
    ) + prev_ask_size * ind(ask >= prev_ask)
}

/// The top of the book remembered from the previous valid event.
#[derive(Clone, Copy, Debug)]
pub struct OfiState {
    pub prev_bid_price: i64,
    pub prev_ask_price: i64,
    pub prev_bid_size: u32,
    pub prev_ask_size: u32,
    pub initialized: bool,
}

/// The imbalance of a move from `st` to the given top of the book.
pub open spec fn ofi_from(st: OfiState, bid: i64, bid_size: u32, ask: i64, ask_size: u32) -> int {
    ofi_value(
        bid as int,
        bid_size as int,
        ask as int,
        ask_size as int,
        st.prev_bid_price as int,
        st.prev_bid_size as int,
        st.prev_ask_price as int,
        st.prev_ask_size as int,
    )
}

/// What observing a valid two-sided book did to an [`OfiState`].
pub enum OfiStep {
    /// The first valid book of the day: it only primes the state.
    Primed,
    /// The imbalance against the previously remembered book.
    Imbalance(i64),
}

impl OfiState {
    /// A state with nothing remembered yet.
    pub fn new() -> (r: Self)
        ensures
            !r.initialized,
            r.prev_bid_price == 0,
            r.prev_ask_price == 0,
            r.prev_bid_size == 0,
            r.prev_ask_size == 0,
    {
        OfiState {
            prev_bid_price: 0,
            prev_ask_price: 0,
            prev_bid_size: 0,
            prev_ask_size: 0,
            initialized: false,
        }
    }

    /// The imbalance of a move from the remembered book to `(bid, bid_size, ask, ask_size)`.
    pub fn compute_ofi(&self, bid: i64, bid_size: u32, ask: i64, ask_size: u32) -> (r: i64)
        ensures
            r == ofi_from(*self, bid, bid_size, ask, ask_size),
            -2 * (u32::MAX as int) <= r <= 2 * (u32::MAX as int),
    {
        let bs = bid_size as i64;
        let asz = ask_size as i64;
        let pbs = self.prev_bid_size as i64;
        let pas = self.prev_ask_size as i64;
        let bid_contrib: i64 = if bid > self.prev_bid_price {
            bs
        } else if bid == self.prev_bid_price {
            bs - pbs
        } else {
            -pbs
        };
        let ask_contrib: i64 = if ask < self.prev_ask_price {
            -asz
        } else if ask == self.prev_ask_price {
            -(asz - pas)
        } else {
            pas
        };
        bid_contrib + ask_contrib
    }

    /// Observe a valid two-sided top of the book: the first observation
    /// primes the state, every later one yields the imbalance against the
    /// previous observation. Either way the observed book is remembered.
    pub fn observe(&mut self, bid: i64, bid_size: u32, ask: i64, ask_size: u32) -> (r: OfiStep)
        ensures
            final(self).initialized,
            final(self).prev_bid_price == bid,
            final(self).prev_ask_price == ask,
            final(self).prev_bid_size == bid_size,
            final(self).prev_ask_size == ask_size,
            !old(self).initialized ==> r is Primed,
            old(self).initialized ==> (r matches OfiStep::Imbalance(v) && v == ofi_from(
                *old(self),
                bid,
                bid_size,
                ask,
                ask_size,
            )),
    {
        let step = if !self.initialized {
            OfiStep::Primed
        } else {
            OfiStep::Imbalance(self.compute_ofi(bid, bid_size, ask, ask_size))
        };
        self.prev_bid_price = bid;
        self.prev_ask_price = ask;
        self.prev_bid_size = bid_size;
        self.prev_ask_size = ask_size;
        self.initialized = true;
        step
    }

    /// Forget the remembered book (start of a new day).
    pub fn reset(&mut self)
        ensures
            !final(self).initialized,
            final(self).prev_bid_price == old(self).prev_bid_price,
            final(self).prev_ask_price == old(self).prev_ask_price,
            final(self).prev_bid_size == old(self).prev_bid_size,
            final(self).prev_ask_size == old(self).prev_ask_size,
    {
        self.initialized = false;
    }
}

/// An unchanged book carries no order flow imbalance.
pub proof fn lemma_ofi_unchanged_book_is_zero(b: int, bs: int, a: int, asz: int)
    ensures
        ofi_value(b, bs, a, asz, b, bs, a, asz) == 0,
{
}

/// Mirroring the book (swapping the roles of the bid and ask sides, prices
/// negated) negates the order flow imbalance.
pub proof fn lemma_ofi_mirror_negates(
    b: int,
    bs: int,
    a: int,
    asz: int,
    pb: int,
    pbs: int,
    pa: int,
    pas: int,
)
    ensures
        ofi_value(-a, asz, -b, bs, -pa, pas, -pb, pbs) == -ofi_value(b, bs, a, asz, pb, pbs, pa, pas),
{
}

} // verus!
