//! Order lifecycle tracker: follows each order from placement to resolution
//! (full fill or cancel), counting adds, cancels, fills and partial fills,
//! the transitions between successive actions on an order, and reporting
//! each resolved order's lifetime.

use vstd::prelude::*;
use crate::book::{Action, OrderEvent};
use crate::time_sort::sort_by_add_time;
use crate::order_map::{
    order_map_add_times, order_map_clear, order_map_contents, order_map_get, order_map_insert,
    order_map_len, order_map_remove, order_map_with_capacity, OrderEntry,
    OrderMap,
};

verus! {

/// Maximum number of tracked active orders before the oldest are evicted.
pub const MAX_ACTIVE_ORDERS: usize = 500_000;

/// Transition-matrix states.
pub const STATE_ADD: u8 = 0;
pub const STATE_MODIFY: u8 = 1;
pub const STATE_CANCEL: u8 = 2;
pub const STATE_TRADE: u8 = 3;

/// The transition-matrix state of an action, for the actions that take part
/// in an order's lifecycle.
pub open spec fn spec_action_state(a: Action) -> Option<u8> {
    match a {
        Action::Add => Some(STATE_ADD),
        Action::Modify => Some(STATE_MODIFY),
        Action::Cancel => Some(STATE_CANCEL),
        Action::Trade => Some(STATE_TRADE),
        Action::Fill => Some(STATE_TRADE),
        _ => None,
    }
}

/// The transition-matrix state of an action, for the actions that take part
/// in an order's lifecycle.
pub fn action_state(a: Action) -> (r: Option<u8>)
    ensures
        r == spec_action_state(a),
{
    match a {
        Action::Add => Some(STATE_ADD),
        Action::Modify => Some(STATE_MODIFY),
        Action::Cancel => Some(STATE_CANCEL),
        Action::Trade | Action::Fill => Some(STATE_TRADE),
        _ => None,
    }
}

/// An order that left the book, with its lifetime.
#[derive(Clone, Copy, Debug, PartialEq, Eq)]
pub struct ResolvedOrder {
    /// Resolution time minus placement time, nanoseconds (never negative).
    pub duration_ns: i64,
    pub n_modifies: u32,
    /// Remaining size at resolution.
    pub size: u32,
    pub regime_at_add: u8,
}

/// What one event did to the lifecycle statistics.
#[derive(Clone, Copy, Debug)]
pub struct LifecycleEffect {
    /// A transition `(from_state, to_state)` on an active order.
    pub transition: Option<(u8, u8)>,
    /// An order resolved with a non-negative lifetime.
    pub resolved: Option<ResolvedOrder>,
    /// A resolution outcome, by regime of the resolving event: `true` for a
    /// full fill, `false` for a cancel.
    pub fill_outcome: Option<bool>,
}

/// Integer core of the lifecycle tracker.
pub struct LifecycleTracker {
    pub active_orders: OrderMap,
    pub n_adds: u64,
    pub n_cancels: u64,
    pub n_fills: u64,
    pub n_partial_fills: u64,
    pub n_resolved: u64,
    pub n_evictions: u64,
    pub n_days: u32,
}

/// The record of a newly placed order.
pub open spec fn new_entry(ts: i64, size: u32, regime: u8) -> OrderEntry {
    (ts, size, 0u32, 0u32, STATE_ADD, regime)
}

/// `kept` is what eviction leaves of the table `before`: exactly
/// `MAX_ACTIVE_ORDERS - MAX_ACTIVE_ORDERS / 10` of its orders, unchanged,
/// and no order left out was placed after one kept.
pub open spec fn keeps_newest(before: Map<u64, OrderEntry>, kept: Map<u64, OrderEntry>) -> bool {
    &&& kept.dom().finite()
    &&& kept.len() == MAX_ACTIVE_ORDERS - MAX_ACTIVE_ORDERS / 10
    &&& forall|k: u64| #[trigger]
        kept.contains_key(k) ==> before.contains_key(k) && kept[k] == before[k]
    &&& forall|e: u64, k: u64|
        before.contains_key(e) && !kept.contains_key(e) && #[trigger] kept.contains_key(k)
            ==> #[trigger] before[e].0 <= before[k].0
}

impl LifecycleTracker {
    /// The active orders.
    pub open spec fn orders(&self) -> Map<u64, OrderEntry> {
        order_map_contents(self.active_orders)
    }

    pub open spec fn wf(&self) -> bool {
        &&& self.orders().dom().finite()
        &&& self.orders().len() <= MAX_ACTIVE_ORDERS + 1
        &&& self.n_resolved <= self.n_fills + self.n_cancels
        &&& self.n_fills <= self.n_resolved
    }

    /// Room left in the counters for one more event on order `id`.
    pub open spec fn has_headroom(&self, id: u64) -> bool {
        &&& self.n_adds < u64::MAX
        &&& self.n_cancels < u64::MAX
        &&& self.n_fills < u64::MAX
        &&& self.n_partial_fills < u64::MAX
        &&& self.n_resolved < u64::MAX
        &&& self.n_evictions as int + MAX_ACTIVE_ORDERS as int + 1 <= u64::MAX
        &&& self.n_days < u32::MAX
        &&& self.orders().contains_key(id) ==> {
            &&& self.orders()[id].2 < u32::MAX
            &&& self.orders()[id].3 < u32::MAX
        }
    }

    /// Executable check of [`Self::has_headroom`].
    pub fn headroom(&self, id: u64) -> (r: bool)
        ensures
            r == self.has_headroom(id),
    {
        let counters = self.n_adds < u64::MAX && self.n_cancels < u64::MAX && self.n_fills
            < u64::MAX && self.n_partial_fills < u64::MAX && self.n_resolved < u64::MAX
            && self.n_evictions <= u64::MAX - (MAX_ACTIVE_ORDERS as u64) - 1 && self.n_days
            < u32::MAX;
        let entry_ok = match order_map_get(&self.active_orders, id) {
            Some(e) => e.2 < u32::MAX && e.3 < u32::MAX,
            None => true,
        };
        counters && entry_ok
    }

    pub fn new() -> (r: Self)
        ensures
            r.wf(),
            r.orders() == Map::<u64, OrderEntry>::empty(),
            r.n_adds == 0 && r.n_cancels == 0 && r.n_fills == 0 && r.n_partial_fills == 0,
            r.n_resolved == 0 && r.n_evictions == 0 && r.n_days == 0,
    {
        let m = order_map_with_capacity(100_000);
        proof {
            vstd::set_lib::lemma_set_empty_equivalency_len(order_map_contents(m).dom());
            assert(order_map_contents(m) =~= Map::<u64, OrderEntry>::empty());
        }
        LifecycleTracker {
            active_orders: m,
            n_adds: 0,
            n_cancels: 0,
            n_fills: 0,
            n_partial_fills: 0,
            n_resolved: 0,
            n_evictions: 0,
            n_days: 0,
        }
    }

    /// Number of active orders.
    pub fn n_active(&self) -> (r: usize)
        ensures
            r == self.orders().len(),
    {
        order_map_len(&self.active_orders)
    }

    /// The record of an active order.
    pub fn active_order(&self, id: u64) -> (r: Option<OrderEntry>)
        ensures
            r == (if self.orders().contains_key(id) {
                Some(self.orders()[id])
            } else {
                None::<OrderEntry>
            }),
    {
        order_map_get(&self.active_orders, id)
    }

    /// Account for a resolved order: orders with a non-negative lifetime are
    /// counted as resolved and reported.
    fn resolve_order(&mut self, order: OrderEntry, resolve_ts: i64) -> (r: Option<ResolvedOrder>)
        requires
            old(self).n_resolved < u64::MAX,
        ensures
            final(self).active_orders == old(self).active_orders,
            final(self).n_adds == old(self).n_adds,
            final(self).n_cancels == old(self).n_cancels,
            final(self).n_fills == old(self).n_fills,
            final(self).n_partial_fills == old(self).n_partial_fills,
            final(self).n_evictions == old(self).n_evictions,
            final(self).n_days == old(self).n_days,
            resolve_ts as int - order.0 as int >= 0 ==> {
                &&& final(self).n_resolved == old(self).n_resolved + 1
                &&& r == Some(
                    ResolvedOrder {
                        duration_ns: (resolve_ts - order.0) as i64,
                        n_modifies: order.2,
                        size: order.1,
                        regime_at_add: order.5,
                    },
                )
            },
            (resolve_ts as int - order.0 as int) < 0 ==> {
                &&& final(self).n_resolved == old(self).n_resolved
                &&& r is None
            },
    {
        let duration = resolve_ts as i128 - order.0 as i128;
        if duration < 0 {
            return None;
        }
        self.n_resolved = self.n_resolved + 1;
        Some(
            ResolvedOrder {
                duration_ns: duration as i64,
                n_modifies: order.2,
                size: order.1,
                regime_at_add: order.5,
            },
        )
    }

    /// When the table holds more than [`MAX_ACTIVE_ORDERS`] orders, evict the
    /// oldest (by placement time) so that a tenth of the capacity is free.
    pub fn evict_oldest(&mut self)
        requires
            old(self).wf(),
            old(self).n_evictions as int + MAX_ACTIVE_ORDERS as int + 1 <= u64::MAX,
        ensures
            final(self).wf(),
            final(self).n_adds == old(self).n_adds,
            final(self).n_cancels == old(self).n_cancels,
            final(self).n_fills == old(self).n_fills,
            final(self).n_partial_fills == old(self).n_partial_fills,
            final(self).n_resolved == old(self).n_resolved,
            final(self).n_days == old(self).n_days,
            old(self).orders().len() <= MAX_ACTIVE_ORDERS ==> {
                &&& final(self).orders() == old(self).orders()
                &&& final(self).n_evictions == old(self).n_evictions
            },
            old(self).orders().len() > MAX_ACTIVE_ORDERS ==> {
                let n = old(self).orders().len() - MAX_ACTIVE_ORDERS + MAX_ACTIVE_ORDERS / 10;
                // Exactly `n` orders leave ...
                &&& final(self).orders().len() == MAX_ACTIVE_ORDERS - MAX_ACTIVE_ORDERS / 10
                &&& final(self).n_evictions == old(self).n_evictions + n
                // ... the others stay untouched ...
                &&& forall|k: u64| #[trigger]
                    final(self).orders().contains_key(k) ==> old(self).orders().contains_key(k)
                        && final(self).orders()[k] == old(self).orders()[k]
                // ... and no evicted order was placed after a kept one.
                &&& forall|e: u64, k: u64|
                    old(self).orders().contains_key(e) && !final(self).orders().contains_key(e)
                        && #[trigger] final(self).orders().contains_key(k) ==> #[trigger] old(
                        self,
                    ).orders()[e].0 <= old(self).orders()[k].0
            },
    {
        let len = order_map_len(&self.active_orders);
        if len <= MAX_ACTIVE_ORDERS {
            return;
        }
        let n_to_evict = len - MAX_ACTIVE_ORDERS + MAX_ACTIVE_ORDERS / 10;
        let mut oldest = order_map_add_times(&self.active_orders);
        let ghost entries = oldest@;
        let ghost m0 = self.orders();
        sort_by_add_time(&mut oldest);
        proof {
            lemma_sorted_ids_distinct(entries, oldest@);
        }
        let mut i: usize = 0;
        while i < n_to_evict
            invariant
                0 <= i <= n_to_evict <= len,
                len == m0.len(),
                len == oldest.len(),
                m0.dom().finite(),
                n_to_evict == len - MAX_ACTIVE_ORDERS + MAX_ACTIVE_ORDERS / 10,
                oldest@.map_values(|p: (u64, i64)| p.0).no_duplicates(),
                forall|x: int|
                    0 <= x < oldest.len() ==> m0.contains_key(#[trigger] oldest@[x].0)
                        && oldest@[x].1 == m0[oldest@[x].0].0,
                forall|x: int, y: int| 0 <= x <= y < oldest.len() ==> oldest@[x].1 <= oldest@[y].1,
                self.orders().dom().finite(),
                forall|k: u64| #[trigger]
                    self.orders().contains_key(k) <==> (m0.contains_key(k) && !(exists|x: int|
                        0 <= x < i && #[trigger] oldest@[x].0 == k)),
                forall|k: u64| #[trigger] self.orders().contains_key(k) ==> self.orders()[k] == m0[k],
                self.orders().len() == len - i,
                self.n_evictions == old(self).n_evictions + i,
                old(self).n_evictions as int + MAX_ACTIVE_ORDERS as int + 1 <= u64::MAX,
                len <= MAX_ACTIVE_ORDERS + 1,
                self.n_adds == old(self).n_adds,
                self.n_cancels == old(self).n_cancels,
                self.n_fills == old(self).n_fills,
                self.n_partial_fills == old(self).n_partial_fills,
                self.n_resolved == old(self).n_resolved,
                self.n_days == old(self).n_days,
                m0 == old(self).orders(),
                old(self).wf(),
            decreases n_to_evict - i,
        {
            let id = oldest[i].0;
            proof {
                assert(m0.contains_key(id));
                assert forall|x: int| 0 <= x < i implies #[trigger] oldest@[x].0 != id by {
                    assert(oldest@.map_values(|p: (u64, i64)| p.0)[x] == oldest@[x].0);
                    assert(oldest@.map_values(|p: (u64, i64)| p.0)[i as int] == oldest@[i as int].0);
                }
                assert(self.orders().contains_key(id));
            }
            let _ = order_map_remove(&mut self.active_orders, id);
            self.n_evictions = self.n_evictions + 1;
            proof {
                assert forall|k: u64| #[trigger]
                    self.orders().contains_key(k) <==> (m0.contains_key(k) && !(exists|x: int|
                        0 <= x < i + 1 && #[trigger] oldest@[x].0 == k)) by {
                    if k == id {
                        assert(oldest@[i as int].0 == k);
                    }
                }
            }
            i = i + 1;
        }
        proof {
            assert forall|e: u64, k: u64|
                m0.contains_key(e) && !self.orders().contains_key(e)
                    && #[trigger] self.orders().contains_key(k) implies #[trigger] m0[e].0
                <= m0[k].0 by {
                let xe = choose|x: int| 0 <= x < n_to_evict && #[trigger] oldest@[x].0 == e;
                let xk = lemma_id_position(m0, oldest@, k);
                if xk < n_to_evict {
                    assert(oldest@[xk].0 == k);
                }
                assert(oldest@[xe].1 <= oldest@[xk].1);
            }
        }
    }

    /// Process one event.
    pub fn process_event(&mut self, msg: &OrderEvent, regime: u8) -> (r: LifecycleEffect)
        requires
            old(self).wf(),
            old(self).has_headroom(msg.order_id),
        ensures
            final(self).wf(),
            final(self).n_days == old(self).n_days,
            // Events without a timestamp, or of an action outside the lifecycle, change nothing.
            (msg.timestamp is None || spec_action_state(msg.action) is None) ==> {
                &&& final(self).orders() == old(self).orders()
                &&& final(self).n_adds == old(self).n_adds
                &&& final(self).n_cancels == old(self).n_cancels
                &&& final(self).n_fills == old(self).n_fills
                &&& final(self).n_partial_fills == old(self).n_partial_fills
                &&& final(self).n_resolved == old(self).n_resolved
                &&& final(self).n_evictions == old(self).n_evictions
                &&& r.transition is None && r.resolved is None && r.fill_outcome is None
            },
            ({
                let id = msg.order_id;
                let present = old(self).orders().contains_key(id);
                let o = old(self).orders()[id];
                let ts = msg.timestamp->0;
                msg.timestamp is Some ==> match msg.action {
                    Action::Add => {
                        &&& final(self).n_adds == old(self).n_adds + 1
                        &&& final(self).orders().contains_key(id)
                        &&& final(self).orders()[id] == new_entry(ts, msg.size, regime)
                        &&& final(self).n_cancels == old(self).n_cancels
                        &&& final(self).n_fills == old(self).n_fills
                        &&& final(self).n_resolved == old(self).n_resolved
                        &&& final(self).n_partial_fills == old(self).n_partial_fills
                        &&& r.transition is None && r.resolved is None && r.fill_outcome is None
                        // Below capacity the order is simply placed ...
                        &&& old(self).orders().len() <= MAX_ACTIVE_ORDERS ==> {
                            &&& final(self).orders() == old(self).orders().insert(
                                id,
                                new_entry(ts, msg.size, regime),
                            )
                            &&& final(self).n_evictions == old(self).n_evictions
                        }
                        // ... over it, the oldest orders are evicted first.
                        &&& old(self).orders().len() > MAX_ACTIVE_ORDERS ==> {
                            let before = old(self).orders();
                            let after = final(self).orders();
                            &&& final(self).n_evictions == old(self).n_evictions + before.len()
                                - MAX_ACTIVE_ORDERS + MAX_ACTIVE_ORDERS / 10
                            &&& forall|k: u64| #[trigger]
                                after.contains_key(k) && k != id ==> before.contains_key(k)
                                    && after[k] == before[k]
                            &&& forall|e: u64, k: u64|
                                before.contains_key(e) && !after.contains_key(e) && e != id
                                    && #[trigger] after.contains_key(k) && k != id
                                    ==> #[trigger] before[e].0 <= before[k].0
                            // The table is what eviction kept, with the new order
                            // placed: one more order unless `id` was among the kept.
                            &&& exists|kept: Map<u64, OrderEntry>|
                                #[trigger] keeps_newest(before, kept) && after == kept.insert(
                                    id,
                                    new_entry(ts, msg.size, regime),
                                ) && after.len() == kept.len() + (if kept.contains_key(id) {
                                    0int
                                } else {
                                    1int
                                })
                        }
                    },
                    Action::Modify => {
                        &&& final(self).n_adds == old(self).n_adds
                        &&& final(self).n_partial_fills == old(self).n_partial_fills
                        &&& final(self).n_evictions == old(self).n_evictions
                        &&& final(self).n_cancels == old(self).n_cancels
                        &&& final(self).n_fills == old(self).n_fills
                        &&& final(self).n_resolved == old(self).n_resolved
                        &&& r.resolved is None && r.fill_outcome is None
                        &&& present ==> {
                            &&& r.transition == Some((o.4, STATE_MODIFY))
                            &&& final(self).orders() == old(self).orders().insert(
                                id,
                                (
                                    o.0,
                                    if msg.size > 0 {
                                        msg.size
                                    } else {
                                        o.1
                                    },
                                    (o.2 + 1) as u32,
                                    o.3,
                                    STATE_MODIFY,
                                    o.5,
                                ),
                            )
                        }
                        &&& !present ==> r.transition is None && final(self).orders() == old(
                            self,
                        ).orders()
                    },
                    Action::Cancel => {
                        &&& final(self).n_cancels == old(self).n_cancels + 1
                        &&& final(self).n_partial_fills == old(self).n_partial_fills
                        &&& final(self).n_evictions == old(self).n_evictions
                        &&& final(self).n_adds == old(self).n_adds
                        &&& final(self).n_fills == old(self).n_fills
                        &&& final(self).orders() == old(self).orders().remove(id)
                        &&& present ==> {
                            &&& r.transition == Some((o.4, STATE_CANCEL))
                            &&& r.fill_outcome == Some(false)
                            &&& final(self).n_resolved == old(self).n_resolved + (if ts - o.0
                                >= 0 {
                                1int
                            } else {
                                0
                            })
                            &&& r.resolved == (if ts - o.0 >= 0 {
                                Some(
                                    ResolvedOrder {
                                        duration_ns: (ts - o.0) as i64,
                                        n_modifies: o.2,
                                        size: o.1,
                                        regime_at_add: o.5,
                                    },
                                )
                            } else {
                                None::<ResolvedOrder>
                            })
                        }
                        &&& !present ==> r.transition is None && r.resolved is None
                            && r.fill_outcome is None && final(self).n_resolved == old(
                            self,
                        ).n_resolved
                    },
                    Action::Trade | Action::Fill => {
                        &&& final(self).n_adds == old(self).n_adds
                        &&& final(self).n_evictions == old(self).n_evictions
                        &&& final(self).n_cancels == old(self).n_cancels
                        &&& !present ==> {
                            &&& final(self).orders() == old(self).orders()
                            &&& final(self).n_fills == old(self).n_fills
                            &&& final(self).n_partial_fills == old(self).n_partial_fills
                            &&& final(self).n_resolved == old(self).n_resolved
                            &&& r.transition is None && r.resolved is None
                                && r.fill_outcome is None
                        }
                        // A print covering the remaining size fills the order; it
                        // counts in `n_fills` when the order resolves (its lifetime
                        // is not negative) ...
                        &&& (present && msg.size >= o.1) ==> {
                            &&& r.transition == Some((o.4, STATE_TRADE))
                            &&& final(self).n_fills == old(self).n_fills + (if ts - o.0 >= 0 {
                                1int
                            } else {
                                0
                            })
                            &&& final(self).n_partial_fills == old(self).n_partial_fills
                            &&& final(self).orders() == old(self).orders().remove(id)
                            &&& final(self).n_resolved == old(self).n_resolved + (if ts - o.0
                                >= 0 {
                                1int
                            } else {
                                0
                            })
                            &&& r.fill_outcome == Some(true)
                            &&& r.resolved == (if ts - o.0 >= 0 {
                                Some(
                                    ResolvedOrder {
                                        duration_ns: (ts - o.0) as i64,
                                        n_modifies: o.2,
                                        size: o.1,
                                        regime_at_add: o.5,
                                    },
                                )
                            } else {
                                None::<ResolvedOrder>
                            })
                        }
                        // ... a smaller one fills it partially.
                        &&& (present && msg.size < o.1) ==> {
                            &&& r.transition == Some((o.4, STATE_TRADE))
                            &&& final(self).n_fills == old(self).n_fills
                            &&& final(self).n_partial_fills == old(self).n_partial_fills + 1
                            &&& final(self).n_resolved == old(self).n_resolved
                            &&& r.resolved is None && r.fill_outcome is None
                            &&& final(self).orders() == old(self).orders().insert(
                                id,
                                (o.0, (o.1 - msg.size) as u32, o.2, (o.3 + 1) as u32, STATE_TRADE, o.5),
                            )
                        }
                    },
                    _ => true,
                }
            }),
    {
        let none = LifecycleEffect { transition: None, resolved: None, fill_outcome: None };
        let ts = match msg.timestamp {
            Some(t) => t,
            None => {
                return none;
            },
        };
        if action_state(msg.action).is_none() {
            return none;
        }
        let id = msg.order_id;
        match msg.action {
            Action::Add => {
                self.n_adds = self.n_adds + 1;
                if order_map_len(&self.active_orders) >= MAX_ACTIVE_ORDERS {
                    self.evict_oldest();
                }
                let ghost kept = self.orders();
                let _ = order_map_insert(
                    &mut self.active_orders,
                    id,
                    (ts, msg.size, 0, 0, STATE_ADD, regime),
                );
                proof {
                    if old(self).orders().len() > MAX_ACTIVE_ORDERS {
                        assert(keeps_newest(old(self).orders(), kept));
                        assert(kept.insert(id, new_entry(ts, msg.size, regime)).dom() =~= kept.dom().insert(id));
                        assert(self.orders().len() == kept.len() + (if kept.contains_key(id) {
                            0int
                        } else {
                            1int
                        }));
                    }
                }
                none
            },
            Action::Modify => {
                match order_map_get(&self.active_orders, id) {
                    Some(o) => {
                        let size = if msg.size > 0 {
                            msg.size
                        } else {
                            o.1
                        };
                        let _ = order_map_insert(
                            &mut self.active_orders,
                            id,
                            (o.0, size, o.2 + 1, o.3, STATE_MODIFY, o.5),
                        );
                        proof {
                            assert(old(self).orders().insert(id, (o.0, size, (o.2 + 1) as u32, o.3, STATE_MODIFY, o.5)).dom() =~= old(self).orders().dom());
                        }
                        LifecycleEffect {
                            transition: Some((o.4, STATE_MODIFY)),
                            resolved: None,
                            fill_outcome: None,
                        }
                    },
                    None => none,
                }
            },
            Action::Cancel => {
                self.n_cancels = self.n_cancels + 1;
                match order_map_remove(&mut self.active_orders, id) {
                    Some(o) => {
                        let resolved = self.resolve_order(o, ts);
                        LifecycleEffect {
                            transition: Some((o.4, STATE_CANCEL)),
                            resolved,
                            fill_outcome: Some(false),
                        }
                    },
                    None => none,
                }
            },
            _ => {
                // Trade or Fill.
                match order_map_get(&self.active_orders, id) {
                    Some(o) => {
                        if msg.size >= o.1 {
                            let _ = order_map_remove(&mut self.active_orders, id);
                            let resolved = self.resolve_order(o, ts);
                            if resolved.is_some() {
                                self.n_fills = self.n_fills + 1;
                            }
                            LifecycleEffect {
                                transition: Some((o.4, STATE_TRADE)),
                                resolved,
                                fill_outcome: Some(true),
                            }
                        } else {
                            let _ = order_map_insert(
                                &mut self.active_orders,
                                id,
                                (o.0, o.1 - msg.size, o.2, o.3 + 1, STATE_TRADE, o.5),
                            );
                            proof {
                                assert(old(self).orders().insert(id, (o.0, (o.1 - msg.size) as u32, o.2, (o.3 + 1) as u32, STATE_TRADE, o.5)).dom() =~= old(self).orders().dom());
                            }
                            self.n_partial_fills = self.n_partial_fills + 1;
                            LifecycleEffect {
                                transition: Some((o.4, STATE_TRADE)),
                                resolved: None,
                                fill_outcome: None,
                            }
                        }
                    },
                    None => none,
                }
            },
        }
    }

    pub fn end_of_day(&mut self)
        requires
            old(self).n_days < u32::MAX,
        ensures
            final(self).n_days == old(self).n_days + 1,
            final(self).active_orders == old(self).active_orders,
            final(self).n_adds == old(self).n_adds,
            final(self).n_cancels == old(self).n_cancels,
            final(self).n_fills == old(self).n_fills,
            final(self).n_partial_fills == old(self).n_partial_fills,
            final(self).n_resolved == old(self).n_resolved,
            final(self).n_evictions == old(self).n_evictions,
    {
        self.n_days = self.n_days + 1;
    }

    /// Forget all active orders (they do not carry over to the next day).
    pub fn reset_day(&mut self)
        requires
            old(self).wf(),
        ensures
            final(self).wf(),
            final(self).orders() == Map::<u64, OrderEntry>::empty(),
            final(self).n_adds == old(self).n_adds,
            final(self).n_cancels == old(self).n_cancels,
            final(self).n_fills == old(self).n_fills,
            final(self).n_partial_fills == old(self).n_partial_fills,
            final(self).n_resolved == old(self).n_resolved,
            final(self).n_evictions == old(self).n_evictions,
            final(self).n_days == old(self).n_days,
    {
        order_map_clear(&mut self.active_orders);
        proof {
            vstd::set_lib::lemma_set_empty_equivalency_len(self.orders().dom());
            assert(self.orders() =~= Map::<u64, OrderEntry>::empty());
        }
    }

    /// The tracker's report name, `LifecycleTracker`.
    pub fn name(&self) -> (r: &'static str)
        ensures
            r@ == "LifecycleTracker"@,
    {
        "LifecycleTracker"
    }
}

/// The fill rate `n_fills / n_resolved` is a ratio in [0, 1]: every fill
/// counted is a resolved order.
pub proof fn lemma_fill_rate_at_most_one(t: LifecycleTracker)
    requires
        t.wf(),
    ensures
        t.n_fills <= t.n_resolved,
{
}

/// A sorted copy of a duplicate-free list of ids keeps its ids duplicate-free.
proof fn lemma_sorted_ids_distinct(before: Seq<(u64, i64)>, after: Seq<(u64, i64)>)
    requires
        before.map_values(|p: (u64, i64)| p.0).no_duplicates(),
        after.to_multiset() == before.to_multiset(),
    ensures
        after.len() == before.len(),
        after.map_values(|p: (u64, i64)| p.0).no_duplicates(),
        forall|x: int| 0 <= x < after.len() ==> before.contains(#[trigger] after[x]),
{
    broadcast use vstd::seq_lib::group_to_multiset_ensures;

    assert(after.len() == after.to_multiset().len());
    assert(before.len() == before.to_multiset().len());
    assert forall|x: int| 0 <= x < after.len() implies before.contains(#[trigger] after[x]) by {
        assert(after.to_multiset().count(after[x]) > 0);
    }
    let ids = after.map_values(|p: (u64, i64)| p.0);
    let bids = before.map_values(|p: (u64, i64)| p.0);
    assert forall|a: int, b: int| 0 <= a < ids.len() && 0 <= b < ids.len() && a != b implies ids[a]
        != ids[b] by {
        if ids[a] == ids[b] {
            let pa = after[a];
            let pb = after[b];
            assert(before.contains(pa));
            assert(before.contains(pb));
            let ia = choose|i: int| 0 <= i < before.len() && before[i] == pa;
            let ib = choose|i: int| 0 <= i < before.len() && before[i] == pb;
            assert(bids[ia] == bids[ib]);
            if ia == ib {
                // Same pair twice in `after`, once in `before`: impossible by counts.
                assert(pa == pb);
                lemma_two_positions_count(after, a, b);
                lemma_no_dup_ids_count_one(before, ia);
            }
        }
    }
}

proof fn lemma_two_positions_count(s: Seq<(u64, i64)>, a: int, b: int)
    requires
        0 <= a < s.len(),
        0 <= b < s.len(),
        a != b,
        s[a] == s[b],
    ensures
        s.to_multiset().count(s[a]) >= 2,
{
    broadcast use vstd::seq_lib::group_to_multiset_ensures;

    let lo = if a < b { a } else { b };
    let hi = if a < b { b } else { a };
    let s0 = s.subrange(0, hi);
    let s1 = s.subrange(hi, s.len() as int);
    assert(s =~= s0 + s1);
    vstd::seq_lib::lemma_multiset_commutative(s0, s1);
    assert(s0[lo] == s[a]);
    assert(s1[0] == s[a]);
    assert(s0.to_multiset().count(s[a]) >= 1);
    assert(s1.to_multiset().count(s[a]) >= 1);
}

proof fn lemma_no_dup_ids_count_one(s: Seq<(u64, i64)>, i: int)
    requires
        0 <= i < s.len(),
        s.map_values(|p: (u64, i64)| p.0).no_duplicates(),
    ensures
        s.to_multiset().count(s[i]) == 1,
{
    assert(s.no_duplicates()) by {
        assert forall|a: int, b: int| 0 <= a < s.len() && 0 <= b < s.len() && a != b implies s[a]
            != s[b] by {
            let ids = s.map_values(|p: (u64, i64)| p.0);
            assert(ids[a] == s[a].0);
            assert(ids[b] == s[b].0);
        }
    }
    s.lemma_multiset_has_no_duplicates();
    broadcast use vstd::seq_lib::group_to_multiset_ensures;

    assert(s.to_multiset().contains(s[i]));
}

/// Every key of the table appears in a complete listing of its ids.
proof fn lemma_id_position(m: Map<u64, OrderEntry>, s: Seq<(u64, i64)>, k: u64) -> (x: int)
    requires
        m.dom().finite(),
        m.contains_key(k),
        s.len() == m.len(),
        s.map_values(|p: (u64, i64)| p.0).no_duplicates(),
        forall|y: int| 0 <= y < s.len() ==> m.contains_key(#[trigger] s[y].0),
    ensures
        0 <= x < s.len(),
        s[x].0 == k,
{
    let ids = s.map_values(|p: (u64, i64)| p.0);
    ids.unique_seq_to_set();
    assert(ids.to_set().len() == m.dom().len());
    assert forall|key: u64| ids.to_set().contains(key) implies m.dom().contains(key) by {
        let y = choose|y: int| 0 <= y < ids.len() && ids[y] == key;
        assert(ids[y] == s[y].0);
    }
    assert(ids.to_set().subset_of(m.dom()));
    vstd::set_lib::lemma_subset_equality(ids.to_set(), m.dom());
    assert(ids.to_set().contains(k));
    let x = choose|y: int| 0 <= y < ids.len() && ids[y] == k;
    assert(ids[x] == s[x].0);
    x
}


impl Default for LifecycleTracker {
    fn default() -> (r: Self)
        ensures
            r.wf(),
            r.orders() == Map::<u64, OrderEntry>::empty(),
            r.n_days == 0,
    {
        LifecycleTracker::new()
    }
}

} // verus!
