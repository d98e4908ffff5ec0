//! The active-order table: an `ahash::AHashMap` from order id to the order's
//! lifecycle record, reached only through the trusted items below.
//!
//! A record is the tuple
//! `(add_timestamp, size, n_modifies, n_partial_fills, last_state, regime_at_add)`.

use vstd::prelude::*;

verus! {

/// Lifecycle record of an active order:
/// `(add_timestamp, size, n_modifies, n_partial_fills, last_state, regime_at_add)`.
pub type OrderEntry = (i64, u32, u32, u32, u8, u8);

/// The table type.
pub type OrderMap = ahash::AHashMap<u64, OrderEntry>;

#[verifier::external_type_specification]
#[verifier::external_body]
#[verifier::reject_recursive_types(K)]
#[verifier::reject_recursive_types(V)]
#[verifier::reject_recursive_types(S)]
pub struct ExAHashMap<K, V, S>(ahash::AHashMap<K, V, S>);

#[verifier::external_type_specification]
#[verifier::external_body]
pub struct ExAhashRandomState(ahash::RandomState);

/// What the table holds: order id to lifecycle record.
pub uninterp spec fn order_map_contents(m: ahash::AHashMap<u64, (i64, u32, u32, u32, u8, u8)>) -> Map<
    u64,
    (i64, u32, u32, u32, u8, u8),
>;

/// `ahash::AHashMap::with_capacity`: a new, empty table (the capacity only
/// pre-allocates).
#[verifier::external_body]
pub(crate) fn order_map_with_capacity(capacity: usize) -> (r: OrderMap)
    ensures
        order_map_contents(r).len() == 0 && order_map_contents(r).dom().finite(),
{
    ahash::AHashMap::with_capacity(capacity)
}

/// `HashMap::len` (through `AHashMap`'s `Deref`): the number of entries.
#[verifier::external_body]
pub(crate) fn order_map_len(m: &OrderMap) -> (r: usize)
    ensures
        r == order_map_contents(*m).len(),
{
    m.len()
}

/// `ahash::AHashMap::get`: the record of `k`, if present (copied out).
#[verifier::external_body]
pub(crate) fn order_map_get(m: &OrderMap, k: u64) -> (r: Option<OrderEntry>)
    ensures
        r == (if order_map_contents(*m).contains_key(k) {
            Some(order_map_contents(*m)[k])
        } else {
            None::<OrderEntry>
        }),
{
    m.get(&k).copied()
}

/// `ahash::AHashMap::insert`: `k` now maps to `v`; the previous record of
/// `k`, if any, is returned.
#[verifier::external_body]
pub(crate) fn order_map_insert(m: &mut OrderMap, k: u64, v: OrderEntry) -> (r: Option<OrderEntry>)
    ensures
        order_map_contents(*final(m)) == order_map_contents(*old(m)).insert(k, v),
        r == (if order_map_contents(*old(m)).contains_key(k) {
            Some(order_map_contents(*old(m))[k])
        } else {
            None::<OrderEntry>
        }),
{
    m.insert(k, v)
}

/// `ahash::AHashMap::remove`: `k` no longer has a record; its previous
/// record, if any, is returned.
#[verifier::external_body]
pub(crate) fn order_map_remove(m: &mut OrderMap, k: u64) -> (r: Option<OrderEntry>)
    ensures
        order_map_contents(*final(m)) == order_map_contents(*old(m)).remove(k),
        r == (if order_map_contents(*old(m)).contains_key(k) {
            Some(order_map_contents(*old(m))[k])
        } else {
            None::<OrderEntry>
        }),
{
    m.remove(&k)
}

/// `HashMap::clear` (through `AHashMap`'s `DerefMut`): no records remain.
#[verifier::external_body]
pub(crate) fn order_map_clear(m: &mut OrderMap)
    ensures
        order_map_contents(*final(m)).len() == 0 && order_map_contents(*final(m)).dom().finite(),
{
    m.clear()
}

/// `HashMap::iter` (through `AHashMap`'s `Deref`), each entry mapped to its
/// id and add timestamp: every record appears exactly once, in an order the
/// hasher decides and nothing here states.
#[verifier::external_body]
pub(crate) fn order_map_add_times(m: &OrderMap) -> (r: Vec<(u64, i64)>)
    ensures
        r.len() == order_map_contents(*m).len(),
        r@.map_values(|p: (u64, i64)| p.0).no_duplicates(),
        forall|i: int|
            0 <= i < r.len() ==> order_map_contents(*m).contains_key(#[trigger] r@[i].0) && r@[i].1
                == order_map_contents(*m)[r@[i].0].0,
{
    m.iter().map(|(&id, e)| (id, e.0)).collect()
}

} // verus!
