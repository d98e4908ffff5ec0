//! Statistical profiling of market-by-order (MBO) event streams against a
//! reconstructed limit order book.
//!
//! The library holds the exact, integer-valued core of every analysis
//! tracker: event classification, order-flow imbalance, book depth and
//! spread measurements, volume bars, order lifecycles and trade flow, the
//! pairing of time bins across lags and scales, and the discovery of day
//! files by date.
//! Each tracker consumes plain book snapshots and order events and exposes
//! the integer observations from which the floating-point statistics are
//! accumulated.

pub mod book;
pub mod config;
pub mod counts;
pub mod discovery;
pub mod ofi_core;
pub mod profiler;
pub mod order_map;
pub mod time_sort;
pub mod trackers;
