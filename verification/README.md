# mbo_statistical_profiler

A statistical profiler for market-by-order (MBO) data. Every event of a
trading day is fed, with the order book it produced, to a set of trackers
that measure order flow imbalance, spreads, returns, volatility, jumps,
microstructure noise, depth, trades, order lifecycles, liquidity costs and
VPIN, and the results are written as one JSON report per tracker.

## Layout

- `src/` — the verified library (Verus). It holds the exact, integer side of
  every tracker: the order flow imbalance of each event and its components,
  the volume bars of VPIN, the order lifecycle table with its eviction rule,
  trade classification and clustering, depth and spread measurements as exact
  ratios, the pairing of time bins across lags and scales, file discovery by
  date, and the configuration defaults. Each function carries a contract, and
  the cross-function properties are stated as proof functions (`lemma_*`).
- `app/` — the command-line program: configuration parsing, reading the day
  files through the book reconstructor, the day loop, the floating-point
  statistics built on the library's measurements, and the JSON output.
- `tests/` — tests of the library on concrete values.

Prices are nanodollars throughout the library; a mid price is carried as
`bid + ask` (twice the mid) so that it stays exact.
