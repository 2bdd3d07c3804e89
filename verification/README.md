# stellar_analytics

The verified core of a network analytics service for Stellar payments.

- `src/` (Verus): the price-feed identifiers of assets and their first-occurrence
  deduplication, the prior-day baselines of the homepage stat tiles, the
  cold-start pairing of daily snapshots, and the configuration and schedule of
  the daily-active-accounts job (with `str::parse`-compatible `u64` / `bool`
  parsing of its environment values).
- `app/` (plain Rust): SQLite queries, HTTP handlers, the job loop, and the
  `f64` figures (percent changes, USD volume sums, dashboard data), which the
  verified library does not hold.
- `tests/`: executable tests of the library.
