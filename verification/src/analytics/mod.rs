pub mod stat_deltas;
