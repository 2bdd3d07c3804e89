//! Verified core of the network analytics service: the stat-tile delta
//! baselines, the asset identifiers used to price payment volume, and the
//! configuration and scheduling of the daily-active-accounts job.

pub mod analytics;
pub mod api;
pub mod jobs;
