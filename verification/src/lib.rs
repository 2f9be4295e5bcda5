//! Per-user GPU memory accounting over a bounded monitoring window.
//!
//! The crate holds the verified core of a sampling monitor: parsing the
//! textual output of the introspection tools, joining processes to their
//! owners, folding snapshots into exact per-user totals, naming and laying
//! out backups, and the tick-by-tick control of a monitoring run.

pub mod backup;
pub mod config;
pub mod monitor;
pub mod number;
pub mod report;
pub mod snapshot;
pub mod text;
pub mod totals;
pub mod window;
