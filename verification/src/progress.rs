//! Reporting how far a run has come.

pub mod stats;
