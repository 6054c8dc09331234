//! The run's configuration: what the command line asked for, checked.

pub mod config;
pub mod opts;
