//! From raw records to typed columns and tables.

pub mod export;
pub mod fields;
pub mod frame;
