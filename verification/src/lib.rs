//! Extraction of blockchain history from a paginated archive service into
//! columnar tables: configuration, query construction, response handling,
//! size-bounded chunking, typed column accumulation and progress reporting.

pub mod cli;
pub mod datasets;
pub mod export;
pub mod json;
pub mod progress;
pub mod save;
pub mod text;
pub mod utils;
