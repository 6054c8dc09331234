//! Talking to the archive: queries, responses and the fetch loop's steps.

pub mod block_fetcher;
pub mod fetcher;
pub mod traits;
pub mod transaction_fetcher;
