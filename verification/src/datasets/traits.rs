//! What the fetchers of the datasets have in common.

use crate::json::{json_member, json_of, Json, JsonNumber};
use serde_json::Value;
use vstd::prelude::*;

verus! {

/// Whether a query body asks for every block from `start_block` on: it has
/// that height under `fromBlock` and `true` under `includeAllBlocks`.
pub open spec fn starts_at(query: Json, start_block: u64) -> bool {
    &&& json_member(query, "fromBlock"@) == Some(Json::Number(JsonNumber::Unsigned(start_block)))
    &&& json_member(query, "includeAllBlocks"@) == Some(Json::Bool(true))
}

/// The fetcher of one dataset: it knows how to ask the archive for the
/// records of its dataset.
pub trait DataFetcher: Sized {
    fn new() -> Self;

    /// The body of the query for the records from `start_block` on, with the
    /// named fields switched on. `options` is the filter section, for the
    /// datasets that take one.
    fn create_json_object(&self, start_block: u64, fields: &Vec<String>, options: Option<Value>) -> (query: Value)
        ensures
            starts_at(json_of(query), start_block),
    ;
}

} // verus!
