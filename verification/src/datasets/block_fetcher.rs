//! The fetcher of blocks.

use crate::datasets::fetcher::{field_selector, selector};
use crate::datasets::traits::{starts_at, DataFetcher};
use crate::json::{
    json_bool, json_map_insert, json_map_new, json_object, json_of, json_unsigned, Json, JsonMap,
    JsonNumber,
};
use crate::text::texts;
use serde_json::Value;
use vstd::prelude::*;
use vstd::string::StringExecFns;

verus! {

/// The fetcher of blocks.
pub struct BlockFetcher;

/// The body of a query for blocks: the block selector of the fields, the
/// height to start from, and the request for every block.
pub open spec fn block_query(start_block: u64, fields: Seq<Seq<char>>) -> Json {
    Json::Object(
        map![
            "fields"@ => Json::Object(map!["block"@ => Json::Object(selector(fields))]),
            "fromBlock"@ => Json::Number(JsonNumber::Unsigned(start_block)),
            "includeAllBlocks"@ => Json::Bool(true),
        ],
    )
}

/// The three keys of a block query differ.
pub proof fn lemma_block_query_starts(start_block: u64, fields: Seq<Seq<char>>)
    ensures
        starts_at(block_query(start_block, fields), start_block),
{
    reveal_strlit("fields");
    reveal_strlit("fromBlock");
    reveal_strlit("includeAllBlocks");
    assert("fields"@.len() == 6);
    assert("fromBlock"@.len() == 9);
    assert("includeAllBlocks"@.len() == 16);
}

impl DataFetcher for BlockFetcher {
    fn new() -> Self {
        BlockFetcher
    }

    /// The body of the query for the blocks from `start_block` on. Blocks
    /// take no filter: `options` is left aside.
    fn create_json_object(&self, start_block: u64, fields: &Vec<String>, options: Option<Value>) -> (query: Value)
        ensures
            json_of(query) == block_query(start_block, texts(fields@)),
    {
        let mut sections: JsonMap = json_map_new();
        json_map_insert(&mut sections, String::from_str("block"), field_selector(fields));
        let mut body: JsonMap = json_map_new();
        json_map_insert(&mut body, String::from_str("fields"), json_object(sections));
        json_map_insert(&mut body, String::from_str("fromBlock"), json_unsigned(start_block));
        json_map_insert(&mut body, String::from_str("includeAllBlocks"), json_bool(true));
        proof {
            lemma_block_query_starts(start_block, texts(fields@));
        }
        json_object(body)
    }
}

} // verus!
