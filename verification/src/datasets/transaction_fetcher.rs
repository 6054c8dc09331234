//! The fetcher of transactions.

use crate::datasets::fetcher::{field_selector, selector};
use crate::datasets::traits::{starts_at, DataFetcher};
use crate::json::{
    json_bool, json_map_insert, json_map_new, json_object, json_of, json_unsigned, Json, JsonMap,
    JsonNumber,
};
use crate::text::texts;
use serde_json::Value;
use vstd::prelude::*;
use vstd::string::StringExecFns;

verus! {

/// The fetcher of transactions.
pub struct TransactionFetcher;

/// The body of a query for transactions: the filter section where one is
/// given, an empty block selector beside the transaction selector of the
/// fields, the height to start from, and the request for every block.
pub open spec fn transaction_query(start_block: u64, fields: Seq<Seq<char>>, options: Option<Json>) -> Json {
    let rest = map![
        "fields"@ => Json::Object(
            map![
                "block"@ => Json::Object(Map::empty()),
                "transaction"@ => Json::Object(selector(fields)),
            ],
        ),
        "fromBlock"@ => Json::Number(JsonNumber::Unsigned(start_block)),
        "includeAllBlocks"@ => Json::Bool(true),
    ];
    match options {
        Some(filter) => Json::Object(rest.insert("transactions"@, filter)),
        None => Json::Object(rest),
    }
}

/// The four keys of a transaction query differ.
pub proof fn lemma_transaction_query_starts(
    start_block: u64,
    fields: Seq<Seq<char>>,
    options: Option<Json>,
)
    ensures
        starts_at(transaction_query(start_block, fields, options), start_block),
{
    reveal_strlit("fields");
    reveal_strlit("fromBlock");
    reveal_strlit("includeAllBlocks");
    reveal_strlit("transactions");
    assert("fields"@.len() == 6);
    assert("fromBlock"@.len() == 9);
    assert("includeAllBlocks"@.len() == 16);
    assert("transactions"@.len() == 12);
}

impl DataFetcher for TransactionFetcher {
    fn new() -> Self {
        TransactionFetcher
    }

    /// The body of the query for the transactions from `start_block` on,
    /// with `options` as its filter section where it is given. The block
    /// selector is empty, so that the blocks come with their header alone.
    fn create_json_object(&self, start_block: u64, fields: &Vec<String>, options: Option<Value>) -> (query: Value)
        ensures
            json_of(query) == transaction_query(
                start_block,
                texts(fields@),
                match options {
                    Some(filter) => Some(json_of(filter)),
                    None => None,
                },
            ),
    {
        let mut sections: JsonMap = json_map_new();
        json_map_insert(&mut sections, String::from_str("block"), json_object(json_map_new()));
        json_map_insert(&mut sections, String::from_str("transaction"), field_selector(fields));
        let mut body: JsonMap = json_map_new();
        json_map_insert(&mut body, String::from_str("fields"), json_object(sections));
        json_map_insert(&mut body, String::from_str("fromBlock"), json_unsigned(start_block));
        json_map_insert(&mut body, String::from_str("includeAllBlocks"), json_bool(true));
        match options {
            Some(filter) => {
                proof {
                    lemma_transaction_query_starts(
                        start_block,
                        texts(fields@),
                        Some(json_of(filter)),
                    );
                }
                json_map_insert(&mut body, String::from_str("transactions"), filter);
            },
            None => {
                proof {
                    lemma_transaction_query_starts(start_block, texts(fields@), None);
                }
            },
        }
        json_object(body)
    }
}

} // verus!
