use little_squid_cli::cli::config::{Dataset, FilterOptions, Range};
use little_squid_cli::datasets::block_fetcher::BlockFetcher;
use little_squid_cli::datasets::fetcher::{
    block_loop_step, chunk_records, create_query_json, field_selector, next_block,
    options_value, parse_response, read_response, shutdown_chunk, FetchError,
    QueryError, FetchStep, MAX_CHUNK_SIZE, SHUTDOWN_PROGRESS,
};
use little_squid_cli::datasets::traits::DataFetcher;
use little_squid_cli::datasets::transaction_fetcher::TransactionFetcher;
use serde_json::Value;

fn json(text: &str) -> Value {
    serde_json::from_str(text).unwrap()
}

fn owned(names: &[&str]) -> Vec<String> {
    names.iter().map(|name| name.to_string()).collect()
}

#[test]
fn block_query_selects_the_requested_fields() {
    let query = create_query_json(
        Dataset::Blocks,
        17,
        &owned(&["hash", "number"]),
        &FilterOptions::new(),
    )
    .unwrap();
    assert_eq!(
        query,
        json(
            r#"{"fields": {"block": {"hash": true, "number": true}},
                "fromBlock": 17, "includeAllBlocks": true}"#
        )
    );
}

#[test]
fn block_query_takes_no_filter() {
    let mut options = FilterOptions::new();
    options.insert("from".to_owned(), owned(&["0xabc"]));
    let query = create_query_json(Dataset::Blocks, 0, &Vec::new(), &options).unwrap();
    assert_eq!(
        query,
        json(r#"{"fields": {"block": {}}, "fromBlock": 0, "includeAllBlocks": true}"#)
    );
}

#[test]
fn transaction_query_carries_option_and_fields() {
    let mut options = FilterOptions::new();
    options.insert("from".to_owned(), owned(&["0xabc"]));
    let query = create_query_json(
        Dataset::Transactions,
        1,
        &owned(&["id", "from", "to"]),
        &options,
    )
    .unwrap();
    assert_eq!(
        query,
        json(
            r#"{"transactions": [{"from": ["0xabc"]}],
                "fields": {"block": {}, "transaction": {"id": true, "from": true, "to": true}},
                "fromBlock": 1, "includeAllBlocks": true}"#
        )
    );
    let selected = query["fields"]["transaction"].as_object().unwrap();
    assert_eq!(selected.len(), 3);
    assert_eq!(query["fields"]["block"], json("{}"));
    assert_eq!(query["transactions"][0]["from"][0], "0xabc");
}

#[test]
fn transaction_query_without_options_has_an_empty_filter() {
    let query = create_query_json(
        Dataset::Transactions,
        u64::MAX,
        &owned(&["hash"]),
        &FilterOptions::new(),
    )
    .unwrap();
    assert_eq!(
        query,
        json(
            r#"{"transactions": [{}],
                "fields": {"block": {}, "transaction": {"hash": true}},
                "fromBlock": 18446744073709551615, "includeAllBlocks": true}"#
        )
    );
}

#[test]
fn logs_query_is_not_implemented() {
    let query = create_query_json(
        Dataset::Logs,
        1,
        &owned(&["hash"]),
        &FilterOptions::new(),
    );
    assert_eq!(query, Err(QueryError::NotImplemented));
    assert!(QueryError::NotImplemented
        .message()
        .contains("not implemented"));
}

#[test]
fn selector_switches_each_field_on_once() {
    assert_eq!(field_selector(&Vec::new()), json("{}"));
    assert_eq!(
        field_selector(&owned(&["b", "a", "b"])),
        json(r#"{"a": true, "b": true}"#)
    );
}

#[test]
fn option_object_lists_the_values_of_each_key() {
    let mut options = FilterOptions::new();
    assert_eq!(options_value(&options), json("{}"));
    options.insert("from".to_owned(), owned(&["0x1"]));
    options.insert("to".to_owned(), owned(&["0x2", "0x3"]));
    options.insert("sighash".to_owned(), Vec::new());
    options.insert("from".to_owned(), owned(&["0x4"]));
    assert_eq!(
        options_value(&options),
        json(r#"{"from": ["0x4"], "to": ["0x2", "0x3"], "sighash": []}"#)
    );
}

#[test]
fn block_fetcher_builds_the_block_query() {
    let fetcher = BlockFetcher::new();
    let query = fetcher.create_json_object(2000000, &owned(&["hash", "number", "parentHash"]), None);
    assert_eq!(
        query,
        json(
            r#"{"fields": {"block": {"hash": true, "number": true, "parentHash": true}},
                "fromBlock": 2000000, "includeAllBlocks": true}"#
        )
    );
    let ignored = fetcher.create_json_object(5, &owned(&["hash"]), Some(json(r#"[{"from": []}]"#)));
    assert_eq!(
        ignored,
        json(r#"{"fields": {"block": {"hash": true}}, "fromBlock": 5, "includeAllBlocks": true}"#)
    );
}

#[test]
fn transaction_fetcher_builds_the_transaction_query() {
    let fetcher = TransactionFetcher::new();
    let plain = fetcher.create_json_object(7, &owned(&["hash", "to"]), None);
    assert_eq!(
        plain,
        json(
            r#"{"fields": {"block": {}, "transaction": {"hash": true, "to": true}},
                "fromBlock": 7, "includeAllBlocks": true}"#
        )
    );
    let filtered = fetcher.create_json_object(
        7,
        &owned(&["hash"]),
        Some(json(r#"[{"to": ["0x1"]}]"#)),
    );
    assert_eq!(
        filtered,
        json(
            r#"{"transactions": [{"to": ["0x1"]}],
                "fields": {"block": {}, "transaction": {"hash": true}},
                "fromBlock": 7, "includeAllBlocks": true}"#
        )
    );
}

#[test]
fn transaction_fetcher_query_has_filter_and_empty_block_selector() {
    let fetcher = TransactionFetcher::new();
    let query = fetcher.create_json_object(
        1,
        &owned(&["id", "from", "to"]),
        Some(json(r#"[{"from": ["0xabc"]}]"#)),
    );
    assert_eq!(
        query,
        json(
            r#"{"transactions": [{"from": ["0xabc"]}],
                "fields": {"block": {}, "transaction": {"id": true, "from": true, "to": true}},
                "fromBlock": 1, "includeAllBlocks": true}"#
        )
    );
    assert_eq!(query["fields"]["block"], json("{}"));
    assert_eq!(query["fields"]["transaction"].as_object().unwrap().len(), 3);
}

#[test]
fn response_gives_records_and_next_height() {
    let (records, next) =
        parse_response(r#"[{"header": {"number": 10, "hash": "0xa"}}]"#).unwrap();
    assert_eq!(next, 11);
    assert_eq!(records, vec![json(r#"{"header": {"number": 10, "hash": "0xa"}}"#)]);
}

#[test]
fn next_height_follows_the_last_record() {
    let text = r#"[{"header": {"number": 5}}, {"header": {"number": 9}, "transactions": []},
                   {"header": {"number": 7}}]"#;
    let (records, next) = parse_response(text).unwrap();
    assert_eq!(records.len(), 3);
    assert_eq!(records[1], json(r#"{"header": {"number": 9}, "transactions": []}"#));
    assert_eq!(next, 8);
    assert_eq!(next_block(&records), Ok(8));
}

#[test]
fn unusable_responses_are_told_apart() {
    assert_eq!(parse_response("not json"), Err(FetchError::Malformed));
    assert_eq!(parse_response(""), Err(FetchError::Malformed));
    assert_eq!(parse_response("[1, 2"), Err(FetchError::Malformed));
    assert_eq!(parse_response(r#"{"header": {"number": 1}}"#), Err(FetchError::NotAList));
    assert_eq!(parse_response("null"), Err(FetchError::NotAList));
    assert_eq!(parse_response("[]"), Err(FetchError::Empty));
    for text in [
        "[1]",
        "[{}]",
        r#"[{"header": 5}]"#,
        r#"[{"header": {}}]"#,
        r#"[{"header": {"number": "10"}}]"#,
        r#"[{"header": {"number": -1}}]"#,
        r#"[{"header": {"number": 1.0}}]"#,
        r#"[{"header": {"number": null}}]"#,
        r#"[{"header": {"number": 1}}, {"header": {"hash": "0x"}}]"#,
    ] {
        assert_eq!(parse_response(text), Err(FetchError::NoCursor), "{text}");
    }
    assert_eq!(
        parse_response(r#"[{"header": {"number": 18446744073709551615}}]"#),
        Err(FetchError::CursorOverflow)
    );
    assert_eq!(
        parse_response(r#"[{"header": {"number": 18446744073709551614}}]"#).map(|chunk| chunk.1),
        Ok(u64::MAX)
    );
}

#[test]
fn parsed_response_is_read_the_same_way() {
    assert_eq!(read_response(json("7")), Err(FetchError::NotAList));
    assert_eq!(read_response(json("[]")), Err(FetchError::Empty));
    let (records, next) = read_response(json(r#"[{"header": {"number": 0}}]"#)).unwrap();
    assert_eq!(records.len(), 1);
    assert_eq!(next, 1);
    assert_eq!(next_block(&Vec::new()), Err(FetchError::Empty));
}

fn sizes(chunks: &[Vec<Value>]) -> Vec<Vec<usize>> {
    chunks
        .iter()
        .map(|chunk| {
            chunk
                .iter()
                .map(|record| serde_json::to_string(record).unwrap().len())
                .collect()
        })
        .collect()
}

fn records_of_sizes(lengths: &[usize]) -> Vec<Value> {
    lengths
        .iter()
        .enumerate()
        .map(|(at, length)| {
            let digit = char::from(b'a' + (at % 26) as u8);
            Value::String(std::iter::repeat(digit).take(length - 2).collect())
        })
        .collect()
}

#[test]
fn chunks_stay_within_the_budget() {
    let records = records_of_sizes(&[4, 4, 4, 4, 4]);
    let chunks = chunk_records(records.clone(), 10);
    assert_eq!(sizes(&chunks), vec![vec![4, 4], vec![4, 4], vec![4]]);
    assert_eq!(chunks.concat(), records);
}

#[test]
fn chunk_is_closed_only_when_the_next_record_would_exceed() {
    let records = records_of_sizes(&[5, 5, 5, 5]);
    let chunks = chunk_records(records.clone(), 10);
    assert_eq!(sizes(&chunks), vec![vec![5, 5], vec![5, 5]]);
    let chunks = chunk_records(records.clone(), 9);
    assert_eq!(sizes(&chunks), vec![vec![5], vec![5], vec![5], vec![5]]);
    let chunks = chunk_records(records.clone(), 20);
    assert_eq!(sizes(&chunks), vec![vec![5, 5, 5, 5]]);
    let chunks = chunk_records(records.clone(), 19);
    assert_eq!(sizes(&chunks), vec![vec![5, 5, 5], vec![5]]);
}

#[test]
fn oversized_record_gets_a_chunk_of_its_own() {
    let records = records_of_sizes(&[30, 3, 3, 40, 50, 3]);
    let chunks = chunk_records(records.clone(), 10);
    assert_eq!(
        sizes(&chunks),
        vec![vec![30], vec![3, 3], vec![40], vec![50], vec![3]]
    );
    assert!(chunks.iter().all(|chunk| !chunk.is_empty()));
    assert_eq!(chunks.concat(), records);
}

#[test]
fn no_chunk_is_empty_even_with_no_budget() {
    let records = records_of_sizes(&[2, 3, 2]);
    let chunks = chunk_records(records.clone(), 0);
    assert_eq!(sizes(&chunks), vec![vec![2], vec![3], vec![2]]);
    assert_eq!(chunks.concat(), records);
}

#[test]
fn no_records_give_no_chunks() {
    let chunks: Vec<Vec<Value>> = chunk_records(Vec::new(), MAX_CHUNK_SIZE);
    assert_eq!(chunks, Vec::<Vec<Value>>::new());
}

#[test]
fn records_are_measured_by_their_json_text() {
    let records = vec![
        json(r#"{"header": {"number": 1}}"#),
        json(r#"{ "header" : { "number" : 2 } }"#),
        json("[1, 2, 3]"),
    ];
    assert_eq!(sizes(&[records.clone()]), vec![vec![23, 23, 7]]);
    let chunks = chunk_records(records.clone(), 46);
    assert_eq!(sizes(&chunks), vec![vec![23, 23], vec![7]]);
    let chunks = chunk_records(records.clone(), 45);
    assert_eq!(sizes(&chunks), vec![vec![23], vec![23, 7]]);
    let chunks = chunk_records(records.clone(), MAX_CHUNK_SIZE);
    assert_eq!(chunks, vec![records]);
}

#[test]
fn chunking_reproduces_its_input_under_every_budget() {
    let records = records_of_sizes(&[7, 2, 9, 4, 4, 12, 3, 3, 3, 8, 2, 2]);
    for budget in 0..70 {
        let chunks = chunk_records(records.clone(), budget);
        assert_eq!(chunks.concat(), records);
        let measured = sizes(&chunks);
        for (at, chunk) in measured.iter().enumerate() {
            assert!(!chunk.is_empty());
            let total: usize = chunk.iter().sum();
            assert!(chunk.len() == 1 || total <= budget);
            if let Some(next) = measured.get(at + 1) {
                assert!(total + next[0] > budget);
            }
        }
    }
}

#[test]
fn the_budget_is_ten_mebibytes() {
    assert_eq!(MAX_CHUNK_SIZE, 10 * 1024 * 1024);
}

#[test]
fn loop_goes_on_while_the_range_lasts() {
    let range = Range { start: 1, end: 10 };
    assert_eq!(
        block_loop_step(&range, 5),
        FetchStep {
            progress: 44,
            next_start: Some(5)
        }
    );
    assert_eq!(
        block_loop_step(&range, 10),
        FetchStep {
            progress: 100,
            next_start: Some(10)
        }
    );
}

#[test]
fn loop_stops_beyond_the_end_of_the_range() {
    let range = Range { start: 1, end: 10 };
    let (records, next) = parse_response(r#"[{"header": {"number": 10}}]"#).unwrap();
    assert_eq!(next, 11);
    let chunks = chunk_records(records, MAX_CHUNK_SIZE);
    assert_eq!(chunks.len(), 1);
    assert_eq!(
        block_loop_step(&range, next),
        FetchStep {
            progress: 100,
            next_start: None
        }
    );
    assert!(shutdown_chunk().is_empty());
    assert_eq!(SHUTDOWN_PROGRESS, 0);
}
