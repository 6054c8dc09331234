use little_squid_cli::cli::config::Dataset;
use little_squid_cli::export::export::{
    blocks_to_dataframe, create_columns_from_field_data, process_json_object, ExportError,
    FieldSet,
};
use little_squid_cli::cli::config::Config;
use little_squid_cli::cli::opts::Opts;
use little_squid_cli::datasets::fetcher::{
    block_loop_step, chunk_records, create_query_json, parse_response, shutdown_chunk,
    MAX_CHUNK_SIZE, SHUTDOWN_PROGRESS,
};
use little_squid_cli::export::fields::{create_field_data, ColumnRef, FieldData};
use little_squid_cli::progress::stats::{is_last, DisplayStep, Progress};
use little_squid_cli::save::{chunk_file_name, WriteStep, Writer};
use polars::prelude::{
    DataFrame, ParquetCompression, ParquetReader, ParquetWriter, SerReader,
};
use serde_json::Value;
use std::io::Cursor;

fn json(text: &str) -> Value {
    serde_json::from_str(text).unwrap()
}

fn records(text: &str) -> Vec<Value> {
    match json(text) {
        Value::Array(records) => records,
        other => panic!("{other}"),
    }
}

fn owned(names: &[&str]) -> Vec<String> {
    names.iter().map(|name| name.to_string()).collect()
}

fn names(frame: &DataFrame) -> Vec<String> {
    frame
        .get_column_names()
        .into_iter()
        .map(|name| name.to_string())
        .collect()
}

fn text_of(frame: &DataFrame, name: &str) -> Vec<String> {
    frame
        .column(name)
        .unwrap()
        .str()
        .unwrap()
        .iter()
        .map(|value| value.unwrap().to_owned())
        .collect()
}

fn numbers_of(frame: &DataFrame, name: &str) -> Vec<u64> {
    frame
        .column(name)
        .unwrap()
        .u64()
        .unwrap()
        .iter()
        .map(|value| value.unwrap())
        .collect()
}

fn set_of(fields: &[&str], dataset: Dataset) -> FieldSet {
    let mut set = FieldSet::new();
    for field in fields {
        set.insert(create_field_data(field, dataset).unwrap());
    }
    set
}

fn number_values(data: &FieldData) -> Vec<u64> {
    match data.values() {
        ColumnRef::Number(values) => values.clone(),
        ColumnRef::Text(_) => panic!("text"),
    }
}

fn text_values(data: &FieldData) -> Vec<String> {
    match data.values() {
        ColumnRef::Text(values) => values.clone(),
        ColumnRef::Number(_) => panic!("numbers"),
    }
}

const BLOCKS: &str = r#"[
    {"header": {"number": 1, "hash": "0xa", "timestamp": 1438269988.0, "miner": "0x1"}},
    {"header": {"number": 2, "hash": "0xb", "timestamp": 1438270017, "miner": "0x2"}},
    {"header": {"number": 3, "hash": "0xc", "timestamp": 1438270048.5, "miner": "0x1"}}
]"#;

const TRANSACTIONS: &str = r#"[
    {"header": {"number": 1}, "transactions": [
        {"hash": "0xa", "from": "0x1", "to": "0x2", "gas": 21000, "maxFeePerGas": 7},
        {"hash": "0xb", "from": "0x3", "to": "0x4", "gas": 50000}
    ]},
    {"header": {"number": 2}},
    {"header": {"number": 3}, "transactions": []},
    {"header": {"number": 4}, "transactions": [
        {"hash": "0xc", "from": "0x5", "to": "0x6", "gas": null, "maxFeePerGas": "9"}
    ]}
]"#;

#[test]
fn block_table_has_the_requested_columns_in_order() {
    let fields = owned(&["timestamp", "hash", "number"]);
    let frame = blocks_to_dataframe(Dataset::Blocks, records(BLOCKS), &fields).unwrap();
    assert_eq!(names(&frame), fields);
    assert_eq!(frame.height(), 3);
    assert_eq!(
        numbers_of(&frame, "timestamp"),
        vec![1438269988, 1438270017, 1438270048]
    );
    assert_eq!(text_of(&frame, "hash"), vec!["0xa", "0xb", "0xc"]);
    assert_eq!(numbers_of(&frame, "number"), vec![1, 2, 3]);
}

#[test]
fn transaction_table_has_one_row_for_each_nested_entry() {
    let fields = owned(&["hash", "gas", "maxFeePerGas", "to"]);
    let frame =
        blocks_to_dataframe(Dataset::Transactions, records(TRANSACTIONS), &fields).unwrap();
    assert_eq!(names(&frame), fields);
    assert_eq!(frame.height(), 3);
    assert_eq!(text_of(&frame, "hash"), vec!["0xa", "0xb", "0xc"]);
    assert_eq!(numbers_of(&frame, "gas"), vec![21000, 50000, 0]);
    assert_eq!(numbers_of(&frame, "maxFeePerGas"), vec![7, 0, 0]);
    assert_eq!(text_of(&frame, "to"), vec!["0x2", "0x4", "0x6"]);
}

#[test]
fn log_table_reads_the_nested_log_entries() {
    let chunk = records(
        r#"[{"header": {"number": 1}, "logs": [
                {"logIndex": 0, "address": "0x1", "data": "0x"},
                {"logIndex": 1, "address": "0x2", "data": "0xff"}]},
            {"header": {"number": 2}, "transactions": [{"logIndex": 9}]}]"#,
    );
    let fields = owned(&["logIndex", "address"]);
    let frame = blocks_to_dataframe(Dataset::Logs, chunk, &fields).unwrap();
    assert_eq!(numbers_of(&frame, "logIndex"), vec![0, 1]);
    assert_eq!(text_of(&frame, "address"), vec!["0x1", "0x2"]);
}

#[test]
fn table_of_no_records_has_empty_columns() {
    let fields = owned(&["hash", "number"]);
    let frame = blocks_to_dataframe(Dataset::Blocks, Vec::new(), &fields).unwrap();
    assert_eq!(names(&frame), fields);
    assert_eq!(frame.height(), 0);
    let none = blocks_to_dataframe(Dataset::Blocks, records(BLOCKS), &Vec::new()).unwrap();
    assert_eq!(none.width(), 0);
}

#[test]
fn block_record_without_header_is_fatal() {
    for chunk in [
        r#"[{"header": {"hash": "0xa"}}, {}]"#,
        r#"[7, {"header": {"hash": "0xa"}}]"#,
        r#"[{"hash": "0xa"}]"#,
        r#"[null]"#,
        r#"[[]]"#,
    ] {
        let made = blocks_to_dataframe(Dataset::Blocks, records(chunk), &owned(&["hash"]));
        assert!(matches!(made, Err(ExportError::ResponseShape)), "{chunk}");
        let made = blocks_to_dataframe(Dataset::Blocks, records(chunk), &Vec::new());
        assert!(matches!(made, Err(ExportError::ResponseShape)), "{chunk}");
    }
    let made = blocks_to_dataframe(
        Dataset::Blocks,
        records(r#"[{"header": {"hash": "0xa"}}, {"header": {"hash": "0xb"}}]"#),
        &owned(&["hash"]),
    )
    .unwrap();
    assert_eq!(text_of(&made, "hash"), vec!["0xa", "0xb"]);
}

#[test]
fn record_without_nested_list_gives_no_row() {
    let chunk = records(
        r#"[{"header": {"number": 1}},
            {"header": {"number": 2}, "transactions": [{"hash": "0xa"}]},
            {"header": {"number": 3}, "logs": [{"hash": "0xb"}]}]"#,
    );
    let frame =
        blocks_to_dataframe(Dataset::Transactions, chunk.clone(), &owned(&["hash"])).unwrap();
    assert_eq!(text_of(&frame, "hash"), vec!["0xa"]);
    let frame = blocks_to_dataframe(Dataset::Logs, chunk, &owned(&["hash"])).unwrap();
    assert_eq!(text_of(&frame, "hash"), vec!["0xb"]);
}

#[test]
fn nested_entries_are_read_whether_or_not_there_is_a_header() {
    let chunk = records(
        r#"[{"transactions": [{"hash": "0xa", "gas": 1}], "logs": [{"hash": "0xl"}]},
            {"header": {"number": 2}, "transactions": [{"hash": "0xb", "gas": 2}]},
            {},
            7,
            {"transactions": []}]"#,
    );
    let fields = owned(&["hash", "gas"]);
    let frame = blocks_to_dataframe(Dataset::Transactions, chunk.clone(), &fields).unwrap();
    assert_eq!(frame.height(), 2);
    assert_eq!(text_of(&frame, "hash"), vec!["0xa", "0xb"]);
    assert_eq!(numbers_of(&frame, "gas"), vec![1, 2]);
    let frame = blocks_to_dataframe(Dataset::Logs, chunk, &owned(&["hash"])).unwrap();
    assert_eq!(text_of(&frame, "hash"), vec!["0xl"]);
}

#[test]
fn table_is_as_high_as_the_chunk_has_rows() {
    let fields = owned(&["number"]);
    let frame = blocks_to_dataframe(Dataset::Blocks, Vec::new(), &fields).unwrap();
    assert_eq!(frame.width(), 1);
    assert_eq!(frame.height(), 0);
    let frame = blocks_to_dataframe(Dataset::Blocks, records(BLOCKS), &fields).unwrap();
    assert_eq!(frame.width(), 1);
    assert_eq!(frame.height(), 3);
    assert_eq!(frame.column("number").unwrap().len(), 3);
    let frame = blocks_to_dataframe(
        Dataset::Transactions,
        records(TRANSACTIONS),
        &owned(&["hash", "gas"]),
    )
    .unwrap();
    assert_eq!(frame.height(), 3);
    assert_eq!(frame.column("gas").unwrap().len(), 3);
}

#[test]
fn undeclared_field_is_a_schema_miss() {
    let made = blocks_to_dataframe(
        Dataset::Blocks,
        records(BLOCKS),
        &owned(&["hash", "bogus", "nope"]),
    );
    match made {
        Err(ExportError::NotFound(name)) => assert_eq!(name, "bogus"),
        other => panic!("{other:?}"),
    }
    let made = blocks_to_dataframe(Dataset::Transactions, Vec::new(), &owned(&["miner"]));
    assert!(matches!(made, Err(ExportError::NotFound(_))));
}

#[test]
fn missing_required_value_is_fatal() {
    let made = blocks_to_dataframe(Dataset::Blocks, records(BLOCKS), &owned(&["hash", "size"]));
    assert!(matches!(made, Err(ExportError::ResponseShape)));
    let made = blocks_to_dataframe(
        Dataset::Blocks,
        records(r#"[{"header": {"number": 1, "baseFeePerGas": null}}]"#),
        &owned(&["number", "baseFeePerGas"]),
    );
    assert!(matches!(made, Err(ExportError::ResponseShape)));
    let made = blocks_to_dataframe(
        Dataset::Transactions,
        records(r#"[{"header": {}, "transactions": [{"hash": "0xa"}, {"gas": 1}]}]"#),
        &owned(&["gas", "hash"]),
    );
    assert!(matches!(made, Err(ExportError::ResponseShape)));
}

#[test]
fn nested_entries_that_are_no_list_are_fatal() {
    let made = blocks_to_dataframe(
        Dataset::Transactions,
        records(r#"[{"header": {}, "transactions": {"hash": "0xa"}}]"#),
        &owned(&["hash"]),
    );
    assert!(matches!(made, Err(ExportError::ResponseShape)));
    let made = blocks_to_dataframe(
        Dataset::Transactions,
        records(r#"[{"header": {}, "transactions": {"hash": "0xa"}}]"#),
        &Vec::new(),
    );
    assert!(matches!(made, Err(ExportError::ResponseShape)));
    let set = set_of(&["hash"], Dataset::Transactions);
    let filled = process_json_object(
        records(r#"[{"header": {}, "transactions": 5}]"#),
        set,
        &Vec::new(),
        Dataset::Transactions,
    );
    assert!(matches!(filled, Err(ExportError::ResponseShape)));
}

#[test]
fn field_requested_twice_makes_no_table() {
    let made = blocks_to_dataframe(
        Dataset::Blocks,
        records(BLOCKS),
        &owned(&["hash", "number", "hash"]),
    );
    assert!(matches!(made, Err(ExportError::Table)));
}

#[test]
fn errors_come_in_the_order_of_the_stages() {
    let misshapen = records(r#"[{"header": {"hash": 1}}]"#);
    let made = blocks_to_dataframe(
        Dataset::Blocks,
        misshapen.clone(),
        &owned(&["hash", "hash", "bogus"]),
    );
    assert!(matches!(made, Err(ExportError::NotFound(_))));
    let made = blocks_to_dataframe(Dataset::Blocks, misshapen, &owned(&["hash", "hash"]));
    assert!(matches!(made, Err(ExportError::ResponseShape)));
}

#[test]
fn set_keeps_one_column_for_each_name() {
    let mut set = set_of(&["hash", "number"], Dataset::Blocks);
    assert_eq!(set.columns.len(), 2);
    assert_eq!(set.find("number"), Some(1));
    assert_eq!(set.find("miner"), None);
    let mut filled = create_field_data("hash", Dataset::Blocks).unwrap();
    filled.add_value(&json(r#""0xa""#)).unwrap();
    set.insert(filled);
    assert_eq!(set.columns.len(), 2);
    assert_eq!(set.find("hash"), Some(0));
    assert_eq!(text_values(set.get("hash").unwrap()), vec!["0xa"]);
    assert!(set.get("size").is_none());
    set.insert(create_field_data("hash", Dataset::Transactions).unwrap());
    assert_eq!(set.columns.len(), 2);
    assert!(text_values(set.get("hash").unwrap()).is_empty());
}

#[test]
fn records_fill_the_columns_of_the_requested_fields() {
    let set = set_of(&["number", "hash", "miner"], Dataset::Blocks);
    let filled = process_json_object(
        records(BLOCKS),
        set,
        &owned(&["hash", "number"]),
        Dataset::Blocks,
    )
    .unwrap();
    assert_eq!(number_values(filled.get("number").unwrap()), vec![1, 2, 3]);
    assert_eq!(
        text_values(filled.get("hash").unwrap()),
        vec!["0xa", "0xb", "0xc"]
    );
    assert!(text_values(filled.get("miner").unwrap()).is_empty());
}

#[test]
fn records_are_added_after_what_a_column_holds() {
    let mut set = FieldSet::new();
    let mut gas = create_field_data("gas", Dataset::Transactions).unwrap();
    gas.add_value(&json("5")).unwrap();
    set.insert(gas);
    let filled = process_json_object(
        records(TRANSACTIONS),
        set,
        &owned(&["gas", "hash"]),
        Dataset::Transactions,
    )
    .unwrap();
    assert_eq!(
        number_values(filled.get("gas").unwrap()),
        vec![5, 21000, 50000, 0]
    );
    assert_eq!(filled.columns.len(), 1);
}

#[test]
fn unreadable_records_fill_nothing() {
    let set = set_of(&["hash", "size"], Dataset::Blocks);
    let filled = process_json_object(
        records(BLOCKS),
        set,
        &owned(&["hash", "size"]),
        Dataset::Blocks,
    );
    assert!(matches!(filled, Err(ExportError::ResponseShape)));
    let set = set_of(&["hash", "size"], Dataset::Blocks);
    let filled = process_json_object(records(BLOCKS), set, &owned(&["hash"]), Dataset::Blocks);
    assert!(filled.is_ok());
}

#[test]
fn columns_are_made_in_the_order_of_the_request() {
    let set = set_of(&["number", "hash"], Dataset::Blocks);
    let fields = owned(&["hash", "number"]);
    let filled = process_json_object(records(BLOCKS), set, &fields, Dataset::Blocks).unwrap();
    let columns = create_columns_from_field_data(&filled, &fields).unwrap();
    assert_eq!(columns.len(), 2);
    assert_eq!(columns[0].name().as_str(), "hash");
    assert_eq!(columns[1].name().as_str(), "number");
    assert_eq!(columns[0].len(), 3);
    let hashes: Vec<String> = columns[0]
        .str()
        .unwrap()
        .iter()
        .map(|value| value.unwrap().to_owned())
        .collect();
    assert_eq!(hashes, vec!["0xa", "0xb", "0xc"]);
    let heights: Vec<u64> = columns[1]
        .u64()
        .unwrap()
        .iter()
        .map(|value| value.unwrap())
        .collect();
    assert_eq!(heights, vec![1, 2, 3]);
}

#[test]
fn field_without_column_is_a_schema_miss() {
    let set = set_of(&["hash"], Dataset::Blocks);
    match create_columns_from_field_data(&set, &owned(&["hash", "number", "size"])) {
        Err(ExportError::NotFound(name)) => assert_eq!(name, "number"),
        other => panic!("{:?}", other.map(|columns| columns.len())),
    }
}

#[test]
fn persisted_table_reads_back_as_accumulated() {
    let fields = owned(&["number", "hash", "timestamp", "miner"]);
    let mut frame = blocks_to_dataframe(Dataset::Blocks, records(BLOCKS), &fields).unwrap();
    let mut file: Vec<u8> = Vec::new();
    ParquetWriter::new(&mut file)
        .with_compression(ParquetCompression::Snappy)
        .finish(&mut frame)
        .unwrap();
    let read = ParquetReader::new(Cursor::new(file)).finish().unwrap();
    assert_eq!(names(&read), fields);
    assert_eq!(read.height(), 3);
    assert_eq!(numbers_of(&read, "number"), vec![1, 2, 3]);
    assert_eq!(text_of(&read, "hash"), vec!["0xa", "0xb", "0xc"]);
    assert_eq!(
        numbers_of(&read, "timestamp"),
        vec![1438269988, 1438270017, 1438270048]
    );
    assert_eq!(text_of(&read, "miner"), vec!["0x1", "0x2", "0x1"]);
    assert!(read.equals(&frame));
}

#[test]
fn run_over_one_response_writes_one_file_and_reports_once() {
    let config = Config::try_from(Opts {
        dataset: Some("blocks".to_owned()),
        range: Some("1:10".to_owned()),
        fields: None,
        options: None,
    })
    .unwrap();
    let query =
        create_query_json(config.dataset, config.range.start, &config.fields, &config.options)
            .unwrap();
    assert_eq!(query["fromBlock"], 1);
    let response = r#"[{"header": {"number": 10, "hash": "0xa", "timestamp": 1438269988,
                                   "miner": "0x1", "parentHash": "0x9"}}]"#;

    let mut sent_chunks: Vec<Vec<Value>> = Vec::new();
    let mut sent_progress: Vec<u64> = Vec::new();
    let mut fetches = 0;
    let mut start = config.range.start;
    loop {
        fetches += 1;
        let (fetched, next) = parse_response(response).unwrap();
        assert_eq!(next, 11);
        sent_chunks.extend(chunk_records(fetched, MAX_CHUNK_SIZE));
        let step = block_loop_step(&config.range, next);
        sent_progress.push(step.progress);
        match step.next_start {
            Some(next_start) => start = next_start,
            None => break,
        }
    }
    sent_chunks.push(shutdown_chunk());
    sent_progress.push(SHUTDOWN_PROGRESS);
    assert_eq!(fetches, 1);
    assert_eq!(start, 1);
    assert_eq!(sent_progress, vec![100, 0]);
    assert_eq!(sent_chunks.len(), 2);

    let mut files: Vec<(String, DataFrame)> = Vec::new();
    let mut writer = Writer::new();
    for chunk in sent_chunks {
        match writer.receive(&chunk) {
            WriteStep::Save(counter) => files.push((
                chunk_file_name(counter),
                blocks_to_dataframe(config.dataset, chunk, &config.fields).unwrap(),
            )),
            WriteStep::Stop => break,
        }
    }
    assert_eq!(files.len(), 1);
    assert_eq!(files[0].0, "my_dataframe_0.parquet");
    assert_eq!(
        names(&files[0].1),
        vec!["hash", "number", "timestamp", "miner", "parentHash"]
    );
    assert_eq!(numbers_of(&files[0].1, "number"), vec![10]);
    assert_eq!(text_of(&files[0].1, "parentHash"), vec!["0x9"]);

    let mut progress = Progress::new();
    let mut shown: Vec<DisplayStep> = Vec::new();
    for value in sent_progress {
        let action = progress.receive(value);
        shown.push(action);
        if is_last(action) {
            break;
        }
    }
    assert_eq!(shown, vec![DisplayStep::Finish(100)]);
}
