use little_squid_cli::cli::config::{
    get_dataset, get_fields, get_options, get_range, get_verified_options, verify_block_fields,
    verify_log_fields, verify_transaction_fields, ConfigError, Dataset, FilterOptions,
};
use little_squid_cli::save::{chunk_file_name, WriteStep, Writer};
use little_squid_cli::text::{contains_text, decimal_text, parse_u64, split_on};
use little_squid_cli::utils::normalize_progess;

fn owned(names: &[&str]) -> Vec<String> {
    names.iter().map(|name| name.to_string()).collect()
}

#[test]
fn split_keeps_empty_pieces() {
    assert_eq!(split_on("1:10", ':'), vec!["1", "10"]);
    assert_eq!(split_on("", ':'), vec![""]);
    assert_eq!(split_on(":", ':'), vec!["", ""]);
    assert_eq!(split_on("a:", ':'), vec!["a", ""]);
    assert_eq!(split_on(":a", ':'), vec!["", "a"]);
    assert_eq!(split_on("a::b", ':'), vec!["a", "", "b"]);
    assert_eq!(split_on("abc", ':'), vec!["abc"]);
    assert_eq!(split_on("é:ü:ß", ':'), vec!["é", "ü", "ß"]);
}

#[test]
fn split_agrees_with_the_standard_library() {
    for text in ["", ":", "::", "a:b:c", "from:0xabc", "a:", ":a", "no colon", "ä:ö"] {
        let expected: Vec<String> = text.split(':').map(String::from).collect();
        assert_eq!(split_on(text, ':'), expected, "{text}");
    }
}

#[test]
fn numbers_are_read_as_the_standard_library_reads_them() {
    for text in [
        "0",
        "7",
        "+7",
        "007",
        "10000",
        "18446744073709551615",
        "18446744073709551616",
        "99999999999999999999999",
        "",
        "+",
        "-",
        "-1",
        "++1",
        "1+",
        " 1",
        "1 ",
        "12a",
        "1_000",
        "0x10",
        "١٢",
    ] {
        assert_eq!(parse_u64(text), text.parse::<u64>().ok(), "{text}");
    }
}

#[test]
fn numbers_have_their_decimal_value() {
    assert_eq!(parse_u64("0"), Some(0));
    assert_eq!(parse_u64("10000"), Some(10000));
    assert_eq!(parse_u64("+42"), Some(42));
    assert_eq!(parse_u64("18446744073709551615"), Some(u64::MAX));
    assert_eq!(parse_u64("18446744073709551616"), None);
    assert_eq!(parse_u64("184467440737095516150"), None);
}

#[test]
fn list_membership() {
    let list = owned(&["from", "to", "sighash"]);
    assert!(contains_text(&list, "to"));
    assert!(!contains_text(&list, "t"));
    assert!(!contains_text(&Vec::new(), ""));
}

#[test]
fn progress_at_the_ends_of_the_range() {
    assert_eq!(normalize_progess(1, 10, 1), 0);
    assert_eq!(normalize_progess(1, 10, 10), 100);
    assert_eq!(normalize_progess(0, u64::MAX, 0), 0);
    assert_eq!(normalize_progess(0, u64::MAX, u64::MAX), 100);
}

#[test]
fn progress_is_the_whole_percentage() {
    assert_eq!(normalize_progess(1, 10, 5), 44);
    assert_eq!(normalize_progess(0, 3, 1), 33);
    assert_eq!(normalize_progess(0, 3, 2), 66);
    assert_eq!(normalize_progess(100, 300, 299), 99);
    assert_eq!(normalize_progess(0, u64::MAX, u64::MAX - 1), 99);
    assert_eq!(normalize_progess(0, u64::MAX, u64::MAX / 2), 49);
}

#[test]
fn progress_is_clamped() {
    assert_eq!(normalize_progess(1, 10, 11), 100);
    assert_eq!(normalize_progess(1, 10, u64::MAX), 100);
    assert_eq!(normalize_progess(5, 10, 0), 0);
    assert_eq!(normalize_progess(5, 10, 4), 0);
}

#[test]
fn progress_never_falls() {
    let mut last = 0;
    for current in 0..=1200 {
        let percent = normalize_progess(100, 1100, current);
        assert!(percent >= last);
        assert!(percent <= 100);
        last = percent;
    }
    assert_eq!(last, 100);
}

#[test]
fn dataset_names() {
    assert_eq!(get_dataset(Some("blocks".to_owned())).unwrap(), Dataset::Blocks);
    assert_eq!(
        get_dataset(Some("transactions".to_owned())).unwrap(),
        Dataset::Transactions
    );
    assert_eq!(get_dataset(Some("logs".to_owned())).unwrap(), Dataset::Logs);
    assert!(matches!(
        get_dataset(Some("".to_owned())),
        Err(ConfigError::InvalidDataset)
    ));
    assert!(matches!(get_dataset(None), Err(ConfigError::NoDataset)));
}

#[test]
fn range_is_cut_at_colons() {
    assert_eq!(get_range(Some("1:10".to_owned())).unwrap(), vec!["1", "10"]);
    assert_eq!(get_range(Some("110".to_owned())).unwrap(), vec!["110"]);
    assert!(matches!(get_range(None), Err(ConfigError::NoRange)));
}

#[test]
fn every_catalogued_field_passes_verification() {
    let blocks = owned(&[
        "hash",
        "number",
        "parentHash",
        "timestamp",
        "miner",
        "stateRoot",
        "transactionsRoot",
        "receiptsRoot",
        "gasUsed",
        "extraData",
        "baseFeePerGas",
        "logsBloom",
        "totalDifficulty",
        "size",
    ]);
    assert_eq!(verify_block_fields(blocks.clone()).unwrap(), blocks);
    let transactions = owned(&[
        "id",
        "transactionIndex",
        "from",
        "to",
        "hash",
        "gas",
        "gasPrice",
        "maxFeePerGas",
        "maxPriorityFeePerGas",
        "input",
        "nonce",
        "value",
        "v",
        "r",
        "s",
        "yParity",
        "chainId",
        "gasUsed",
        "cumulativeGasUsed",
        "effectiveGasPrice",
        "contractAddress",
        "type",
        "status",
        "sighash",
        "blockHash",
        "blockNumber",
        "timestamp",
    ]);
    assert_eq!(
        verify_transaction_fields(transactions.clone()).unwrap(),
        transactions
    );
    let logs = owned(&["hash", "logIndex", "transactionIndex", "address", "data"]);
    assert_eq!(verify_log_fields(logs.clone()).unwrap(), logs);
}

#[test]
fn verification_names_the_first_unknown_field() {
    match verify_block_fields(owned(&["hash", "Hash", "from"])) {
        Err(ConfigError::InvalidField(name)) => assert_eq!(name, "Hash"),
        other => panic!("{other:?}"),
    }
    match verify_transaction_fields(owned(&["miner"])) {
        Err(ConfigError::InvalidField(name)) => assert_eq!(name, "miner"),
        other => panic!("{other:?}"),
    }
    match verify_log_fields(owned(&["data", "topics"])) {
        Err(ConfigError::InvalidField(name)) => assert_eq!(name, "topics"),
        other => panic!("{other:?}"),
    }
    assert_eq!(verify_log_fields(Vec::new()).unwrap(), Vec::<String>::new());
}

#[test]
fn requested_fields_keep_their_order() {
    let fields = get_fields(Some(owned(&["size", "hash", "size"])), Dataset::Blocks).unwrap();
    assert_eq!(fields, vec!["size", "hash", "size"]);
    let none = get_fields(Some(Vec::new()), Dataset::Blocks).unwrap();
    assert!(none.is_empty());
}

#[test]
fn accepted_option_keys() {
    assert_eq!(
        get_verified_options(Dataset::Blocks).unwrap(),
        Vec::<String>::new()
    );
    assert_eq!(
        get_verified_options(Dataset::Transactions).unwrap(),
        vec!["from", "to", "sighash"]
    );
    assert_eq!(
        get_verified_options(Dataset::Logs).unwrap(),
        vec!["address", "topic0", "topic1", "topic2", "topic3"]
    );
}

#[test]
fn options_without_entries() {
    assert!(get_options(None, Dataset::Transactions).unwrap().is_empty());
    assert!(get_options(Some(Vec::new()), Dataset::Transactions)
        .unwrap()
        .is_empty());
    assert!(get_options(Some(owned(&["", ""])), Dataset::Logs)
        .unwrap()
        .is_empty());
    assert!(get_options(Some(owned(&["from"])), Dataset::Blocks)
        .unwrap()
        .is_empty());
}

#[test]
fn filter_options_behave_as_a_mapping() {
    let mut options = FilterOptions::new();
    assert!(options.is_empty());
    assert_eq!(options.get("from"), None);
    options.insert("from".to_owned(), owned(&["0x1"]));
    options.insert("to".to_owned(), owned(&["0x2", "0x3"]));
    options.insert("from".to_owned(), owned(&["0x4"]));
    assert_eq!(options.get("from"), Some(&owned(&["0x4"])));
    assert_eq!(options.get("to"), Some(&owned(&["0x2", "0x3"])));
    assert_eq!(options.get("sighash"), None);
    assert!(!options.is_empty());
}

#[test]
fn numbers_are_written_in_decimal() {
    assert_eq!(decimal_text(0), "0");
    assert_eq!(decimal_text(7), "7");
    assert_eq!(decimal_text(10), "10");
    assert_eq!(decimal_text(1005), "1005");
    assert_eq!(decimal_text(u64::MAX), "18446744073709551615");
}

#[test]
fn written_numbers_read_back() {
    for number in [0, 1, 9, 10, 11, 99, 100, 12345, 1 << 53, u64::MAX - 1, u64::MAX] {
        let text = decimal_text(number);
        assert_eq!(text, number.to_string());
        assert_eq!(parse_u64(&text), Some(number));
    }
}

#[test]
fn files_are_named_by_their_number() {
    assert_eq!(chunk_file_name(0), "my_dataframe_0.parquet");
    assert_eq!(chunk_file_name(1), "my_dataframe_1.parquet");
    assert_eq!(chunk_file_name(120), "my_dataframe_120.parquet");
}

#[test]
fn writer_numbers_the_chunks_and_stops_at_the_empty_one() {
    let chunk = vec![serde_json::Value::Null];
    let mut writer = Writer::new();
    assert_eq!(writer.receive(&chunk), WriteStep::Save(0));
    assert_eq!(writer.receive(&chunk), WriteStep::Save(1));
    assert_eq!(writer.receive(&Vec::new()), WriteStep::Stop);
    assert_eq!(writer.counter, 2);
    assert_eq!(writer.receive(&chunk), WriteStep::Save(2));
}

#[test]
fn pieces_joined_by_the_separator_are_the_text() {
    for text in ["", ":", "1:10", "a::b:", ":::", "from:0xabc:def", "plain"] {
        let pieces = split_on(text, ':');
        assert!(!pieces.is_empty());
        assert!(pieces.iter().all(|piece| !piece.contains(':')));
        assert_eq!(pieces.join(":"), text);
    }
}
