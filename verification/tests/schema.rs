use little_squid_cli::cli::config::Dataset;
use little_squid_cli::export::fields::{
    create_block_field_data, create_field_data, create_log_field_data,
    create_transaction_field_data, BlockFieldData, ColumnRef, FieldData, FieldError,
    LogsFieldData, Reading, TransactionsFieldData, MAX_ROWS,
};
use little_squid_cli::text::text_byte_len;
use serde_json::Value;

fn json(text: &str) -> Value {
    serde_json::from_str(text).unwrap()
}

fn is_text(data: &FieldData) -> bool {
    matches!(data.values(), ColumnRef::Text(_))
}

fn height(data: &FieldData) -> usize {
    match data.values() {
        ColumnRef::Text(values) => values.len(),
        ColumnRef::Number(values) => values.len(),
    }
}

const BLOCK_TEXT: [&str; 8] = [
    "hash",
    "parentHash",
    "miner",
    "stateRoot",
    "transactionsRoot",
    "receiptsRoot",
    "extraData",
    "logsBloom",
];
const BLOCK_NUMBERS: [&str; 6] = [
    "number",
    "timestamp",
    "gasUsed",
    "baseFeePerGas",
    "totalDifficulty",
    "size",
];
const TRANSACTION_TEXT: [&str; 11] = [
    "id",
    "from",
    "to",
    "hash",
    "input",
    "value",
    "r",
    "s",
    "contractAddress",
    "sighash",
    "blockHash",
];
const TRANSACTION_NUMBERS: [&str; 16] = [
    "transactionIndex",
    "gas",
    "gasPrice",
    "maxFeePerGas",
    "maxPriorityFeePerGas",
    "nonce",
    "v",
    "yParity",
    "chainId",
    "gasUsed",
    "cumulativeGasUsed",
    "effectiveGasPrice",
    "type",
    "status",
    "blockNumber",
    "timestamp",
];
const LOG_TEXT: [&str; 3] = ["hash", "address", "data"];
const LOG_NUMBERS: [&str; 2] = ["logIndex", "transactionIndex"];

fn check_catalog(dataset: Dataset, text: &[&str], numbers: &[&str]) {
    for name in text {
        let data = create_field_data(name, dataset).unwrap();
        assert_eq!(data.field_name(), *name);
        assert!(is_text(&data), "{name}");
        assert_eq!(height(&data), 0);
        assert_eq!(data.value_reading(), Reading::Text);
    }
    for name in numbers {
        let data = create_field_data(name, dataset).unwrap();
        assert_eq!(data.field_name(), *name);
        assert!(!is_text(&data), "{name}");
        assert_eq!(height(&data), 0);
        assert_ne!(data.value_reading(), Reading::Text);
    }
}

#[test]
fn every_block_field_has_a_column_of_its_type() {
    check_catalog(Dataset::Blocks, &BLOCK_TEXT, &BLOCK_NUMBERS);
    for name in BLOCK_TEXT.iter().chain(BLOCK_NUMBERS.iter()) {
        assert!(matches!(
            create_field_data(name, Dataset::Blocks),
            Ok(FieldData::BlocksData(_))
        ));
    }
}

#[test]
fn every_transaction_field_has_a_column_of_its_type() {
    check_catalog(Dataset::Transactions, &TRANSACTION_TEXT, &TRANSACTION_NUMBERS);
    for name in TRANSACTION_TEXT.iter().chain(TRANSACTION_NUMBERS.iter()) {
        assert!(matches!(
            create_field_data(name, Dataset::Transactions),
            Ok(FieldData::TransactionsData(_))
        ));
    }
}

#[test]
fn every_log_field_has_a_column_of_its_type() {
    check_catalog(Dataset::Logs, &LOG_TEXT, &LOG_NUMBERS);
    for name in LOG_TEXT.iter().chain(LOG_NUMBERS.iter()) {
        assert!(matches!(
            create_field_data(name, Dataset::Logs),
            Ok(FieldData::LogsData(_))
        ));
    }
}

#[test]
fn fields_outside_the_catalog_have_no_column() {
    for dataset in [Dataset::Blocks, Dataset::Transactions, Dataset::Logs] {
        for name in ["bogus", "", "Hash", "hash ", "topics"] {
            match create_field_data(name, dataset) {
                Err(FieldError::NotFound(missing)) => assert_eq!(missing, name),
                other => panic!("{other:?}"),
            }
        }
    }
    assert!(create_field_data("from", Dataset::Blocks).is_err());
    assert!(create_field_data("miner", Dataset::Transactions).is_err());
    assert!(create_field_data("logIndex", Dataset::Transactions).is_err());
    assert!(create_field_data("number", Dataset::Logs).is_err());
}

#[test]
fn columns_are_made_of_the_variant_of_their_field() {
    assert!(matches!(
        create_block_field_data("hash"),
        Ok(FieldData::BlocksData(BlockFieldData::Hash(_)))
    ));
    assert!(matches!(
        create_block_field_data("size"),
        Ok(FieldData::BlocksData(BlockFieldData::Size(_)))
    ));
    assert!(matches!(
        create_transaction_field_data("value"),
        Ok(FieldData::TransactionsData(TransactionsFieldData::Value(_)))
    ));
    assert!(matches!(
        create_transaction_field_data("timestamp"),
        Ok(FieldData::TransactionsData(TransactionsFieldData::Timestamp(_)))
    ));
    assert!(matches!(
        create_log_field_data("logIndex"),
        Ok(FieldData::LogsData(LogsFieldData::LogIndex(_)))
    ));
    assert!(matches!(
        create_block_field_data("from"),
        Err(FieldError::NotFound(_))
    ));
}

#[test]
fn readings_follow_dataset_and_type() {
    let reading = |name: &str, dataset: Dataset| {
        create_field_data(name, dataset).unwrap().value_reading()
    };
    assert_eq!(reading("number", Dataset::Blocks), Reading::Unsigned);
    assert_eq!(reading("baseFeePerGas", Dataset::Blocks), Reading::Unsigned);
    assert_eq!(reading("timestamp", Dataset::Blocks), Reading::WholeNumber);
    assert_eq!(reading("miner", Dataset::Blocks), Reading::Text);
    assert_eq!(reading("gas", Dataset::Transactions), Reading::UnsignedOrZero);
    assert_eq!(
        reading("timestamp", Dataset::Transactions),
        Reading::UnsignedOrZero
    );
    assert_eq!(reading("to", Dataset::Transactions), Reading::Text);
    assert_eq!(reading("logIndex", Dataset::Logs), Reading::Unsigned);
    assert_eq!(reading("data", Dataset::Logs), Reading::Text);
}

#[test]
fn text_is_added_as_it_is() {
    let mut data = create_block_field_data("hash").unwrap();
    data.add_value(&json(r#""0xabc""#)).unwrap();
    data.add_value(&json(r#""""#)).unwrap();
    data.add_value(&json(r#""é\n""#)).unwrap();
    match data {
        FieldData::BlocksData(BlockFieldData::Hash(values)) => {
            assert_eq!(values, vec!["0xabc", "", "é\n"])
        }
        other => panic!("{other:?}"),
    }
}

#[test]
fn text_is_required_in_every_dataset() {
    for (name, dataset) in [
        ("hash", Dataset::Blocks),
        ("to", Dataset::Transactions),
        ("data", Dataset::Logs),
    ] {
        let mut data = create_field_data(name, dataset).unwrap();
        for value in ["null", "1", "true", "[]", "{}"] {
            assert!(matches!(
                data.add_value(&json(value)),
                Err(FieldError::Coercion)
            ));
        }
        assert_eq!(height(&data), 0);
        data.add_value(&json(r#""x""#)).unwrap();
        assert_eq!(height(&data), 1);
    }
}

#[test]
fn block_numbers_are_required() {
    let mut data = create_block_field_data("number").unwrap();
    data.add_value(&json("17")).unwrap();
    data.add_value(&json("18446744073709551615")).unwrap();
    for value in ["null", "-1", "1.5", "17.0", r#""17""#, "18446744073709551616"] {
        assert!(matches!(
            data.add_value(&json(value)),
            Err(FieldError::Coercion)
        ));
    }
    match data.values() {
        ColumnRef::Number(values) => assert_eq!(values, &vec![17, u64::MAX]),
        ColumnRef::Text(_) => panic!("text"),
    }
}

#[test]
fn transaction_numbers_fall_back_to_zero() {
    let mut data = create_transaction_field_data("maxFeePerGas").unwrap();
    for value in ["5", "null", "-1", "2.5", r#""7""#, "[]"] {
        data.add_value(&json(value)).unwrap();
    }
    match data.values() {
        ColumnRef::Number(values) => assert_eq!(values, &vec![5, 0, 0, 0, 0, 0]),
        ColumnRef::Text(_) => panic!("text"),
    }
}

#[test]
fn log_numbers_are_required() {
    let mut data = create_log_field_data("logIndex").unwrap();
    data.add_value(&json("3")).unwrap();
    assert!(matches!(
        data.add_value(&json("null")),
        Err(FieldError::Coercion)
    ));
    match data.values() {
        ColumnRef::Number(values) => assert_eq!(values, &vec![3]),
        ColumnRef::Text(_) => panic!("text"),
    }
}

#[test]
fn block_timestamp_is_read_from_any_number() {
    let mut data = create_block_field_data("timestamp").unwrap();
    for value in ["1438269988", "1438269988.0", "1438269988.9", "-5", "-0.5", "1e3"] {
        data.add_value(&json(value)).unwrap();
    }
    for value in ["null", r#""1438269988""#, "true"] {
        assert!(matches!(
            data.add_value(&json(value)),
            Err(FieldError::Coercion)
        ));
    }
    match data.values() {
        ColumnRef::Number(values) => assert_eq!(
            values,
            &vec![1438269988, 1438269988, 1438269988, 0, 0, 1000]
        ),
        ColumnRef::Text(_) => panic!("text"),
    }
}

#[test]
fn whole_numbers_that_a_float_holds_come_back_unchanged() {
    let mut data = create_block_field_data("timestamp").unwrap();
    data.add_value(&json("9007199254740992")).unwrap();
    data.add_value(&json("0")).unwrap();
    match data.values() {
        ColumnRef::Number(values) => assert_eq!(values, &vec![9007199254740992, 0]),
        ColumnRef::Text(_) => panic!("text"),
    }
}

#[test]
fn values_go_only_into_columns_of_their_dataset() {
    let mut block = create_block_field_data("number").unwrap();
    assert!(block.add_blocks_value(&json("1")).is_ok());
    assert!(matches!(
        block.add_transactions_value(&json("1")),
        Err(FieldError::UnsupportedType)
    ));
    assert!(matches!(
        block.add_logs_value(&json("1")),
        Err(FieldError::UnsupportedType)
    ));
    let mut transaction = create_transaction_field_data("nonce").unwrap();
    assert!(transaction.add_transactions_value(&json("1")).is_ok());
    assert!(matches!(
        transaction.add_blocks_value(&json("1")),
        Err(FieldError::UnsupportedType)
    ));
    let mut log = create_log_field_data("address").unwrap();
    assert!(log.add_logs_value(&json(r#""0x1""#)).is_ok());
    assert!(matches!(
        log.add_transactions_value(&json(r#""0x1""#)),
        Err(FieldError::UnsupportedType)
    ));
    assert_eq!(height(&block), 1);
    assert_eq!(height(&transaction), 1);
    assert_eq!(height(&log), 1);
}

#[test]
fn columns_of_ordinary_size_fit_a_table() {
    assert_eq!(MAX_ROWS, u32::MAX as usize);
    let mut hashes = create_block_field_data("hash").unwrap();
    assert!(hashes.values().fits());
    hashes.add_value(&json(r#""0xabc""#)).unwrap();
    hashes.add_value(&json(r#""""#)).unwrap();
    assert!(hashes.values().fits());
    let mut numbers = create_block_field_data("number").unwrap();
    numbers.add_value(&json("18446744073709551615")).unwrap();
    assert!(numbers.values().fits());
    let no_text: Vec<String> = Vec::new();
    assert!(ColumnRef::Text(&no_text).fits());
    let long = vec!["x".repeat(1 << 20)];
    assert!(ColumnRef::Text(&long).fits());
}

#[test]
fn text_is_measured_in_bytes() {
    assert_eq!(text_byte_len(""), 0);
    assert_eq!(text_byte_len("0xabc"), 5);
    assert_eq!(text_byte_len("é"), 2);
    assert_eq!(text_byte_len("€10"), 5);
    assert_eq!(text_byte_len("𝄞"), 4);
}
