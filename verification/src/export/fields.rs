//! The field schema and the typed columns built from it.
//!
//! Each dataset has a catalog of fields, and each field holds text or
//! unsigned numbers. A [`FieldData`] is the column of one field of one dataset
//! while it is being filled; its variant fixes the field and with it the type
//! of the values.

use crate::cli::config::Dataset;
use crate::json::{
    json_as_text, json_as_unsigned, json_as_whole_number, json_of, whole_number, Json, JsonNumber,
};
use crate::text::{byte_len, text_byte_len, text_eq, texts};
use serde_json::Value;
use vstd::prelude::*;
use vstd::string::StringExecFns;

verus! {

/// The scalar type of a column.
#[derive(Debug, PartialEq, Eq, Clone, Copy, Structural)]
pub enum ColumnKind {
    Text,
    Number,
}

/// How the value of a field is taken out of a raw JSON value.
#[derive(Debug, PartialEq, Eq, Clone, Copy, Structural)]
pub enum Reading {
    /// A JSON string; anything else is an error.
    Text,
    /// An unsigned whole number; anything else is an error.
    Unsigned,
    /// An unsigned whole number, and zero in place of anything else.
    UnsignedOrZero,
    /// Any JSON number, cut to its whole part; anything else is an error.
    WholeNumber,
}

/// Why a column could not be made or filled.
#[derive(Debug)]
pub enum FieldError {
    /// The dataset has no field of this name.
    NotFound(String),
    /// The column belongs to another dataset than the one asked for.
    UnsupportedType,
    /// The raw value cannot be read as the column's type, and the field has
    /// no default.
    Coercion,
}

/// The largest row index of a table column. A column has fewer rows than
/// this, and a text value no more bytes.
pub const MAX_ROWS: usize = 0xffff_ffff;

/// The values of a column, borrowed from it.
#[derive(Debug, Clone, Copy)]
pub enum ColumnRef<'a> {
    Text(&'a Vec<String>),
    Number(&'a Vec<u64>),
}

impl<'a> ColumnRef<'a> {
    /// Whether these are the values of `column`.
    pub open spec fn holds(self, column: ColumnData) -> bool {
        match (self, column) {
            (ColumnRef::Text(values), ColumnData::Text(held)) => texts(values@) == held,
            (ColumnRef::Number(values), ColumnData::Number(held)) => values@ == held,
            _ => false,
        }
    }

    /// The values as a mathematical value.
    pub open spec fn data(self) -> ColumnData {
        match self {
            ColumnRef::Text(values) => ColumnData::Text(texts(values@)),
            ColumnRef::Number(values) => ColumnData::Number(values@),
        }
    }

    /// Whether a table column can hold these values.
    pub fn fits(&self) -> (fitting: bool)
        ensures
            fitting == self.data().fits(),
    {
        match self {
            ColumnRef::Number(values) => values.len() < MAX_ROWS,
            ColumnRef::Text(values) => {
                if values.len() >= MAX_ROWS {
                    return false;
                }
                let mut at: usize = 0;
                while at < values.len()
                    invariant
                        at <= values@.len(),
                        values@.len() < MAX_ROWS,
                        self.data() == ColumnData::Text(texts(values@)),
                        forall|i: int|
                            0 <= i < at ==> byte_len(#[trigger] texts(values@)[i]) <= MAX_ROWS,
                    decreases values@.len() - at,
                {
                    assert(texts(values@)[at as int] == values@[at as int]@);
                    if text_byte_len(values[at].as_str()) > MAX_ROWS {
                        return false;
                    }
                    at = at + 1;
                }
                true
            },
        }
    }
}

/// One value of a column, as a mathematical value.
pub enum Cell {
    Text(Seq<char>),
    Number(u64),
}

/// The values of a column, as a mathematical value.
pub enum ColumnData {
    Text(Seq<Seq<char>>),
    Number(Seq<u64>),
}

impl ColumnData {
    /// The empty column of a kind.
    pub open spec fn empty(kind: ColumnKind) -> ColumnData {
        match kind {
            ColumnKind::Text => ColumnData::Text(Seq::empty()),
            ColumnKind::Number => ColumnData::Number(Seq::empty()),
        }
    }

    pub open spec fn kind(self) -> ColumnKind {
        match self {
            ColumnData::Text(_) => ColumnKind::Text,
            ColumnData::Number(_) => ColumnKind::Number,
        }
    }

    pub open spec fn len(self) -> nat {
        match self {
            ColumnData::Text(values) => values.len(),
            ColumnData::Number(values) => values.len(),
        }
    }

    /// Whether a table column can hold these values: there are fewer of them
    /// than the largest row index, and no text is longer in bytes than that
    /// index.
    pub open spec fn fits(self) -> bool {
        match self {
            ColumnData::Text(values) => values.len() < MAX_ROWS && forall|i: int|
                0 <= i < values.len() ==> byte_len(#[trigger] values[i]) <= MAX_ROWS,
            ColumnData::Number(values) => values.len() < MAX_ROWS,
        }
    }

    /// Whether a cell has the type of this column.
    pub open spec fn admits(self, cell: Cell) -> bool {
        match (self, cell) {
            (ColumnData::Text(_), Cell::Text(_)) => true,
            (ColumnData::Number(_), Cell::Number(_)) => true,
            _ => false,
        }
    }

    /// The column with one more cell at its end. A cell of the other type
    /// leaves the column as it is.
    pub open spec fn with(self, cell: Cell) -> ColumnData {
        match (self, cell) {
            (ColumnData::Text(values), Cell::Text(text)) => ColumnData::Text(values.push(text)),
            (ColumnData::Number(values), Cell::Number(number)) => ColumnData::Number(
                values.push(number),
            ),
            _ => self,
        }
    }

    /// The column followed by all the cells of `cells`, in order.
    pub open spec fn with_all(self, cells: Seq<Cell>) -> ColumnData
        decreases cells.len(),
    {
        if cells.len() == 0 {
            self
        } else {
            self.with_all(cells.drop_last()).with(cells.last())
        }
    }
}

/// How a column of a dataset reads a raw value. Text is read as text. A
/// number of a transaction falls back to zero, one of a block or of a log
/// entry is required, and the timestamp of a block is read from any JSON
/// number.
pub open spec fn reading_of(dataset: Dataset, name: Seq<char>, kind: ColumnKind) -> Reading {
    match kind {
        ColumnKind::Text => Reading::Text,
        ColumnKind::Number => match dataset {
            Dataset::Blocks => if name == "timestamp"@ {
                Reading::WholeNumber
            } else {
                Reading::Unsigned
            },
            Dataset::Transactions => Reading::UnsignedOrZero,
            Dataset::Logs => Reading::Unsigned,
        },
    }
}

/// The cell that a reading takes out of a raw value, or `None` where the
/// value cannot be read and the reading has no default.
pub open spec fn read_cell(reading: Reading, value: Json) -> Option<Cell> {
    match reading {
        Reading::Text => match value {
            Json::Text(text) => Some(Cell::Text(text)),
            _ => None,
        },
        Reading::Unsigned => match value {
            Json::Number(JsonNumber::Unsigned(number)) => Some(Cell::Number(number)),
            _ => None,
        },
        Reading::UnsignedOrZero => match value {
            Json::Number(JsonNumber::Unsigned(number)) => Some(Cell::Number(number)),
            _ => Some(Cell::Number(0)),
        },
        Reading::WholeNumber => match whole_number(value) {
            Some(number) => Some(Cell::Number(number)),
            None => None,
        },
    }
}

/// The column of one field of the Blocks dataset.
#[derive(Debug)]
pub enum BlockFieldData {
    Hash(Vec<String>),
    Number(Vec<u64>),
    ParentHash(Vec<String>),
    Timestamp(Vec<u64>),
    Miner(Vec<String>),
    StateRoot(Vec<String>),
    TransactionsRoot(Vec<String>),
    ReceiptsRoot(Vec<String>),
    GasUsed(Vec<u64>),
    ExtraData(Vec<String>),
    BaseFeePerGas(Vec<u64>),
    LogsBloom(Vec<String>),
    TotalDifficulty(Vec<u64>),
    Size(Vec<u64>),
}

/// The column of one field of the Transactions dataset.
#[derive(Debug)]
pub enum TransactionsFieldData {
    Id(Vec<String>),
    TransactionIndex(Vec<u64>),
    From(Vec<String>),
    To(Vec<String>),
    Hash(Vec<String>),
    Gas(Vec<u64>),
    GasPrice(Vec<u64>),
    MaxFeePerGas(Vec<u64>),
    MaxPriorityFeePerGas(Vec<u64>),
    Input(Vec<String>),
    Nonce(Vec<u64>),
    Value(Vec<String>),
    V(Vec<u64>),
    R(Vec<String>),
    S(Vec<String>),
    YParity(Vec<u64>),
    ChainId(Vec<u64>),
    GasUsed(Vec<u64>),
    CumulativeGasUsed(Vec<u64>),
    EffectiveGasPrice(Vec<u64>),
    ContractAddress(Vec<String>),
    Type(Vec<u64>),
    Status(Vec<u64>),
    Sighash(Vec<String>),
    BlockHash(Vec<String>),
    BlockNumber(Vec<u64>),
    Timestamp(Vec<u64>),
}

/// The column of one field of the Logs dataset.
#[derive(Debug)]
pub enum LogsFieldData {
    Hash(Vec<String>),
    LogIndex(Vec<u64>),
    TransactionIndex(Vec<u64>),
    Address(Vec<String>),
    Data(Vec<String>),
}

/// The column of one field, of whichever dataset.
#[derive(Debug)]
pub enum FieldData {
    BlocksData(BlockFieldData),
    TransactionsData(TransactionsFieldData),
    LogsData(LogsFieldData),
}

/// The fields of a block header, in the order of the catalog.
pub open spec fn block_fields() -> Seq<Seq<char>> {
    seq![
        "hash"@,
        "number"@,
        "parentHash"@,
        "timestamp"@,
        "miner"@,
        "stateRoot"@,
        "transactionsRoot"@,
        "receiptsRoot"@,
        "gasUsed"@,
        "extraData"@,
        "baseFeePerGas"@,
        "logsBloom"@,
        "totalDifficulty"@,
        "size"@,
    ]
}

/// The declared type of a field of a block header, or `None` for a name that the
/// catalog does not hold.
pub open spec fn block_field_kind(name: Seq<char>) -> Option<ColumnKind> {
    if name == "hash"@ {
        Some(ColumnKind::Text)
    } else if name == "number"@ {
        Some(ColumnKind::Number)
    } else if name == "parentHash"@ {
        Some(ColumnKind::Text)
    } else if name == "timestamp"@ {
        Some(ColumnKind::Number)
    } else if name == "miner"@ {
        Some(ColumnKind::Text)
    } else if name == "stateRoot"@ {
        Some(ColumnKind::Text)
    } else if name == "transactionsRoot"@ {
        Some(ColumnKind::Text)
    } else if name == "receiptsRoot"@ {
        Some(ColumnKind::Text)
    } else if name == "gasUsed"@ {
        Some(ColumnKind::Number)
    } else if name == "extraData"@ {
        Some(ColumnKind::Text)
    } else if name == "baseFeePerGas"@ {
        Some(ColumnKind::Number)
    } else if name == "logsBloom"@ {
        Some(ColumnKind::Text)
    } else if name == "totalDifficulty"@ {
        Some(ColumnKind::Number)
    } else if name == "size"@ {
        Some(ColumnKind::Number)
    } else {
        None
    }
}

/// The fields of a transaction, in the order of the catalog.
pub open spec fn transaction_fields() -> Seq<Seq<char>> {
    seq![
        "id"@,
        "transactionIndex"@,
        "from"@,
        "to"@,
        "hash"@,
        "gas"@,
        "gasPrice"@,
        "maxFeePerGas"@,
        "maxPriorityFeePerGas"@,
        "input"@,
        "nonce"@,
        "value"@,
        "v"@,
        "r"@,
        "s"@,
        "yParity"@,
        "chainId"@,
        "gasUsed"@,
        "cumulativeGasUsed"@,
        "effectiveGasPrice"@,
        "contractAddress"@,
        "type"@,
        "status"@,
        "sighash"@,
        "blockHash"@,
        "blockNumber"@,
        "timestamp"@,
    ]
}

/// The declared type of a field of a transaction, or `None` for a name that the
/// catalog does not hold.
pub open spec fn transaction_field_kind(name: Seq<char>) -> Option<ColumnKind> {
    if name == "id"@ {
        Some(ColumnKind::Text)
    } else if name == "transactionIndex"@ {
        Some(ColumnKind::Number)
    } else if name == "from"@ {
        Some(ColumnKind::Text)
    } else if name == "to"@ {
        Some(ColumnKind::Text)
    } else if name == "hash"@ {
        Some(ColumnKind::Text)
    } else if name == "gas"@ {
        Some(ColumnKind::Number)
    } else if name == "gasPrice"@ {
        Some(ColumnKind::Number)
    } else if name == "maxFeePerGas"@ {
        Some(ColumnKind::Number)
    } else if name == "maxPriorityFeePerGas"@ {
        Some(ColumnKind::Number)
    } else if name == "input"@ {
        Some(ColumnKind::Text)
    } else if name == "nonce"@ {
        Some(ColumnKind::Number)
    } else if name == "value"@ {
        Some(ColumnKind::Text)
    } else if name == "v"@ {
        Some(ColumnKind::Number)
    } else if name == "r"@ {
        Some(ColumnKind::Text)
    } else if name == "s"@ {
        Some(ColumnKind::Text)
    } else if name == "yParity"@ {
        Some(ColumnKind::Number)
    } else if name == "chainId"@ {
        Some(ColumnKind::Number)
    } else if name == "gasUsed"@ {
        Some(ColumnKind::Number)
    } else if name == "cumulativeGasUsed"@ {
        Some(ColumnKind::Number)
    } else if name == "effectiveGasPrice"@ {
        Some(ColumnKind::Number)
    } else if name == "contractAddress"@ {
        Some(ColumnKind::Text)
    } else if name == "type"@ {
        Some(ColumnKind::Number)
    } else if name == "status"@ {
        Some(ColumnKind::Number)
    } else if name == "sighash"@ {
        Some(ColumnKind::Text)
    } else if name == "blockHash"@ {
        Some(ColumnKind::Text)
    } else if name == "blockNumber"@ {
        Some(ColumnKind::Number)
    } else if name == "timestamp"@ {
        Some(ColumnKind::Number)
    } else {
        None
    }
}

/// The fields of a log entry, in the order of the catalog.
pub open spec fn log_fields() -> Seq<Seq<char>> {
    seq![
        "hash"@,
        "logIndex"@,
        "transactionIndex"@,
        "address"@,
        "data"@,
    ]
}

/// The declared type of a field of a log entry, or `None` for a name that the
/// catalog does not hold.
pub open spec fn log_field_kind(name: Seq<char>) -> Option<ColumnKind> {
    if name == "hash"@ {
        Some(ColumnKind::Text)
    } else if name == "logIndex"@ {
        Some(ColumnKind::Number)
    } else if name == "transactionIndex"@ {
        Some(ColumnKind::Number)
    } else if name == "address"@ {
        Some(ColumnKind::Text)
    } else if name == "data"@ {
        Some(ColumnKind::Text)
    } else {
        None
    }
}

/// The catalog of a dataset.
pub open spec fn catalog(dataset: Dataset) -> Seq<Seq<char>> {
    match dataset {
        Dataset::Blocks => block_fields(),
        Dataset::Transactions => transaction_fields(),
        Dataset::Logs => log_fields(),
    }
}

/// The declared type of a field of a dataset, or `None` for a name that the
/// catalog of the dataset does not hold.
pub open spec fn declared_kind(dataset: Dataset, name: Seq<char>) -> Option<ColumnKind> {
    match dataset {
        Dataset::Blocks => block_field_kind(name),
        Dataset::Transactions => transaction_field_kind(name),
        Dataset::Logs => log_field_kind(name),
    }
}

/// Whether `at` is the place of the first name in `fields` that the catalog
/// of the dataset does not hold.
pub open spec fn is_first_unknown(fields: Seq<Seq<char>>, dataset: Dataset, at: int) -> bool {
    &&& 0 <= at < fields.len()
    &&& !catalog(dataset).contains(fields[at])
    &&& forall|before: int| 0 <= before < at ==> catalog(dataset).contains(#[trigger] fields[before])
}

/// The first name in `fields` that the catalog of the dataset does not hold,
/// or `None` where it holds them all.
pub open spec fn first_unknown(fields: Seq<Seq<char>>, dataset: Dataset) -> Option<Seq<char>> {
    if exists|at: int| is_first_unknown(fields, dataset, at) {
        Some(fields[choose|at: int| is_first_unknown(fields, dataset, at)])
    } else {
        None
    }
}

/// There is one first unknown name at most.
pub proof fn lemma_first_unknown_at(fields: Seq<Seq<char>>, dataset: Dataset, at: int)
    requires
        is_first_unknown(fields, dataset, at),
    ensures
        first_unknown(fields, dataset) == Some(fields[at]),
{
    let chosen = choose|chosen: int| is_first_unknown(fields, dataset, chosen);
    if chosen < at {
        assert(catalog(dataset).contains(fields[chosen]));
    } else if chosen > at {
        assert(catalog(dataset).contains(fields[at]));
    }
}

/// Where the catalog holds every name, none is unknown.
pub proof fn lemma_none_unknown(fields: Seq<Seq<char>>, dataset: Dataset)
    requires
        forall|at: int| 0 <= at < fields.len() ==> catalog(dataset).contains(#[trigger] fields[at]),
    ensures
        first_unknown(fields, dataset) is None,
{
    assert forall|at: int| !is_first_unknown(fields, dataset, at) by {
        if 0 <= at < fields.len() {
            assert(catalog(dataset).contains(fields[at]));
        }
    }
}


impl BlockFieldData {
    /// The name of the field that this column belongs to.
    pub open spec fn name(&self) -> Seq<char> {
        match self {
            Self::Hash(_) => "hash"@,
            Self::Number(_) => "number"@,
            Self::ParentHash(_) => "parentHash"@,
            Self::Timestamp(_) => "timestamp"@,
            Self::Miner(_) => "miner"@,
            Self::StateRoot(_) => "stateRoot"@,
            Self::TransactionsRoot(_) => "transactionsRoot"@,
            Self::ReceiptsRoot(_) => "receiptsRoot"@,
            Self::GasUsed(_) => "gasUsed"@,
            Self::ExtraData(_) => "extraData"@,
            Self::BaseFeePerGas(_) => "baseFeePerGas"@,
            Self::LogsBloom(_) => "logsBloom"@,
            Self::TotalDifficulty(_) => "totalDifficulty"@,
            Self::Size(_) => "size"@,
        }
    }

    /// The values gathered so far.
    pub open spec fn column(&self) -> ColumnData {
        match self {
            Self::Hash(values) => ColumnData::Text(texts(values@)),
            Self::Number(values) => ColumnData::Number(values@),
            Self::ParentHash(values) => ColumnData::Text(texts(values@)),
            Self::Timestamp(values) => ColumnData::Number(values@),
            Self::Miner(values) => ColumnData::Text(texts(values@)),
            Self::StateRoot(values) => ColumnData::Text(texts(values@)),
            Self::TransactionsRoot(values) => ColumnData::Text(texts(values@)),
            Self::ReceiptsRoot(values) => ColumnData::Text(texts(values@)),
            Self::GasUsed(values) => ColumnData::Number(values@),
            Self::ExtraData(values) => ColumnData::Text(texts(values@)),
            Self::BaseFeePerGas(values) => ColumnData::Number(values@),
            Self::LogsBloom(values) => ColumnData::Text(texts(values@)),
            Self::TotalDifficulty(values) => ColumnData::Number(values@),
            Self::Size(values) => ColumnData::Number(values@),
        }
    }

    /// The name of the field that this column belongs to.
    pub fn field_name(&self) -> (name: &'static str)
        ensures
            name@ == self.name(),
    {
        match self {
            Self::Hash(_) => "hash",
            Self::Number(_) => "number",
            Self::ParentHash(_) => "parentHash",
            Self::Timestamp(_) => "timestamp",
            Self::Miner(_) => "miner",
            Self::StateRoot(_) => "stateRoot",
            Self::TransactionsRoot(_) => "transactionsRoot",
            Self::ReceiptsRoot(_) => "receiptsRoot",
            Self::GasUsed(_) => "gasUsed",
            Self::ExtraData(_) => "extraData",
            Self::BaseFeePerGas(_) => "baseFeePerGas",
            Self::LogsBloom(_) => "logsBloom",
            Self::TotalDifficulty(_) => "totalDifficulty",
            Self::Size(_) => "size",
        }
    }

    /// The values gathered so far.
    pub fn values(&self) -> (values: ColumnRef<'_>)
        ensures
            values.holds(self.column()),
    {
        match self {
            Self::Hash(values) => ColumnRef::Text(values),
            Self::Number(values) => ColumnRef::Number(values),
            Self::ParentHash(values) => ColumnRef::Text(values),
            Self::Timestamp(values) => ColumnRef::Number(values),
            Self::Miner(values) => ColumnRef::Text(values),
            Self::StateRoot(values) => ColumnRef::Text(values),
            Self::TransactionsRoot(values) => ColumnRef::Text(values),
            Self::ReceiptsRoot(values) => ColumnRef::Text(values),
            Self::GasUsed(values) => ColumnRef::Number(values),
            Self::ExtraData(values) => ColumnRef::Text(values),
            Self::BaseFeePerGas(values) => ColumnRef::Number(values),
            Self::LogsBloom(values) => ColumnRef::Text(values),
            Self::TotalDifficulty(values) => ColumnRef::Number(values),
            Self::Size(values) => ColumnRef::Number(values),
        }
    }

    fn push_text(&mut self, text: String)
        requires
            old(self).column() is Text,
        ensures
            final(self).name() == old(self).name(),
            final(self).column() == old(self).column().with(Cell::Text(text@)),
    {
        match self {
            Self::Hash(values) => push_text_value(values, text),
            Self::ParentHash(values) => push_text_value(values, text),
            Self::Miner(values) => push_text_value(values, text),
            Self::StateRoot(values) => push_text_value(values, text),
            Self::TransactionsRoot(values) => push_text_value(values, text),
            Self::ReceiptsRoot(values) => push_text_value(values, text),
            Self::ExtraData(values) => push_text_value(values, text),
            Self::LogsBloom(values) => push_text_value(values, text),
            _ => {},
        }
    }

    fn push_number(&mut self, number: u64)
        requires
            old(self).column() is Number,
        ensures
            final(self).name() == old(self).name(),
            final(self).column() == old(self).column().with(Cell::Number(number)),
    {
        match self {
            Self::Number(values) => values.push(number),
            Self::Timestamp(values) => values.push(number),
            Self::GasUsed(values) => values.push(number),
            Self::BaseFeePerGas(values) => values.push(number),
            Self::TotalDifficulty(values) => values.push(number),
            Self::Size(values) => values.push(number),
            _ => {},
        }
    }
}

impl TransactionsFieldData {
    /// The name of the field that this column belongs to.
    pub open spec fn name(&self) -> Seq<char> {
        match self {
            Self::Id(_) => "id"@,
            Self::TransactionIndex(_) => "transactionIndex"@,
            Self::From(_) => "from"@,
            Self::To(_) => "to"@,
            Self::Hash(_) => "hash"@,
            Self::Gas(_) => "gas"@,
            Self::GasPrice(_) => "gasPrice"@,
            Self::MaxFeePerGas(_) => "maxFeePerGas"@,
            Self::MaxPriorityFeePerGas(_) => "maxPriorityFeePerGas"@,
            Self::Input(_) => "input"@,
            Self::Nonce(_) => "nonce"@,
            Self::Value(_) => "value"@,
            Self::V(_) => "v"@,
            Self::R(_) => "r"@,
            Self::S(_) => "s"@,
            Self::YParity(_) => "yParity"@,
            Self::ChainId(_) => "chainId"@,
            Self::GasUsed(_) => "gasUsed"@,
            Self::CumulativeGasUsed(_) => "cumulativeGasUsed"@,
            Self::EffectiveGasPrice(_) => "effectiveGasPrice"@,
            Self::ContractAddress(_) => "contractAddress"@,
            Self::Type(_) => "type"@,
            Self::Status(_) => "status"@,
            Self::Sighash(_) => "sighash"@,
            Self::BlockHash(_) => "blockHash"@,
            Self::BlockNumber(_) => "blockNumber"@,
            Self::Timestamp(_) => "timestamp"@,
        }
    }

    /// The values gathered so far.
    pub open spec fn column(&self) -> ColumnData {
        match self {
            Self::Id(values) => ColumnData::Text(texts(values@)),
            Self::TransactionIndex(values) => ColumnData::Number(values@),
            Self::From(values) => ColumnData::Text(texts(values@)),
            Self::To(values) => ColumnData::Text(texts(values@)),
            Self::Hash(values) => ColumnData::Text(texts(values@)),
            Self::Gas(values) => ColumnData::Number(values@),
            Self::GasPrice(values) => ColumnData::Number(values@),
            Self::MaxFeePerGas(values) => ColumnData::Number(values@),
            Self::MaxPriorityFeePerGas(values) => ColumnData::Number(values@),
            Self::Input(values) => ColumnData::Text(texts(values@)),
            Self::Nonce(values) => ColumnData::Number(values@),
            Self::Value(values) => ColumnData::Text(texts(values@)),
            Self::V(values) => ColumnData::Number(values@),
            Self::R(values) => ColumnData::Text(texts(values@)),
            Self::S(values) => ColumnData::Text(texts(values@)),
            Self::YParity(values) => ColumnData::Number(values@),
            Self::ChainId(values) => ColumnData::Number(values@),
            Self::GasUsed(values) => ColumnData::Number(values@),
            Self::CumulativeGasUsed(values) => ColumnData::Number(values@),
            Self::EffectiveGasPrice(values) => ColumnData::Number(values@),
            Self::ContractAddress(values) => ColumnData::Text(texts(values@)),
            Self::Type(values) => ColumnData::Number(values@),
            Self::Status(values) => ColumnData::Number(values@),
            Self::Sighash(values) => ColumnData::Text(texts(values@)),
            Self::BlockHash(values) => ColumnData::Text(texts(values@)),
            Self::BlockNumber(values) => ColumnData::Number(values@),
            Self::Timestamp(values) => ColumnData::Number(values@),
        }
    }

    /// The name of the field that this column belongs to.
    pub fn field_name(&self) -> (name: &'static str)
        ensures
            name@ == self.name(),
    {
        match self {
            Self::Id(_) => "id",
            Self::TransactionIndex(_) => "transactionIndex",
            Self::From(_) => "from",
            Self::To(_) => "to",
            Self::Hash(_) => "hash",
            Self::Gas(_) => "gas",
            Self::GasPrice(_) => "gasPrice",
            Self::MaxFeePerGas(_) => "maxFeePerGas",
            Self::MaxPriorityFeePerGas(_) => "maxPriorityFeePerGas",
            Self::Input(_) => "input",
            Self::Nonce(_) => "nonce",
            Self::Value(_) => "value",
            Self::V(_) => "v",
            Self::R(_) => "r",
            Self::S(_) => "s",
            Self::YParity(_) => "yParity",
            Self::ChainId(_) => "chainId",
            Self::GasUsed(_) => "gasUsed",
            Self::CumulativeGasUsed(_) => "cumulativeGasUsed",
            Self::EffectiveGasPrice(_) => "effectiveGasPrice",
            Self::ContractAddress(_) => "contractAddress",
            Self::Type(_) => "type",
            Self::Status(_) => "status",
            Self::Sighash(_) => "sighash",
            Self::BlockHash(_) => "blockHash",
            Self::BlockNumber(_) => "blockNumber",
            Self::Timestamp(_) => "timestamp",
        }
    }

    /// The values gathered so far.
    pub fn values(&self) -> (values: ColumnRef<'_>)
        ensures
            values.holds(self.column()),
    {
        match self {
            Self::Id(values) => ColumnRef::Text(values),
            Self::TransactionIndex(values) => ColumnRef::Number(values),
            Self::From(values) => ColumnRef::Text(values),
            Self::To(values) => ColumnRef::Text(values),
            Self::Hash(values) => ColumnRef::Text(values),
            Self::Gas(values) => ColumnRef::Number(values),
            Self::GasPrice(values) => ColumnRef::Number(values),
            Self::MaxFeePerGas(values) => ColumnRef::Number(values),
            Self::MaxPriorityFeePerGas(values) => ColumnRef::Number(values),
            Self::Input(values) => ColumnRef::Text(values),
            Self::Nonce(values) => ColumnRef::Number(values),
            Self::Value(values) => ColumnRef::Text(values),
            Self::V(values) => ColumnRef::Number(values),
            Self::R(values) => ColumnRef::Text(values),
            Self::S(values) => ColumnRef::Text(values),
            Self::YParity(values) => ColumnRef::Number(values),
            Self::ChainId(values) => ColumnRef::Number(values),
            Self::GasUsed(values) => ColumnRef::Number(values),
            Self::CumulativeGasUsed(values) => ColumnRef::Number(values),
            Self::EffectiveGasPrice(values) => ColumnRef::Number(values),
            Self::ContractAddress(values) => ColumnRef::Text(values),
            Self::Type(values) => ColumnRef::Number(values),
            Self::Status(values) => ColumnRef::Number(values),
            Self::Sighash(values) => ColumnRef::Text(values),
            Self::BlockHash(values) => ColumnRef::Text(values),
            Self::BlockNumber(values) => ColumnRef::Number(values),
            Self::Timestamp(values) => ColumnRef::Number(values),
        }
    }

    fn push_text(&mut self, text: String)
        requires
            old(self).column() is Text,
        ensures
            final(self).name() == old(self).name(),
            final(self).column() == old(self).column().with(Cell::Text(text@)),
    {
        match self {
            Self::Id(values) => push_text_value(values, text),
            Self::From(values) => push_text_value(values, text),
            Self::To(values) => push_text_value(values, text),
            Self::Hash(values) => push_text_value(values, text),
            Self::Input(values) => push_text_value(values, text),
            Self::Value(values) => push_text_value(values, text),
            Self::R(values) => push_text_value(values, text),
            Self::S(values) => push_text_value(values, text),
            Self::ContractAddress(values) => push_text_value(values, text),
            Self::Sighash(values) => push_text_value(values, text),
            Self::BlockHash(values) => push_text_value(values, text),
            _ => {},
        }
    }

    fn push_number(&mut self, number: u64)
        requires
            old(self).column() is Number,
        ensures
            final(self).name() == old(self).name(),
            final(self).column() == old(self).column().with(Cell::Number(number)),
    {
        match self {
            Self::TransactionIndex(values) => values.push(number),
            Self::Gas(values) => values.push(number),
            Self::GasPrice(values) => values.push(number),
            Self::MaxFeePerGas(values) => values.push(number),
            Self::MaxPriorityFeePerGas(values) => values.push(number),
            Self::Nonce(values) => values.push(number),
            Self::V(values) => values.push(number),
            Self::YParity(values) => values.push(number),
            Self::ChainId(values) => values.push(number),
            Self::GasUsed(values) => values.push(number),
            Self::CumulativeGasUsed(values) => values.push(number),
            Self::EffectiveGasPrice(values) => values.push(number),
            Self::Type(values) => values.push(number),
            Self::Status(values) => values.push(number),
            Self::BlockNumber(values) => values.push(number),
            Self::Timestamp(values) => values.push(number),
            _ => {},
        }
    }
}

impl LogsFieldData {
    /// The name of the field that this column belongs to.
    pub open spec fn name(&self) -> Seq<char> {
        match self {
            Self::Hash(_) => "hash"@,
            Self::LogIndex(_) => "logIndex"@,
            Self::TransactionIndex(_) => "transactionIndex"@,
            Self::Address(_) => "address"@,
            Self::Data(_) => "data"@,
        }
    }

    /// The values gathered so far.
    pub open spec fn column(&self) -> ColumnData {
        match self {
            Self::Hash(values) => ColumnData::Text(texts(values@)),
            Self::LogIndex(values) => ColumnData::Number(values@),
            Self::TransactionIndex(values) => ColumnData::Number(values@),
            Self::Address(values) => ColumnData::Text(texts(values@)),
            Self::Data(values) => ColumnData::Text(texts(values@)),
        }
    }

    /// The name of the field that this column belongs to.
    pub fn field_name(&self) -> (name: &'static str)
        ensures
            name@ == self.name(),
    {
        match self {
            Self::Hash(_) => "hash",
            Self::LogIndex(_) => "logIndex",
            Self::TransactionIndex(_) => "transactionIndex",
            Self::Address(_) => "address",
            Self::Data(_) => "data",
        }
    }

    /// The values gathered so far.
    pub fn values(&self) -> (values: ColumnRef<'_>)
        ensures
            values.holds(self.column()),
    {
        match self {
            Self::Hash(values) => ColumnRef::Text(values),
            Self::LogIndex(values) => ColumnRef::Number(values),
            Self::TransactionIndex(values) => ColumnRef::Number(values),
            Self::Address(values) => ColumnRef::Text(values),
            Self::Data(values) => ColumnRef::Text(values),
        }
    }

    fn push_text(&mut self, text: String)
        requires
            old(self).column() is Text,
        ensures
            final(self).name() == old(self).name(),
            final(self).column() == old(self).column().with(Cell::Text(text@)),
    {
        match self {
            Self::Hash(values) => push_text_value(values, text),
            Self::Address(values) => push_text_value(values, text),
            Self::Data(values) => push_text_value(values, text),
            _ => {},
        }
    }

    fn push_number(&mut self, number: u64)
        requires
            old(self).column() is Number,
        ensures
            final(self).name() == old(self).name(),
            final(self).column() == old(self).column().with(Cell::Number(number)),
    {
        match self {
            Self::LogIndex(values) => values.push(number),
            Self::TransactionIndex(values) => values.push(number),
            _ => {},
        }
    }
}

/// A vector without strings.
fn no_texts() -> (values: Vec<String>)
    ensures
        texts(values@) == Seq::<Seq<char>>::empty(),
{
    let values: Vec<String> = Vec::new();
    assert(texts(values@) =~= Seq::<Seq<char>>::empty());
    values
}

/// Appends one string to a vector of strings.
fn push_text_value(values: &mut Vec<String>, text: String)
    ensures
        texts(final(values)@) == texts(old(values)@).push(text@),
{
    values.push(text);
    assert(texts(values@) =~= texts(old(values)@).push(text@));
}

/// An empty column for a field of a block header.
///
/// Fails with `NotFound` for a name that the catalog does not hold.
pub fn create_block_field_data(field: &str) -> (made: Result<FieldData, FieldError>)
    ensures
        match block_field_kind(field@) {
            Some(kind) => made matches Ok(data) && data.is_empty_column(
                Dataset::Blocks,
                field@,
                kind,
            ),
            None => made matches Err(FieldError::NotFound(name)) && name@ == field@,
        },
{
    if text_eq(field, "hash") {
        Ok(FieldData::BlocksData(BlockFieldData::Hash(no_texts())))
    } else if text_eq(field, "number") {
        Ok(FieldData::BlocksData(BlockFieldData::Number(Vec::new())))
    } else if text_eq(field, "parentHash") {
        Ok(FieldData::BlocksData(BlockFieldData::ParentHash(no_texts())))
    } else if text_eq(field, "timestamp") {
        Ok(FieldData::BlocksData(BlockFieldData::Timestamp(Vec::new())))
    } else if text_eq(field, "miner") {
        Ok(FieldData::BlocksData(BlockFieldData::Miner(no_texts())))
    } else if text_eq(field, "stateRoot") {
        Ok(FieldData::BlocksData(BlockFieldData::StateRoot(no_texts())))
    } else if text_eq(field, "transactionsRoot") {
        Ok(FieldData::BlocksData(BlockFieldData::TransactionsRoot(no_texts())))
    } else if text_eq(field, "receiptsRoot") {
        Ok(FieldData::BlocksData(BlockFieldData::ReceiptsRoot(no_texts())))
    } else if text_eq(field, "gasUsed") {
        Ok(FieldData::BlocksData(BlockFieldData::GasUsed(Vec::new())))
    } else if text_eq(field, "extraData") {
        Ok(FieldData::BlocksData(BlockFieldData::ExtraData(no_texts())))
    } else if text_eq(field, "baseFeePerGas") {
        Ok(FieldData::BlocksData(BlockFieldData::BaseFeePerGas(Vec::new())))
    } else if text_eq(field, "logsBloom") {
        Ok(FieldData::BlocksData(BlockFieldData::LogsBloom(no_texts())))
    } else if text_eq(field, "totalDifficulty") {
        Ok(FieldData::BlocksData(BlockFieldData::TotalDifficulty(Vec::new())))
    } else if text_eq(field, "size") {
        Ok(FieldData::BlocksData(BlockFieldData::Size(Vec::new())))
    } else {
        Err(FieldError::NotFound(String::from_str(field)))
    }
}

/// An empty column for a field of a transaction.
///
/// Fails with `NotFound` for a name that the catalog does not hold.
pub fn create_transaction_field_data(field: &str) -> (made: Result<FieldData, FieldError>)
    ensures
        match transaction_field_kind(field@) {
            Some(kind) => made matches Ok(data) && data.is_empty_column(
                Dataset::Transactions,
                field@,
                kind,
            ),
            None => made matches Err(FieldError::NotFound(name)) && name@ == field@,
        },
{
    if text_eq(field, "id") {
        Ok(FieldData::TransactionsData(TransactionsFieldData::Id(no_texts())))
    } else if text_eq(field, "transactionIndex") {
        Ok(FieldData::TransactionsData(TransactionsFieldData::TransactionIndex(Vec::new())))
    } else if text_eq(field, "from") {
        Ok(FieldData::TransactionsData(TransactionsFieldData::From(no_texts())))
    } else if text_eq(field, "to") {
        Ok(FieldData::TransactionsData(TransactionsFieldData::To(no_texts())))
    } else if text_eq(field, "hash") {
        Ok(FieldData::TransactionsData(TransactionsFieldData::Hash(no_texts())))
    } else if text_eq(field, "gas") {
        Ok(FieldData::TransactionsData(TransactionsFieldData::Gas(Vec::new())))
    } else if text_eq(field, "gasPrice") {
        Ok(FieldData::TransactionsData(TransactionsFieldData::GasPrice(Vec::new())))
    } else if text_eq(field, "maxFeePerGas") {
        Ok(FieldData::TransactionsData(TransactionsFieldData::MaxFeePerGas(Vec::new())))
    } else if text_eq(field, "maxPriorityFeePerGas") {
        Ok(FieldData::TransactionsData(TransactionsFieldData::MaxPriorityFeePerGas(Vec::new())))
    } else if text_eq(field, "input") {
        Ok(FieldData::TransactionsData(TransactionsFieldData::Input(no_texts())))
    } else if text_eq(field, "nonce") {
        Ok(FieldData::TransactionsData(TransactionsFieldData::Nonce(Vec::new())))
    } else if text_eq(field, "value") {
        Ok(FieldData::TransactionsData(TransactionsFieldData::Value(no_texts())))
    } else if text_eq(field, "v") {
        Ok(FieldData::TransactionsData(TransactionsFieldData::V(Vec::new())))
    } else if text_eq(field, "r") {
        Ok(FieldData::TransactionsData(TransactionsFieldData::R(no_texts())))
    } else if text_eq(field, "s") {
        Ok(FieldData::TransactionsData(TransactionsFieldData::S(no_texts())))
    } else if text_eq(field, "yParity") {
        Ok(FieldData::TransactionsData(TransactionsFieldData::YParity(Vec::new())))
    } else if text_eq(field, "chainId") {
        Ok(FieldData::TransactionsData(TransactionsFieldData::ChainId(Vec::new())))
    } else if text_eq(field, "gasUsed") {
        Ok(FieldData::TransactionsData(TransactionsFieldData::GasUsed(Vec::new())))
    } else if text_eq(field, "cumulativeGasUsed") {
        Ok(FieldData::TransactionsData(TransactionsFieldData::CumulativeGasUsed(Vec::new())))
    } else if text_eq(field, "effectiveGasPrice") {
        Ok(FieldData::TransactionsData(TransactionsFieldData::EffectiveGasPrice(Vec::new())))
    } else if text_eq(field, "contractAddress") {
        Ok(FieldData::TransactionsData(TransactionsFieldData::ContractAddress(no_texts())))
    } else if text_eq(field, "type") {
        Ok(FieldData::TransactionsData(TransactionsFieldData::Type(Vec::new())))
    } else if text_eq(field, "status") {
        Ok(FieldData::TransactionsData(TransactionsFieldData::Status(Vec::new())))
    } else if text_eq(field, "sighash") {
        Ok(FieldData::TransactionsData(TransactionsFieldData::Sighash(no_texts())))
    } else if text_eq(field, "blockHash") {
        Ok(FieldData::TransactionsData(TransactionsFieldData::BlockHash(no_texts())))
    } else if text_eq(field, "blockNumber") {
        Ok(FieldData::TransactionsData(TransactionsFieldData::BlockNumber(Vec::new())))
    } else if text_eq(field, "timestamp") {
        Ok(FieldData::TransactionsData(TransactionsFieldData::Timestamp(Vec::new())))
    } else {
        Err(FieldError::NotFound(String::from_str(field)))
    }
}

/// An empty column for a field of a log entry.
///
/// Fails with `NotFound` for a name that the catalog does not hold.
pub fn create_log_field_data(field: &str) -> (made: Result<FieldData, FieldError>)
    ensures
        match log_field_kind(field@) {
            Some(kind) => made matches Ok(data) && data.is_empty_column(
                Dataset::Logs,
                field@,
                kind,
            ),
            None => made matches Err(FieldError::NotFound(name)) && name@ == field@,
        },
{
    if text_eq(field, "hash") {
        Ok(FieldData::LogsData(LogsFieldData::Hash(no_texts())))
    } else if text_eq(field, "logIndex") {
        Ok(FieldData::LogsData(LogsFieldData::LogIndex(Vec::new())))
    } else if text_eq(field, "transactionIndex") {
        Ok(FieldData::LogsData(LogsFieldData::TransactionIndex(Vec::new())))
    } else if text_eq(field, "address") {
        Ok(FieldData::LogsData(LogsFieldData::Address(no_texts())))
    } else if text_eq(field, "data") {
        Ok(FieldData::LogsData(LogsFieldData::Data(no_texts())))
    } else {
        Err(FieldError::NotFound(String::from_str(field)))
    }
}
impl FieldData {
    /// The dataset that this column belongs to.
    pub open spec fn dataset(&self) -> Dataset {
        match self {
            FieldData::BlocksData(_) => Dataset::Blocks,
            FieldData::TransactionsData(_) => Dataset::Transactions,
            FieldData::LogsData(_) => Dataset::Logs,
        }
    }

    /// The name of the field that this column belongs to.
    pub open spec fn name(&self) -> Seq<char> {
        match self {
            FieldData::BlocksData(data) => data.name(),
            FieldData::TransactionsData(data) => data.name(),
            FieldData::LogsData(data) => data.name(),
        }
    }

    /// The values gathered so far.
    pub open spec fn column(&self) -> ColumnData {
        match self {
            FieldData::BlocksData(data) => data.column(),
            FieldData::TransactionsData(data) => data.column(),
            FieldData::LogsData(data) => data.column(),
        }
    }

    /// The scalar type of the values.
    pub open spec fn kind(&self) -> ColumnKind {
        self.column().kind()
    }

    /// Whether this is the column of the named field of a dataset, of the
    /// given type and without values.
    pub open spec fn is_empty_column(&self, dataset: Dataset, name: Seq<char>, kind: ColumnKind) -> bool {
        &&& self.dataset() == dataset
        &&& self.name() == name
        &&& self.column() == ColumnData::empty(kind)
    }

    /// How this column reads a raw value.
    pub open spec fn reading(&self) -> Reading {
        reading_of(self.dataset(), self.name(), self.kind())
    }

    /// Whether `after` is `self` with `cell` added at the end of its values.
    pub open spec fn grows_into(&self, after: &FieldData, cell: Cell) -> bool {
        &&& after.dataset() == self.dataset()
        &&& after.name() == self.name()
        &&& after.column() == self.column().with(cell)
    }

    /// The values gathered so far.
    pub fn values(&self) -> (values: ColumnRef<'_>)
        ensures
            values.holds(self.column()),
    {
        match self {
            FieldData::BlocksData(data) => data.values(),
            FieldData::TransactionsData(data) => data.values(),
            FieldData::LogsData(data) => data.values(),
        }
    }

    /// The name of the field that this column belongs to.
    pub fn field_name(&self) -> (name: &'static str)
        ensures
            name@ == self.name(),
    {
        match self {
            FieldData::BlocksData(data) => data.field_name(),
            FieldData::TransactionsData(data) => data.field_name(),
            FieldData::LogsData(data) => data.field_name(),
        }
    }

    /// How this column reads a raw value.
    pub fn value_reading(&self) -> (reading: Reading)
        ensures
            reading == self.reading(),
    {
        if let ColumnRef::Text(_) = self.values() {
            Reading::Text
        } else {
            match self {
                FieldData::BlocksData(BlockFieldData::Timestamp(_)) => Reading::WholeNumber,
                FieldData::BlocksData(_) => {
                    proof {
                        reveal_strlit("timestamp");
                        reveal_strlit("number");
                        reveal_strlit("gasUsed");
                        reveal_strlit("baseFeePerGas");
                        reveal_strlit("totalDifficulty");
                        reveal_strlit("size");
                        assert("timestamp"@.len() == 9);
                        assert("number"@.len() == 6);
                        assert("gasUsed"@.len() == 7);
                        assert("baseFeePerGas"@.len() == 13);
                        assert("totalDifficulty"@.len() == 15);
                        assert("size"@.len() == 4);
                    }
                    Reading::Unsigned
                },
                FieldData::TransactionsData(_) => Reading::UnsignedOrZero,
                FieldData::LogsData(_) => Reading::Unsigned,
            }
        }
    }

    fn push_text(&mut self, text: String)
        requires
            old(self).column() is Text,
        ensures
            old(self).grows_into(final(self), Cell::Text(text@)),
    {
        match self {
            FieldData::BlocksData(data) => data.push_text(text),
            FieldData::TransactionsData(data) => data.push_text(text),
            FieldData::LogsData(data) => data.push_text(text),
        }
    }

    fn push_number(&mut self, number: u64)
        requires
            old(self).column() is Number,
        ensures
            old(self).grows_into(final(self), Cell::Number(number)),
    {
        match self {
            FieldData::BlocksData(data) => data.push_number(number),
            FieldData::TransactionsData(data) => data.push_number(number),
            FieldData::LogsData(data) => data.push_number(number),
        }
    }

    /// Reads `value` as this column reads and adds the result to the column.
    fn append(&mut self, value: &Value) -> (done: Result<(), FieldError>)
        ensures
            match read_cell(old(self).reading(), json_of(*value)) {
                Some(cell) => done is Ok && old(self).grows_into(final(self), cell),
                None => done matches Err(FieldError::Coercion) && *final(self) == *old(self),
            },
    {
        match self.value_reading() {
            Reading::Text => match json_as_text(value) {
                Some(text) => {
                    self.push_text(String::from_str(text));
                    Ok(())
                },
                None => Err(FieldError::Coercion),
            },
            Reading::Unsigned => match json_as_unsigned(value) {
                Some(number) => {
                    self.push_number(number);
                    Ok(())
                },
                None => Err(FieldError::Coercion),
            },
            Reading::UnsignedOrZero => {
                let number: u64 = match json_as_unsigned(value) {
                    Some(number) => number,
                    None => 0,
                };
                self.push_number(number);
                Ok(())
            },
            Reading::WholeNumber => match json_as_whole_number(value) {
                Some(number) => {
                    self.push_number(number);
                    Ok(())
                },
                None => Err(FieldError::Coercion),
            },
        }
    }

    /// Adds a raw value to the column, read according to the column's type
    /// and dataset.
    ///
    /// Fails with `Coercion`, and leaves the column as it was, where the value
    /// cannot be read and the field has no default.
    pub fn add_value(&mut self, value: &Value) -> (done: Result<(), FieldError>)
        ensures
            match read_cell(old(self).reading(), json_of(*value)) {
                Some(cell) => done is Ok && old(self).grows_into(final(self), cell),
                None => done matches Err(FieldError::Coercion) && *final(self) == *old(self),
            },
    {
        match self {
            FieldData::BlocksData(_) => self.add_blocks_value(value),
            FieldData::TransactionsData(_) => self.add_transactions_value(value),
            FieldData::LogsData(_) => self.add_logs_value(value),
        }
    }

    /// Adds a raw value to a column of the Blocks dataset. Every field of a block is required.
    ///
    /// Fails with `UnsupportedType` on a column of another dataset and with
    /// `Coercion` where a required value cannot be read; the column is then
    /// as it was.
    pub fn add_blocks_value(&mut self, value: &Value) -> (done: Result<(), FieldError>)
        ensures
            old(self).dataset() != Dataset::Blocks ==> (done matches Err(
                FieldError::UnsupportedType,
            ) && *final(self) == *old(self)),
            old(self).dataset() == Dataset::Blocks ==> match read_cell(old(self).reading(), json_of(*value)) {
                Some(cell) => done is Ok && old(self).grows_into(final(self), cell),
                None => done matches Err(FieldError::Coercion) && *final(self) == *old(self),
            },
    {
        match self {
            FieldData::BlocksData(_) => self.append(value),
            _ => Err(FieldError::UnsupportedType),
        }
    }

    /// Adds a raw value to a column of the Transactions dataset. A number that cannot be read counts as zero; text is required.
    ///
    /// Fails with `UnsupportedType` on a column of another dataset and with
    /// `Coercion` where a required value cannot be read; the column is then
    /// as it was.
    pub fn add_transactions_value(&mut self, value: &Value) -> (done: Result<(), FieldError>)
        ensures
            old(self).dataset() != Dataset::Transactions ==> (done matches Err(
                FieldError::UnsupportedType,
            ) && *final(self) == *old(self)),
            old(self).dataset() == Dataset::Transactions ==> match read_cell(old(self).reading(), json_of(*value)) {
                Some(cell) => done is Ok && old(self).grows_into(final(self), cell),
                None => done matches Err(FieldError::Coercion) && *final(self) == *old(self),
            },
    {
        match self {
            FieldData::TransactionsData(_) => self.append(value),
            _ => Err(FieldError::UnsupportedType),
        }
    }

    /// Adds a raw value to a column of the Logs dataset. Every field of a log entry is required.
    ///
    /// Fails with `UnsupportedType` on a column of another dataset and with
    /// `Coercion` where a required value cannot be read; the column is then
    /// as it was.
    pub fn add_logs_value(&mut self, value: &Value) -> (done: Result<(), FieldError>)
        ensures
            old(self).dataset() != Dataset::Logs ==> (done matches Err(
                FieldError::UnsupportedType,
            ) && *final(self) == *old(self)),
            old(self).dataset() == Dataset::Logs ==> match read_cell(old(self).reading(), json_of(*value)) {
                Some(cell) => done is Ok && old(self).grows_into(final(self), cell),
                None => done matches Err(FieldError::Coercion) && *final(self) == *old(self),
            },
    {
        match self {
            FieldData::LogsData(_) => self.append(value),
            _ => Err(FieldError::UnsupportedType),
        }
    }

}

/// An empty column for a field of a dataset.
///
/// Succeeds exactly for the fields of the dataset's catalog, with a column of
/// the declared type; any other name fails with `NotFound`.
pub fn create_field_data(field: &str, dataset: Dataset) -> (made: Result<FieldData, FieldError>)
    ensures
        made is Ok <==> catalog(dataset).contains(field@),
        match declared_kind(dataset, field@) {
            Some(kind) => made matches Ok(data) && data.is_empty_column(dataset, field@, kind),
            None => made matches Err(FieldError::NotFound(name)) && name@ == field@,
        },
{
    proof {
        lemma_catalog_is_declared(dataset, field@);
    }
    match dataset {
        Dataset::Blocks => create_block_field_data(field),
        Dataset::Transactions => create_transaction_field_data(field),
        Dataset::Logs => create_log_field_data(field),
    }
}

/// The catalog of a dataset holds exactly the names that have a declared
/// type.
pub proof fn lemma_catalog_is_declared(dataset: Dataset, name: Seq<char>)
    ensures
        catalog(dataset).contains(name) <==> declared_kind(dataset, name) is Some,
{
    match dataset {
        Dataset::Blocks => lemma_block_catalog(name),
        Dataset::Transactions => lemma_transaction_catalog(name),
        Dataset::Logs => lemma_log_catalog(name),
    }
}

proof fn lemma_block_catalog(name: Seq<char>)
    ensures
        block_fields().contains(name) <==> block_field_kind(name) is Some,
{
    let names = block_fields();
    assert(names.len() == 14);
    assert(names[0] == "hash"@);
    assert(names[1] == "number"@);
    assert(names[2] == "parentHash"@);
    assert(names[3] == "timestamp"@);
    assert(names[4] == "miner"@);
    assert(names[5] == "stateRoot"@);
    assert(names[6] == "transactionsRoot"@);
    assert(names[7] == "receiptsRoot"@);
    assert(names[8] == "gasUsed"@);
    assert(names[9] == "extraData"@);
    assert(names[10] == "baseFeePerGas"@);
    assert(names[11] == "logsBloom"@);
    assert(names[12] == "totalDifficulty"@);
    assert(names[13] == "size"@);
    if names.contains(name) {
        let i = choose|i: int| 0 <= i < names.len() && names[i] == name;
        assert(0 <= i < 14 && names[i] == name);
    }
}

proof fn lemma_transaction_catalog(name: Seq<char>)
    ensures
        transaction_fields().contains(name) <==> transaction_field_kind(name) is Some,
{
    let names = transaction_fields();
    assert(names.len() == 27);
    assert(names[0] == "id"@);
    assert(names[1] == "transactionIndex"@);
    assert(names[2] == "from"@);
    assert(names[3] == "to"@);
    assert(names[4] == "hash"@);
    assert(names[5] == "gas"@);
    assert(names[6] == "gasPrice"@);
    assert(names[7] == "maxFeePerGas"@);
    assert(names[8] == "maxPriorityFeePerGas"@);
    assert(names[9] == "input"@);
    assert(names[10] == "nonce"@);
    assert(names[11] == "value"@);
    assert(names[12] == "v"@);
    assert(names[13] == "r"@);
    assert(names[14] == "s"@);
    assert(names[15] == "yParity"@);
    assert(names[16] == "chainId"@);
    assert(names[17] == "gasUsed"@);
    assert(names[18] == "cumulativeGasUsed"@);
    assert(names[19] == "effectiveGasPrice"@);
    assert(names[20] == "contractAddress"@);
    assert(names[21] == "type"@);
    assert(names[22] == "status"@);
    assert(names[23] == "sighash"@);
    assert(names[24] == "blockHash"@);
    assert(names[25] == "blockNumber"@);
    assert(names[26] == "timestamp"@);
    if names.contains(name) {
        let i = choose|i: int| 0 <= i < names.len() && names[i] == name;
        assert(0 <= i < 27 && names[i] == name);
    }
}

proof fn lemma_log_catalog(name: Seq<char>)
    ensures
        log_fields().contains(name) <==> log_field_kind(name) is Some,
{
    let names = log_fields();
    assert(names.len() == 5);
    assert(names[0] == "hash"@);
    assert(names[1] == "logIndex"@);
    assert(names[2] == "transactionIndex"@);
    assert(names[3] == "address"@);
    assert(names[4] == "data"@);
    if names.contains(name) {
        let i = choose|i: int| 0 <= i < names.len() && names[i] == name;
        assert(0 <= i < 5 && names[i] == name);
    }
}

/// A column always has the type that the schema declares for its field:
/// whatever has been added to it, its dataset and name are in the catalog
/// with the kind of its values.
pub proof fn lemma_column_has_declared_kind(data: FieldData)
    ensures
        declared_kind(data.dataset(), data.name()) == Some(data.kind()),
        catalog(data.dataset()).contains(data.name()),
{
    match data {
        FieldData::BlocksData(column) => lemma_block_column_kind(column),
        FieldData::TransactionsData(column) => lemma_transaction_column_kind(column),
        FieldData::LogsData(column) => lemma_log_column_kind(column),
    }
    lemma_catalog_is_declared(data.dataset(), data.name());
}

proof fn lemma_block_column_kind(column: BlockFieldData)
    ensures
        block_field_kind(column.name()) == Some(column.column().kind()),
{
    reveal_strlit("hash");
    reveal_strlit("number");
    reveal_strlit("parentHash");
    reveal_strlit("timestamp");
    reveal_strlit("miner");
    reveal_strlit("stateRoot");
    reveal_strlit("transactionsRoot");
    reveal_strlit("receiptsRoot");
    reveal_strlit("gasUsed");
    reveal_strlit("extraData");
    reveal_strlit("baseFeePerGas");
    reveal_strlit("logsBloom");
    reveal_strlit("totalDifficulty");
    reveal_strlit("size");
    assert("hash"@.len() == 4);
    assert("number"@.len() == 6);
    assert("parentHash"@.len() == 10);
    assert("timestamp"@.len() == 9);
    assert("miner"@.len() == 5);
    assert("stateRoot"@.len() == 9);
    assert("transactionsRoot"@.len() == 16);
    assert("receiptsRoot"@.len() == 12);
    assert("gasUsed"@.len() == 7);
    assert("extraData"@.len() == 9);
    assert("baseFeePerGas"@.len() == 13);
    assert("logsBloom"@.len() == 9);
    assert("totalDifficulty"@.len() == 15);
    assert("size"@.len() == 4);
    assert("hash"@[0] != "size"@[0]);
    assert("timestamp"@[0] != "stateRoot"@[0]);
    assert("timestamp"@[0] != "extraData"@[0]);
    assert("timestamp"@[0] != "logsBloom"@[0]);
    assert("stateRoot"@[0] != "extraData"@[0]);
    assert("stateRoot"@[0] != "logsBloom"@[0]);
    assert("extraData"@[0] != "logsBloom"@[0]);
}

proof fn lemma_transaction_column_kind(column: TransactionsFieldData)
    ensures
        transaction_field_kind(column.name()) == Some(column.column().kind()),
{
    reveal_strlit("id");
    reveal_strlit("transactionIndex");
    reveal_strlit("from");
    reveal_strlit("to");
    reveal_strlit("hash");
    reveal_strlit("gas");
    reveal_strlit("gasPrice");
    reveal_strlit("maxFeePerGas");
    reveal_strlit("maxPriorityFeePerGas");
    reveal_strlit("input");
    reveal_strlit("nonce");
    reveal_strlit("value");
    reveal_strlit("v");
    reveal_strlit("r");
    reveal_strlit("s");
    reveal_strlit("yParity");
    reveal_strlit("chainId");
    reveal_strlit("gasUsed");
    reveal_strlit("cumulativeGasUsed");
    reveal_strlit("effectiveGasPrice");
    reveal_strlit("contractAddress");
    reveal_strlit("type");
    reveal_strlit("status");
    reveal_strlit("sighash");
    reveal_strlit("blockHash");
    reveal_strlit("blockNumber");
    reveal_strlit("timestamp");
    assert("id"@.len() == 2);
    assert("transactionIndex"@.len() == 16);
    assert("from"@.len() == 4);
    assert("to"@.len() == 2);
    assert("hash"@.len() == 4);
    assert("gas"@.len() == 3);
    assert("gasPrice"@.len() == 8);
    assert("maxFeePerGas"@.len() == 12);
    assert("maxPriorityFeePerGas"@.len() == 20);
    assert("input"@.len() == 5);
    assert("nonce"@.len() == 5);
    assert("value"@.len() == 5);
    assert("v"@.len() == 1);
    assert("r"@.len() == 1);
    assert("s"@.len() == 1);
    assert("yParity"@.len() == 7);
    assert("chainId"@.len() == 7);
    assert("gasUsed"@.len() == 7);
    assert("cumulativeGasUsed"@.len() == 17);
    assert("effectiveGasPrice"@.len() == 17);
    assert("contractAddress"@.len() == 15);
    assert("type"@.len() == 4);
    assert("status"@.len() == 6);
    assert("sighash"@.len() == 7);
    assert("blockHash"@.len() == 9);
    assert("blockNumber"@.len() == 11);
    assert("timestamp"@.len() == 9);
    assert("id"@[0] != "to"@[0]);
    assert("from"@[0] != "hash"@[0]);
    assert("from"@[0] != "type"@[0]);
    assert("hash"@[0] != "type"@[0]);
    assert("input"@[0] != "nonce"@[0]);
    assert("input"@[0] != "value"@[0]);
    assert("nonce"@[0] != "value"@[0]);
    assert("v"@[0] != "r"@[0]);
    assert("v"@[0] != "s"@[0]);
    assert("r"@[0] != "s"@[0]);
    assert("yParity"@[0] != "chainId"@[0]);
    assert("yParity"@[0] != "gasUsed"@[0]);
    assert("yParity"@[0] != "sighash"@[0]);
    assert("chainId"@[0] != "gasUsed"@[0]);
    assert("chainId"@[0] != "sighash"@[0]);
    assert("gasUsed"@[0] != "sighash"@[0]);
    assert("cumulativeGasUsed"@[0] != "effectiveGasPrice"@[0]);
    assert("blockHash"@[0] != "timestamp"@[0]);
}

proof fn lemma_log_column_kind(column: LogsFieldData)
    ensures
        log_field_kind(column.name()) == Some(column.column().kind()),
{
    reveal_strlit("hash");
    reveal_strlit("logIndex");
    reveal_strlit("transactionIndex");
    reveal_strlit("address");
    reveal_strlit("data");
    assert("hash"@.len() == 4);
    assert("logIndex"@.len() == 8);
    assert("transactionIndex"@.len() == 16);
    assert("address"@.len() == 7);
    assert("data"@.len() == 4);
    assert("hash"@[0] != "data"@[0]);
}

} // verus!
