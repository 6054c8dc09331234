//! The checked configuration of one extraction run.
//!
//! [`Config`] is made from the raw [`Opts`]: the dataset is looked up by
//! name, the range is cut at its colon and read as two numbers, the fields are
//! held against the dataset's catalog, and the filter options against the keys
//! that the dataset accepts. The first of these that fails decides the error.

use crate::cli::opts::Opts;
use crate::export::fields::{
    catalog, create_field_data, first_unknown, lemma_first_unknown_at, lemma_none_unknown,
};
use crate::text::{contains_text, parse_u64, parsed_u64, split_on, split_text, text_eq, texts};
use vstd::prelude::*;
use vstd::std_specs::convert::TryFromSpecImpl;
use vstd::string::StringExecFns;

verus! {

/// A range of block heights, from `start` up to `end`.
#[derive(Debug, PartialEq, Eq, Structural)]
pub struct Range {
    pub start: u64,
    pub end: u64,
}

/// The kinds of record that the archive serves.
#[derive(Debug, PartialEq, Eq, Clone, Copy, Structural)]
pub enum Dataset {
    Blocks,
    Transactions,
    Logs,
}

/// One filter option: a key and the values given for it.
#[derive(Debug)]
pub struct FilterOption {
    pub key: String,
    pub values: Vec<String>,
}

/// The filter options of a run: a mapping from option key to values, kept as
/// a list in which a later entry of a key replaces an earlier one.
///
/// A hash map keyed by `String` would hold the same, but vstd gives `String`
/// no key model (`obeys_key_model`), so nothing could be proved of its
/// contents.
#[derive(Debug)]
pub struct FilterOptions {
    pub entries: Vec<FilterOption>,
}

/// The checked configuration of a run.
#[derive(Debug)]
pub struct Config {
    pub dataset: Dataset,
    pub range: Range,
    pub fields: Vec<String>,
    pub options: FilterOptions,
}

/// Why a configuration was refused.
#[derive(Debug)]
pub enum ConfigError {
    /// No dataset was named.
    NoDataset,
    /// The dataset's name is not one of `blocks`, `transactions` and `logs`.
    InvalidDataset,
    /// No range was given.
    NoRange,
    /// The range is not two unsigned decimal numbers with a colon between.
    InvalidRange,
    /// The named field is not in the dataset's catalog.
    InvalidField(String),
    /// An option has a key that the dataset does not accept, or no value.
    InvalidOption,
}

/// A [`ConfigError`] as a mathematical value.
pub enum ConfigFault {
    NoDataset,
    InvalidDataset,
    NoRange,
    InvalidRange,
    InvalidField(Seq<char>),
    InvalidOption,
}

/// A [`Config`] as a mathematical value.
pub struct ConfigModel {
    pub dataset: Dataset,
    pub range: Range,
    pub fields: Seq<Seq<char>>,
    pub options: Map<Seq<char>, Seq<Seq<char>>>,
}

impl View for ConfigError {
    type V = ConfigFault;

    open spec fn view(&self) -> ConfigFault {
        match self {
            ConfigError::NoDataset => ConfigFault::NoDataset,
            ConfigError::InvalidDataset => ConfigFault::InvalidDataset,
            ConfigError::NoRange => ConfigFault::NoRange,
            ConfigError::InvalidRange => ConfigFault::InvalidRange,
            ConfigError::InvalidField(name) => ConfigFault::InvalidField(name@),
            ConfigError::InvalidOption => ConfigFault::InvalidOption,
        }
    }
}

/// What a fault reads as.
pub open spec fn fault_message(fault: ConfigFault) -> Seq<char> {
    match fault {
        ConfigFault::NoDataset => "No dataset specified"@,
        ConfigFault::InvalidDataset => "Invalid dataset"@,
        ConfigFault::NoRange => "No range specified"@,
        ConfigFault::InvalidRange => "Invalid range"@,
        ConfigFault::InvalidField(name) => "Invalid field: "@ + name,
        ConfigFault::InvalidOption => "Invalid option"@,
    }
}

impl ConfigError {
    /// The error in words.
    pub fn message(&self) -> (text: String)
        ensures
            text@ == fault_message(self@),
    {
        match self {
            ConfigError::NoDataset => String::from_str("No dataset specified"),
            ConfigError::InvalidDataset => String::from_str("Invalid dataset"),
            ConfigError::NoRange => String::from_str("No range specified"),
            ConfigError::InvalidRange => String::from_str("Invalid range"),
            ConfigError::InvalidField(name) => String::from_str("Invalid field: ").concat(
                name.as_str(),
            ),
            ConfigError::InvalidOption => String::from_str("Invalid option"),
        }
    }
}

/// The mapping that a list of filter options stands for: each key with the
/// values of its last entry.
pub open spec fn options_map(entries: Seq<FilterOption>) -> Map<Seq<char>, Seq<Seq<char>>>
    decreases entries.len(),
{
    if entries.len() == 0 {
        Map::empty()
    } else {
        options_map(entries.drop_last()).insert(entries.last().key@, texts(entries.last().values@))
    }
}

impl View for FilterOptions {
    type V = Map<Seq<char>, Seq<Seq<char>>>;

    open spec fn view(&self) -> Map<Seq<char>, Seq<Seq<char>>> {
        options_map(self.entries@)
    }
}

impl View for Config {
    type V = ConfigModel;

    open spec fn view(&self) -> ConfigModel {
        ConfigModel {
            dataset: self.dataset,
            range: self.range,
            fields: texts(self.fields@),
            options: self.options@,
        }
    }
}

impl FilterOptions {
    /// No options.
    pub fn new() -> (options: FilterOptions)
        ensures
            options@ == Map::<Seq<char>, Seq<Seq<char>>>::empty(),
    {
        FilterOptions { entries: Vec::new() }
    }

    /// Sets the values of `key`, in place of any that it had.
    pub fn insert(&mut self, key: String, values: Vec<String>)
        ensures
            final(self)@ == old(self)@.insert(key@, texts(values@)),
    {
        let ghost before = self.entries@;
        self.entries.push(FilterOption { key, values });
        assert(self.entries@.drop_last() =~= before);
    }

    /// The values of `key`, where it has any.
    pub fn get(&self, key: &str) -> (values: Option<&Vec<String>>)
        ensures
            match values {
                Some(found) => self@.dom().contains(key@) && self@[key@] == texts(found@),
                None => !self@.dom().contains(key@),
            },
    {
        let mut at: usize = self.entries.len();
        assert(self.entries@.take(at as int) =~= self.entries@);
        while at > 0
            invariant
                at <= self.entries@.len(),
                self@.dom().contains(key@) == options_map(self.entries@.take(at as int)).dom().contains(
                    key@,
                ),
                self@.dom().contains(key@) ==> self@[key@] == options_map(
                    self.entries@.take(at as int),
                )[key@],
            decreases at,
        {
            at = at - 1;
            assert(self.entries@.take(at + 1).drop_last() =~= self.entries@.take(at as int));
            if text_eq(self.entries[at].key.as_str(), key) {
                return Some(&self.entries[at].values);
            }
        }
        None
    }

    /// Whether no key has values.
    pub fn is_empty(&self) -> (empty: bool)
        ensures
            empty == (self@.dom() =~= Set::<Seq<char>>::empty()),
    {
        if self.entries.len() == 0 {
            true
        } else {
            assert(self@.dom().contains(self.entries@.last().key@));
            false
        }
    }
}

/// The dataset of a name, or `None` for any name but the three.
pub open spec fn dataset_named(name: Seq<char>) -> Option<Dataset> {
    if name == "blocks"@ {
        Some(Dataset::Blocks)
    } else if name == "transactions"@ {
        Some(Dataset::Transactions)
    } else if name == "logs"@ {
        Some(Dataset::Logs)
    } else {
        None
    }
}

/// The dataset that the raw option chooses.
pub open spec fn chosen_dataset(dataset: Option<String>) -> Result<Dataset, ConfigFault> {
    match dataset {
        None => Err(ConfigFault::NoDataset),
        Some(name) => match dataset_named(name@) {
            Some(dataset) => Ok(dataset),
            None => Err(ConfigFault::InvalidDataset),
        },
    }
}

/// The parts of the raw range, cut at each colon.
pub open spec fn range_parts(range: Option<String>) -> Result<Seq<Seq<char>>, ConfigFault> {
    match range {
        None => Err(ConfigFault::NoRange),
        Some(text) => Ok(split_text(text@, ':')),
    }
}

/// The range that the parts of a raw range write: the first two parts, read
/// as unsigned decimal numbers. Further parts do not count.
pub open spec fn range_of(parts: Seq<Seq<char>>) -> Result<Range, ConfigFault> {
    if parts.len() < 2 {
        Err(ConfigFault::InvalidRange)
    } else {
        match (parsed_u64(parts[0]), parsed_u64(parts[1])) {
            (Some(start), Some(end)) => Ok(Range { start, end }),
            _ => Err(ConfigFault::InvalidRange),
        }
    }
}

/// The fields that a run extracts where it names none.
pub open spec fn default_fields(dataset: Dataset) -> Seq<Seq<char>> {
    match dataset {
        Dataset::Blocks => seq!["hash"@, "number"@, "timestamp"@, "miner"@, "parentHash"@],
        Dataset::Transactions => seq!["hash"@, "from"@, "to"@, "input"@, "value"@],
        Dataset::Logs => seq!["hash"@, "logIndex"@, "transactionIndex"@, "address"@, "data"@],
    }
}

/// The requested fields, where each is in the catalog of the dataset; else the
/// first that is not.
pub open spec fn verified_fields(fields: Seq<Seq<char>>, dataset: Dataset) -> Result<
    Seq<Seq<char>>,
    ConfigFault,
> {
    match first_unknown(fields, dataset) {
        Some(name) => Err(ConfigFault::InvalidField(name)),
        None => Ok(fields),
    }
}

/// The fields of a run: the requested ones, checked, or the defaults of the
/// dataset where none is requested.
pub open spec fn chosen_fields(fields: Option<Vec<String>>, dataset: Dataset) -> Result<
    Seq<Seq<char>>,
    ConfigFault,
> {
    match fields {
        None => Ok(default_fields(dataset)),
        Some(names) => verified_fields(texts(names@), dataset),
    }
}

/// The option keys that a dataset accepts. Blocks accept none.
pub open spec fn legal_option_keys(dataset: Dataset) -> Seq<Seq<char>> {
    match dataset {
        Dataset::Blocks => Seq::empty(),
        Dataset::Transactions => seq!["from"@, "to"@, "sighash"@],
        Dataset::Logs => seq!["address"@, "topic0"@, "topic1"@, "topic2"@, "topic3"@],
    }
}

/// The key and the value of a raw option `key:value`, where the dataset
/// accepts the key. What follows a second colon does not count.
pub open spec fn option_entry(option: Seq<char>, dataset: Dataset) -> Option<
    (Seq<char>, Seq<char>),
> {
    let parts = split_text(option, ':');
    if parts.len() >= 2 && legal_option_keys(dataset).contains(parts[0]) {
        Some((parts[0], parts[1]))
    } else {
        None
    }
}

/// The mapping that a list of raw options writes. An empty raw option stands
/// for no option. Each other one sets the single value of its key; one that
/// is not an accepted `key:value` refuses the whole list.
pub open spec fn options_from(options: Seq<Seq<char>>, dataset: Dataset) -> Result<
    Map<Seq<char>, Seq<Seq<char>>>,
    ConfigFault,
>
    decreases options.len(),
{
    if options.len() == 0 {
        Ok(Map::empty())
    } else {
        match options_from(options.drop_last(), dataset) {
            Err(fault) => Err(fault),
            Ok(mapping) => if options.last().len() == 0 {
                Ok(mapping)
            } else {
                match option_entry(options.last(), dataset) {
                    Some((key, value)) => Ok(mapping.insert(key, seq![value])),
                    None => Err(ConfigFault::InvalidOption),
                }
            },
        }
    }
}

/// The filter options of a run. Blocks take no options: whatever is given
/// for them is left aside.
pub open spec fn chosen_options(options: Option<Vec<String>>, dataset: Dataset) -> Result<
    Map<Seq<char>, Seq<Seq<char>>>,
    ConfigFault,
> {
    match options {
        None => Ok(Map::empty()),
        Some(raw) => if dataset == Dataset::Blocks || raw@.len() == 0 {
            Ok(Map::empty())
        } else {
            options_from(texts(raw@), dataset)
        },
    }
}

/// The configuration that raw options stand for, or the first fault found
/// when dataset, range, fields and options are checked in this order.
pub open spec fn config_from(opts: Opts) -> Result<ConfigModel, ConfigFault> {
    match chosen_dataset(opts.dataset) {
        Err(fault) => Err(fault),
        Ok(dataset) => match range_parts(opts.range) {
            Err(fault) => Err(fault),
            Ok(parts) => match range_of(parts) {
                Err(fault) => Err(fault),
                Ok(range) => match chosen_fields(opts.fields, dataset) {
                    Err(fault) => Err(fault),
                    Ok(fields) => match chosen_options(opts.options, dataset) {
                        Err(fault) => Err(fault),
                        Ok(options) => Ok(ConfigModel { dataset, range, fields, options }),
                    },
                },
            },
        }
    }
}

/// Whether an outcome is the error that stands for `fault`.
pub open spec fn fails_with<T>(outcome: Result<T, ConfigError>, fault: ConfigFault) -> bool {
    outcome matches Err(error) && error@ == fault
}

impl TryFrom<Opts> for Config {
    type Error = ConfigError;

    /// Checks raw options and makes the configuration of the run.
    fn try_from(opts: Opts) -> (made: Result<Config, ConfigError>)
        ensures
            match config_from(opts) {
                Ok(model) => made matches Ok(config) && config@ == model,
                Err(fault) => fails_with(made, fault),
            },
    {
        let dataset = match get_dataset(opts.dataset) {
            Ok(dataset) => dataset,
            Err(error) => return Err(error),
        };
        let parts = match get_range(opts.range) {
            Ok(parts) => parts,
            Err(error) => return Err(error),
        };
        let range = match Range::try_from(parts) {
            Ok(range) => range,
            Err(error) => return Err(error),
        };
        let fields = match get_fields(opts.fields, dataset) {
            Ok(fields) => fields,
            Err(error) => return Err(error),
        };
        let options = match get_options(opts.options, dataset) {
            Ok(options) => options,
            Err(error) => return Err(error),
        };
        Ok(Config { dataset, range, fields, options })
    }
}

impl TryFromSpecImpl<Opts> for Config {
    open spec fn obeys_try_from_spec() -> bool {
        false
    }

    open spec fn try_from_spec(opts: Opts) -> Result<Config, ConfigError> {
        arbitrary()
    }
}

impl TryFrom<String> for Dataset {
    type Error = ConfigError;

    /// The dataset of a name.
    fn try_from(value: String) -> (chosen: Result<Dataset, ConfigError>)
        ensures
            match dataset_named(value@) {
                Some(dataset) => chosen == Ok::<Dataset, ConfigError>(dataset),
                None => chosen == Err::<Dataset, ConfigError>(ConfigError::InvalidDataset),
            },
    {
        dataset_by_name(value.as_str())
    }
}

impl TryFromSpecImpl<String> for Dataset {
    open spec fn obeys_try_from_spec() -> bool {
        true
    }

    open spec fn try_from_spec(value: String) -> Result<Dataset, ConfigError> {
        match dataset_named(value@) {
            Some(dataset) => Ok(dataset),
            None => Err(ConfigError::InvalidDataset),
        }
    }
}

impl TryFrom<Vec<String>> for Range {
    type Error = ConfigError;

    /// The range that the parts of a raw range write.
    fn try_from(value: Vec<String>) -> (read: Result<Range, ConfigError>)
        ensures
            match range_of(texts(value@)) {
                Ok(range) => read == Ok::<Range, ConfigError>(range),
                Err(fault) => fails_with(read, fault),
            },
    {
        if value.len() < 2 {
            return Err(ConfigError::InvalidRange);
        }
        let start = match parse_u64(value[0].as_str()) {
            Some(start) => start,
            None => return Err(ConfigError::InvalidRange),
        };
        let end = match parse_u64(value[1].as_str()) {
            Some(end) => end,
            None => return Err(ConfigError::InvalidRange),
        };
        Ok(Range { start, end })
    }
}

impl TryFromSpecImpl<Vec<String>> for Range {
    open spec fn obeys_try_from_spec() -> bool {
        true
    }

    open spec fn try_from_spec(value: Vec<String>) -> Result<Range, ConfigError> {
        match range_of(texts(value@)) {
            Ok(range) => Ok(range),
            Err(_) => Err(ConfigError::InvalidRange),
        }
    }
}

fn dataset_by_name(name: &str) -> (chosen: Result<Dataset, ConfigError>)
    ensures
        match dataset_named(name@) {
            Some(dataset) => chosen == Ok::<Dataset, ConfigError>(dataset),
            None => chosen == Err::<Dataset, ConfigError>(ConfigError::InvalidDataset),
        },
{
    if text_eq(name, "blocks") {
        Ok(Dataset::Blocks)
    } else if text_eq(name, "transactions") {
        Ok(Dataset::Transactions)
    } else if text_eq(name, "logs") {
        Ok(Dataset::Logs)
    } else {
        Err(ConfigError::InvalidDataset)
    }
}

/// The parts of the raw range, cut at each colon.
pub fn get_range(range: Option<String>) -> (parts: Result<Vec<String>, ConfigError>)
    ensures
        match range_parts(range) {
            Ok(cut) => parts matches Ok(found) && texts(found@) == cut,
            Err(fault) => fails_with(parts, fault),
        },
{
    match range {
        Some(range) => Ok(split_on(range.as_str(), ':')),
        None => Err(ConfigError::NoRange),
    }
}

/// The fields of a run: the requested ones, checked against the catalog of
/// the dataset, or the dataset's defaults where none is requested.
pub fn get_fields(fields: Option<Vec<String>>, dataset: Dataset) -> (chosen: Result<
    Vec<String>,
    ConfigError,
>)
    ensures
        match chosen_fields(fields, dataset) {
            Ok(names) => chosen matches Ok(found) && texts(found@) == names,
            Err(fault) => fails_with(chosen, fault),
        },
{
    match dataset {
        Dataset::Blocks => {
            match fields {
                None => Ok(five_names("hash", "number", "timestamp", "miner", "parentHash")),
                Some(fields) => verify_block_fields(fields),
            }
        },
        Dataset::Transactions => {
            match fields {
                None => Ok(five_names("hash", "from", "to", "input", "value")),
                Some(fields) => verify_transaction_fields(fields),
            }
        },
        Dataset::Logs => {
            match fields {
                None => Ok(five_names("hash", "logIndex", "transactionIndex", "address", "data")),
                Some(fields) => verify_log_fields(fields),
            }
        },
    }
}

/// Five names as owned strings, in the order given.
fn five_names(a: &str, b: &str, c: &str, d: &str, e: &str) -> (names: Vec<String>)
    ensures
        texts(names@) == seq![a@, b@, c@, d@, e@],
{
    let mut names: Vec<String> = Vec::new();
    names.push(String::from_str(a));
    names.push(String::from_str(b));
    names.push(String::from_str(c));
    names.push(String::from_str(d));
    names.push(String::from_str(e));
    assert(texts(names@) =~= seq![a@, b@, c@, d@, e@]);
    names
}

/// Holds each requested field against the catalog of a dataset. Gives the
/// fields back where all are known, and else names the first that is not.
fn verify_fields(fields: Vec<String>, dataset: Dataset) -> (checked: Result<
    Vec<String>,
    ConfigError,
>)
    ensures
        match verified_fields(texts(fields@), dataset) {
            Ok(names) => checked matches Ok(found) && found == fields,
            Err(fault) => fails_with(checked, fault),
        },
{
    let ghost names = texts(fields@);
    let mut at: usize = 0;
    while at < fields.len()
        invariant
            at <= fields@.len(),
            names == texts(fields@),
            forall|before: int| 0 <= before < at ==> catalog(dataset).contains(#[trigger] names[before]),
        decreases fields@.len() - at,
    {
        assert(names[at as int] == fields@[at as int]@);
        match create_field_data(fields[at].as_str(), dataset) {
            Ok(_) => {},
            Err(_) => {
                proof {
                    lemma_first_unknown_at(names, dataset, at as int);
                }
                return Err(ConfigError::InvalidField(fields[at].clone()));
            },
        }
        at = at + 1;
    }
    proof {
        lemma_none_unknown(names, dataset);
    }
    Ok(fields)
}

/// Holds requested fields against the catalog of transaction fields.
pub fn verify_transaction_fields(fields: Vec<String>) -> (checked: Result<
    Vec<String>,
    ConfigError,
>)
    ensures
        match verified_fields(texts(fields@), Dataset::Transactions) {
            Ok(names) => checked matches Ok(found) && found == fields,
            Err(fault) => fails_with(checked, fault),
        },
{
    verify_fields(fields, Dataset::Transactions)
}

/// Holds requested fields against the catalog of block fields.
pub fn verify_block_fields(fields: Vec<String>) -> (checked: Result<Vec<String>, ConfigError>)
    ensures
        match verified_fields(texts(fields@), Dataset::Blocks) {
            Ok(names) => checked matches Ok(found) && found == fields,
            Err(fault) => fails_with(checked, fault),
        },
{
    verify_fields(fields, Dataset::Blocks)
}

/// Holds requested fields against the catalog of log fields.
pub fn verify_log_fields(fields: Vec<String>) -> (checked: Result<Vec<String>, ConfigError>)
    ensures
        match verified_fields(texts(fields@), Dataset::Logs) {
            Ok(names) => checked matches Ok(found) && found == fields,
            Err(fault) => fails_with(checked, fault),
        },
{
    verify_fields(fields, Dataset::Logs)
}

/// The dataset that the raw option chooses.
pub fn get_dataset(dataset: Option<String>) -> (chosen: Result<Dataset, ConfigError>)
    ensures
        match chosen_dataset(dataset) {
            Ok(found) => chosen == Ok::<Dataset, ConfigError>(found),
            Err(fault) => fails_with(chosen, fault),
        },
{
    match dataset {
        Some(name) => dataset_by_name(name.as_str()),
        None => Err(ConfigError::NoDataset),
    }
}

/// Once a raw option has refused a list, no further option mends it.
proof fn lemma_options_refused(options: Seq<Seq<char>>, dataset: Dataset, upto: int)
    requires
        0 <= upto <= options.len(),
        options_from(options.take(upto), dataset) is Err,
    ensures
        options_from(options, dataset) == Err::<Map<Seq<char>, Seq<Seq<char>>>, ConfigFault>(
            ConfigFault::InvalidOption,
        ),
    decreases options.len() - upto,
{
    if upto < options.len() {
        assert(options.take(upto + 1).drop_last() =~= options.take(upto));
        lemma_options_refused(options, dataset, upto + 1);
    } else {
        assert(options.take(upto) =~= options);
        lemma_refusal_is_invalid_option(options, dataset);
    }
}

/// A list of raw options is refused with no other fault than
/// `InvalidOption`.
proof fn lemma_refusal_is_invalid_option(options: Seq<Seq<char>>, dataset: Dataset)
    ensures
        options_from(options, dataset) matches Err(fault) ==> fault == ConfigFault::InvalidOption,
    decreases options.len(),
{
    if options.len() > 0 {
        lemma_refusal_is_invalid_option(options.drop_last(), dataset);
    }
}

/// The filter options of a run, each raw option cut into key and value and
/// its key held against those that the dataset accepts.
pub fn get_options(options: Option<Vec<String>>, dataset: Dataset) -> (chosen: Result<
    FilterOptions,
    ConfigError,
>)
    ensures
        match chosen_options(options, dataset) {
            Ok(mapping) => chosen matches Ok(found) && found@ == mapping,
            Err(fault) => fails_with(chosen, fault),
        },
{
    let raw = match options {
        Some(raw) => raw,
        None => return Ok(FilterOptions::new()),
    };
    if dataset == Dataset::Blocks || raw.len() == 0 {
        return Ok(FilterOptions::new());
    }
    let keys = match get_verified_options(dataset) {
        Some(keys) => keys,
        None => return Err(ConfigError::InvalidOption),
    };
    let ghost written = texts(raw@);
    let mut chosen = FilterOptions::new();
    let mut at: usize = 0;
    assert(written.take(0) =~= Seq::<Seq<char>>::empty());
    while at < raw.len()
        invariant
            at <= raw@.len(),
            written == texts(raw@),
            chosen_options(options, dataset) == options_from(written, dataset),
            texts(keys@) == legal_option_keys(dataset),
            options_from(written.take(at as int), dataset) == Ok::<
                Map<Seq<char>, Seq<Seq<char>>>,
                ConfigFault,
            >(chosen@),
        decreases raw@.len() - at,
    {
        let option: &str = raw[at].as_str();
        proof {
            assert(written[at as int] == option@);
            assert(written.take(at + 1).drop_last() =~= written.take(at as int));
            assert(written.take(at + 1).last() == option@);
        }
        if !option.is_empty() {
            let parts = split_on(option, ':');
            assert(texts(parts@)[0] == parts@[0]@);
            if parts.len() >= 2 && contains_text(&keys, parts[0].as_str()) {
                assert(texts(parts@)[1] == parts@[1]@);
                let mut values: Vec<String> = Vec::new();
                values.push(parts[1].clone());
                assert(texts(values@) =~= seq![parts@[1]@]);
                chosen.insert(parts[0].clone(), values);
            } else {
                proof {
                    lemma_options_refused(written, dataset, at + 1);
                }
                return Err(ConfigError::InvalidOption);
            }
        }
        at = at + 1;
    }
    assert(written.take(at as int) =~= written);
    Ok(chosen)
}

/// The option keys that a dataset accepts.
pub fn get_verified_options(dataset: Dataset) -> (keys: Option<Vec<String>>)
    ensures
        keys matches Some(found) && texts(found@) == legal_option_keys(dataset),
{
    let mut keys: Vec<String> = Vec::new();
    match dataset {
        Dataset::Blocks => {},
        Dataset::Transactions => {
            keys.push(String::from_str("from"));
            keys.push(String::from_str("to"));
            keys.push(String::from_str("sighash"));
        },
        Dataset::Logs => {
            keys.push(String::from_str("address"));
            keys.push(String::from_str("topic0"));
            keys.push(String::from_str("topic1"));
            keys.push(String::from_str("topic2"));
            keys.push(String::from_str("topic3"));
        },
    }
    assert(texts(keys@) =~= legal_option_keys(dataset));
    Some(keys)
}

} // verus!
