//! The query sent to the archive, the reading of its response, and the
//! cutting of the records into chunks of bounded size.

use crate::cli::config::{options_map, Dataset, FilterOption, FilterOptions, Range};
use crate::json::{
    json_as_unsigned, json_bool, json_encoded_len, json_encoded_size, json_get, json_into_list,
    json_list, json_map_insert, json_map_new, json_member, json_members, json_object, json_of,
    json_parse, json_parsed, json_seq, json_text, json_unsigned, Json, JsonMap, JsonNumber,
};
use crate::text::texts;
use crate::utils::{
    lemma_progress_at_the_ends, lemma_progress_is_monotone, normalize_progess, normalized_progress,
};
use serde_json::Value;
use vstd::pervasive::unreached;
use vstd::prelude::*;
use vstd::string::StringExecFns;

verus! {

/// The largest number of encoded bytes that a chunk holds, unless one record
/// alone is larger.
pub const MAX_CHUNK_SIZE: usize = 10 * 1024 * 1024;

/// Why no query could be built.
#[derive(Debug, PartialEq, Eq, Clone, Copy, Structural)]
pub enum QueryError {
    /// Queries for this dataset are not implemented.
    NotImplemented,
}

impl QueryError {
    /// The error in words.
    pub fn message(&self) -> (text: String)
        ensures
            text@ == "Logs dataset handling not implemented"@,
    {
        String::from_str("Logs dataset handling not implemented")
    }
}

/// The selector that switches on each of the named fields: `true` under each
/// name and nothing else.
pub open spec fn selector(fields: Seq<Seq<char>>) -> Map<Seq<char>, Json> {
    Map::new(|name: Seq<char>| fields.contains(name), |name: Seq<char>| Json::Bool(true))
}

/// The JSON array of the strings of `values`.
pub open spec fn text_list(values: Seq<Seq<char>>) -> Json {
    Json::List(values.map_values(|text: Seq<char>| Json::Text(text)))
}

/// The option object of a query: each option key with the array of its
/// values.
pub open spec fn options_object(options: Map<Seq<char>, Seq<Seq<char>>>) -> Json {
    Json::Object(options.map_values(|values: Seq<Seq<char>>| text_list(values)))
}

/// The body of the query for the records of a dataset from a height on.
///
/// It selects exactly the requested fields, starts at `start_block` and asks
/// for every block, also those without matching records. A query for
/// transactions carries an empty block selector, and the filter options as a
/// list of one option object. There is no query for logs.
pub open spec fn query_model(
    dataset: Dataset,
    start_block: u64,
    fields: Seq<Seq<char>>,
    options: Map<Seq<char>, Seq<Seq<char>>>,
) -> Option<Json> {
    match dataset {
        Dataset::Blocks => Some(
            Json::Object(
                map![
                    "fields"@ => Json::Object(map!["block"@ => Json::Object(selector(fields))]),
                    "fromBlock"@ => Json::Number(JsonNumber::Unsigned(start_block)),
                    "includeAllBlocks"@ => Json::Bool(true),
                ],
            ),
        ),
        Dataset::Transactions => Some(
            Json::Object(
                map![
                    "transactions"@ => Json::List(seq![options_object(options)]),
                    "fields"@ => Json::Object(
                        map![
                            "block"@ => Json::Object(Map::empty()),
                            "transaction"@ => Json::Object(selector(fields)),
                        ],
                    ),
                    "fromBlock"@ => Json::Number(JsonNumber::Unsigned(start_block)),
                    "includeAllBlocks"@ => Json::Bool(true),
                ],
            ),
        ),
        Dataset::Logs => None,
    }
}

/// The selector object of a list of fields.
pub fn field_selector(fields: &Vec<String>) -> (value: Value)
    ensures
        json_of(value) == Json::Object(selector(texts(fields@))),
{
    let mut members: JsonMap = json_map_new();
    let mut at: usize = 0;
    let ghost names = texts(fields@);
    assert(json_members(members) =~= selector(names.take(0)));
    while at < fields.len()
        invariant
            at <= fields@.len(),
            names == texts(fields@),
            json_members(members) == selector(names.take(at as int)),
        decreases fields@.len() - at,
    {
        let ghost before = json_members(members);
        json_map_insert(&mut members, fields[at].clone(), json_bool(true));
        proof {
            let name = names[at as int];
            assert(name == fields@[at as int]@);
            let shorter = names.take(at as int);
            let longer = names.take(at + 1);
            assert forall|other: Seq<char>| longer.contains(other) <==> (shorter.contains(other)
                || other == name) by {
                if longer.contains(other) {
                    let i = choose|i: int| 0 <= i < longer.len() && longer[i] == other;
                    if i < at {
                        assert(shorter[i] == other);
                    }
                }
                if shorter.contains(other) {
                    let i = choose|i: int| 0 <= i < shorter.len() && shorter[i] == other;
                    assert(longer[i] == other);
                }
                if other == name {
                    assert(longer[at as int] == other);
                }
            }
            assert(before.insert(name, Json::Bool(true)) =~= selector(longer));
        }
        at = at + 1;
    }
    assert(names.take(at as int) =~= names);
    json_object(members)
}

/// The JSON array of a list of strings.
fn text_array(values: &Vec<String>) -> (value: Value)
    ensures
        json_of(value) == text_list(texts(values@)),
{
    let mut items: Vec<Value> = Vec::new();
    let mut at: usize = 0;
    while at < values.len()
        invariant
            at <= values@.len(),
            json_seq(items@) =~= texts(values@).take(at as int).map_values(
                |text: Seq<char>| Json::Text(text),
            ),
        decreases values@.len() - at,
    {
        let ghost before = items@;
        let item: Value = json_text(values[at].clone());
        items.push(item);
        proof {
            assert(texts(values@)[at as int] == values@[at as int]@);
            assert(json_seq(items@) =~= json_seq(before).push(json_of(item)));
        }
        at = at + 1;
    }
    assert(texts(values@).take(at as int) =~= texts(values@));
    json_list(items)
}

/// The option object of the filter options.
pub fn options_value(options: &FilterOptions) -> (value: Value)
    ensures
        json_of(value) == options_object(options@),
{
    let mut members: JsonMap = json_map_new();
    let mut at: usize = 0;
    let ghost entries = options.entries@;
    assert(json_members(members) =~= options_map(entries.take(0)).map_values(
        |values: Seq<Seq<char>>| text_list(values),
    ));
    while at < options.entries.len()
        invariant
            at <= entries.len(),
            entries == options.entries@,
            json_members(members) == options_map(entries.take(at as int)).map_values(
                |values: Seq<Seq<char>>| text_list(values),
            ),
        decreases entries.len() - at,
    {
        let ghost before = json_members(members);
        let entry: &FilterOption = &options.entries[at];
        json_map_insert(&mut members, entry.key.clone(), text_array(&entry.values));
        proof {
            assert(entries.take(at + 1).drop_last() =~= entries.take(at as int));
            assert(before.insert(entry.key@, text_list(texts(entry.values@))) =~= options_map(
                entries.take(at + 1),
            ).map_values(|values: Seq<Seq<char>>| text_list(values)));
        }
        at = at + 1;
    }
    assert(entries.take(at as int) =~= entries);
    json_object(members)
}

/// Builds the body of the query for the records of a dataset from
/// `start_block` on.
///
/// Fails with `NotImplemented` for logs, and for them only.
pub fn create_query_json(
    dataset: Dataset,
    start_block: u64,
    fields: &Vec<String>,
    options: &FilterOptions,
) -> (query: Result<Value, QueryError>)
    ensures
        match query_model(dataset, start_block, texts(fields@), options@) {
            Some(model) => query matches Ok(value) && json_of(value) == model,
            None => query == Err::<Value, QueryError>(QueryError::NotImplemented),
        },
{
    match dataset {
        Dataset::Blocks => {
            let mut sections: JsonMap = json_map_new();
            json_map_insert(&mut sections, String::from_str("block"), field_selector(fields));
            let mut body: JsonMap = json_map_new();
            json_map_insert(&mut body, String::from_str("fields"), json_object(sections));
            json_map_insert(&mut body, String::from_str("fromBlock"), json_unsigned(start_block));
            json_map_insert(&mut body, String::from_str("includeAllBlocks"), json_bool(true));
            Ok(json_object(body))
        },
        Dataset::Transactions => {
            let mut filters: Vec<Value> = Vec::new();
            filters.push(options_value(options));
            assert(json_seq(filters@) =~= seq![options_object(options@)]);
            let mut sections: JsonMap = json_map_new();
            json_map_insert(&mut sections, String::from_str("block"), json_object(json_map_new()));
            json_map_insert(&mut sections, String::from_str("transaction"), field_selector(fields));
            let mut body: JsonMap = json_map_new();
            json_map_insert(&mut body, String::from_str("transactions"), json_list(filters));
            json_map_insert(&mut body, String::from_str("fields"), json_object(sections));
            json_map_insert(&mut body, String::from_str("fromBlock"), json_unsigned(start_block));
            json_map_insert(&mut body, String::from_str("includeAllBlocks"), json_bool(true));
            Ok(json_object(body))
        },
        Dataset::Logs => Err(QueryError::NotImplemented),
    }
}

/// The number of bytes that a record takes when written as JSON text.
pub open spec fn encoded_size(record: Value) -> nat {
    json_encoded_len(record)
}

/// The encoded sizes of the records of a batch, summed.
pub open spec fn batch_size(batch: Seq<Value>) -> nat
    decreases batch.len(),
{
    if batch.len() == 0 {
        0
    } else {
        batch_size(batch.drop_last()) + encoded_size(batch.last())
    }
}

/// The records of each batch of a list of batches.
pub open spec fn batch_views(batches: Seq<Vec<Value>>) -> Seq<Seq<Value>> {
    batches.map_values(|batch: Vec<Value>| batch@)
}

/// Whether `batches` is the cutting of `records` into chunks under a byte
/// budget: the batches hold the records in their order, none is empty, each
/// is within the budget unless it is a single record, and each is full, in
/// that the first record of the next would have taken it over the budget.
pub open spec fn is_chunking(batches: Seq<Seq<Value>>, records: Seq<Value>, budget: nat) -> bool {
    &&& batches.flatten() == records
    &&& forall|i: int| 0 <= i < batches.len() ==> (#[trigger] batches[i]).len() > 0
    &&& forall|i: int|
        0 <= i < batches.len() ==> (#[trigger] batches[i]).len() == 1 || batch_size(batches[i])
            <= budget
    &&& forall|i: int|
        0 <= i < batches.len() - 1 ==> batch_size(#[trigger] batches[i]) + encoded_size(
            batches[i + 1][0],
        ) > budget
}

/// What holds while records are being cut: `done` are the closed batches,
/// `current` is the batch being filled and `seen` the records taken so far.
pub open spec fn chunking_so_far(
    done: Seq<Seq<Value>>,
    current: Seq<Value>,
    seen: Seq<Value>,
    budget: nat,
) -> bool {
    &&& done.flatten() + current == seen
    &&& is_chunking(done, done.flatten(), budget)
    &&& current.len() <= 1 || batch_size(current) <= budget
    &&& done.len() > 0 ==> current.len() > 0 && batch_size(done.last()) + encoded_size(current[0])
        > budget
}

/// A record that fits joins the batch being filled.
proof fn lemma_record_joins(
    done: Seq<Seq<Value>>,
    current: Seq<Value>,
    seen: Seq<Value>,
    budget: nat,
    record: Value,
)
    requires
        chunking_so_far(done, current, seen, budget),
        batch_size(current) + encoded_size(record) <= budget,
    ensures
        chunking_so_far(done, current.push(record), seen.push(record), budget),
        batch_size(current.push(record)) == batch_size(current) + encoded_size(record),
{
    assert(current.push(record).drop_last() =~= current);
    assert(done.flatten() + current.push(record) =~= seen.push(record));
}

/// A record that does not fit closes the batch being filled, where that
/// holds anything, and starts the next.
proof fn lemma_record_starts_batch(
    done: Seq<Seq<Value>>,
    current: Seq<Value>,
    seen: Seq<Value>,
    budget: nat,
    record: Value,
)
    requires
        chunking_so_far(done, current, seen, budget),
        batch_size(current) + encoded_size(record) > budget,
    ensures
        current.len() > 0 ==> chunking_so_far(
            done.push(current),
            seq![record],
            seen.push(record),
            budget,
        ),
        current.len() == 0 ==> chunking_so_far(done, seq![record], seen.push(record), budget),
        batch_size(seq![record]) == encoded_size(record),
{
    assert(seq![record].drop_last() =~= Seq::<Value>::empty());
    assert(batch_size(seq![record]) == encoded_size(record)) by {
        assert(batch_size(Seq::<Value>::empty()) == 0);
    }
    if current.len() > 0 {
        let closed = done.push(current);
        done.lemma_flatten_push(current);
        assert(closed.flatten() + seq![record] =~= seen.push(record));
        assert forall|i: int| 0 <= i < closed.len() - 1 implies batch_size(#[trigger] closed[i])
            + encoded_size(closed[i + 1][0]) > budget by {
            if i < done.len() - 1 {
                assert(closed[i] == done[i]);
                assert(closed[i + 1] == done[i + 1]);
            } else {
                assert(closed[i] == done.last());
                assert(closed[i + 1] == current);
            }
        }
        assert forall|i: int| 0 <= i < closed.len() implies (#[trigger] closed[i]).len() > 0 && (
        closed[i].len() == 1 || batch_size(closed[i]) <= budget) by {
            if i < done.len() {
                assert(closed[i] == done[i]);
            }
        }
        assert(is_chunking(closed, closed.flatten(), budget));
    } else {
        assert(done.flatten() + seq![record] =~= seen.push(record));
    }
}

/// At the end the batch being filled is closed too, where it holds anything.
proof fn lemma_last_batch(done: Seq<Seq<Value>>, current: Seq<Value>, seen: Seq<Value>, budget: nat)
    requires
        chunking_so_far(done, current, seen, budget),
    ensures
        current.len() > 0 ==> is_chunking(done.push(current), seen, budget),
        current.len() == 0 ==> is_chunking(done, seen, budget),
{
    if current.len() > 0 {
        let closed = done.push(current);
        done.lemma_flatten_push(current);
        assert forall|i: int| 0 <= i < closed.len() - 1 implies batch_size(#[trigger] closed[i])
            + encoded_size(closed[i + 1][0]) > budget by {
            if i < done.len() - 1 {
                assert(closed[i] == done[i]);
                assert(closed[i + 1] == done[i + 1]);
            } else {
                assert(closed[i] == done.last());
                assert(closed[i + 1] == current);
            }
        }
        assert forall|i: int| 0 <= i < closed.len() implies (#[trigger] closed[i]).len() > 0 && (
        closed[i].len() == 1 || batch_size(closed[i]) <= budget) by {
            if i < done.len() {
                assert(closed[i] == done[i]);
            }
        }
    } else {
        assert(done.flatten() + current =~= done.flatten());
    }
}

/// A batch is at least as large as each of its beginnings.
proof fn lemma_batch_size_grows(batch: Seq<Value>, shorter: int)
    requires
        0 <= shorter <= batch.len(),
    ensures
        batch_size(batch.take(shorter)) <= batch_size(batch),
    decreases batch.len() - shorter,
{
    if shorter < batch.len() {
        assert(batch.take(shorter + 1).drop_last() =~= batch.take(shorter));
        lemma_batch_size_grows(batch, shorter + 1);
    } else {
        assert(batch.take(shorter) =~= batch);
    }
}

/// What is left of a cutting when its first batch is taken away is a cutting
/// of the records that follow that batch.
proof fn lemma_rest_is_chunking(batches: Seq<Seq<Value>>, records: Seq<Value>, budget: nat)
    requires
        is_chunking(batches, records, budget),
        batches.len() > 0,
    ensures
        batches[0].len() <= records.len(),
        batches[0] == records.take(batches[0].len() as int),
        is_chunking(batches.drop_first(), records.skip(batches[0].len() as int), budget),
        batches.len() > 1 ==> batches[0].len() < records.len() && batches[1][0]
            == records[batches[0].len() as int],
{
    let first = batches[0];
    let rest = batches.drop_first();
    assert(batches.flatten() == first + rest.flatten());
    assert(first =~= records.take(first.len() as int));
    assert(rest.flatten() =~= records.skip(first.len() as int));
    assert forall|i: int| 0 <= i < rest.len() implies (#[trigger] rest[i]).len() > 0 && (
    rest[i].len() == 1 || batch_size(rest[i]) <= budget) by {
        assert(rest[i] == batches[i + 1]);
    }
    assert forall|i: int| 0 <= i < rest.len() - 1 implies batch_size(#[trigger] rest[i])
        + encoded_size(rest[i + 1][0]) > budget by {
        assert(rest[i] == batches[i + 1]);
        assert(rest[i + 1] == batches[i + 2]);
    }
    if batches.len() > 1 {
        assert(rest[0] == batches[1]);
        assert(rest.flatten() == rest[0] + rest.drop_first().flatten());
        assert(rest.flatten()[0] == rest[0][0]);
    }
}

/// The first batch of a cutting is no longer than that of another cutting
/// of the same records.
proof fn lemma_first_batch_is_no_longer(
    one: Seq<Seq<Value>>,
    other: Seq<Seq<Value>>,
    records: Seq<Value>,
    budget: nat,
)
    requires
        is_chunking(one, records, budget),
        is_chunking(other, records, budget),
        one.len() > 0,
        other.len() > 0,
    ensures
        one[0].len() <= other[0].len(),
{
    lemma_rest_is_chunking(one, records, budget);
    lemma_rest_is_chunking(other, records, budget);
    let long = one[0];
    let short = other[0];
    if short.len() < long.len() {
        let next = records[short.len() as int];
        if other.len() == 1 {
            other.lemma_flatten_one_element();
        }
        assert(other.len() > 1);
        assert(other[1][0] == next);
        let longer = short.len() as int + 1;
        assert(long.take(longer).drop_last() =~= short);
        assert(long.take(longer).last() == next);
        lemma_batch_size_grows(long, longer);
    }
}

/// A cutting has no batch exactly where there is no record.
proof fn lemma_no_batch_no_record(batches: Seq<Seq<Value>>, records: Seq<Value>, budget: nat)
    requires
        is_chunking(batches, records, budget),
    ensures
        (batches.len() == 0) == (records.len() == 0),
{
    if batches.len() > 0 {
        lemma_rest_is_chunking(batches, records, budget);
        assert(batches[0].len() > 0);
    }
}

/// Two cuttings of the same records begin with the same batch.
proof fn lemma_first_batches_agree(
    one: Seq<Seq<Value>>,
    other: Seq<Seq<Value>>,
    records: Seq<Value>,
    budget: nat,
)
    requires
        is_chunking(one, records, budget),
        is_chunking(other, records, budget),
        one.len() > 0,
        other.len() > 0,
    ensures
        one[0] == other[0],
        is_chunking(one.drop_first(), records.skip(one[0].len() as int), budget),
        is_chunking(other.drop_first(), records.skip(one[0].len() as int), budget),
{
    lemma_first_batch_is_no_longer(one, other, records, budget);
    lemma_first_batch_is_no_longer(other, one, records, budget);
    lemma_rest_is_chunking(one, records, budget);
    lemma_rest_is_chunking(other, records, budget);
}

/// The records and the budget decide the cutting: there is one only.
pub proof fn lemma_chunking_is_unique(
    one: Seq<Seq<Value>>,
    other: Seq<Seq<Value>>,
    records: Seq<Value>,
    budget: nat,
)
    requires
        is_chunking(one, records, budget),
        is_chunking(other, records, budget),
    ensures
        one == other,
    decreases one.len(),
{
    lemma_no_batch_no_record(one, records, budget);
    lemma_no_batch_no_record(other, records, budget);
    if one.len() == 0 {
        assert(one =~= other);
    } else {
        lemma_first_batches_agree(one, other, records, budget);
        lemma_chunking_is_unique(
            one.drop_first(),
            other.drop_first(),
            records.skip(one[0].len() as int),
            budget,
        );
        lemma_first_and_rest(one);
        lemma_first_and_rest(other);
    }
}

/// A sequence that is not empty is its first element before the others.
proof fn lemma_first_and_rest(batches: Seq<Seq<Value>>)
    requires
        batches.len() > 0,
    ensures
        batches == seq![batches[0]] + batches.drop_first(),
{
    assert(batches =~= seq![batches[0]] + batches.drop_first());
}

/// Cuts a list of records into chunks of at most `budget` encoded bytes.
///
/// A record is added to the running chunk unless that would take the chunk
/// over the budget; then the chunk is closed first. A record that alone is
/// over the budget therefore gets a chunk of its own.
pub fn chunk_records(records: Vec<Value>, budget: usize) -> (batches: Vec<Vec<Value>>)
    ensures
        is_chunking(batch_views(batches@), records@, budget as nat),
{
    let mut batches: Vec<Vec<Value>> = Vec::new();
    let mut current: Vec<Value> = Vec::new();
    let mut current_size: usize = 0;
    let ghost all = records@;
    proof {
        assert(batch_views(batches@) =~= Seq::<Seq<Value>>::empty());
        assert(Seq::<Seq<Value>>::empty().flatten() =~= Seq::<Value>::empty());
        assert(all.take(0) =~= Seq::<Value>::empty());
        assert(batch_views(batches@).flatten() + current@ =~= all.take(0));
    }
    for record in it: records.into_iter()
        invariant
            it.seq() == all,
            all == records@,
            chunking_so_far(
                batch_views(batches@),
                current@,
                all.take(it.index() as int),
                budget as nat,
            ),
            current_size == batch_size(current@),
    {
        let ghost done = batch_views(batches@);
        let ghost filling = current@;
        let ghost seen = all.take(it.index() as int);
        proof {
            assert(all.take(it.index() + 1) =~= seen.push(record));
            assert(all[it.index() as int] == record);
        }
        let size: usize = match json_encoded_size(&record) {
            Some(size) => size,
            None => unreached(),
        };
        let fits: Option<usize> = match current_size.checked_add(size) {
            Some(sum) => if sum <= budget {
                Some(sum)
            } else {
                None
            },
            None => None,
        };
        match fits {
            Some(sum) => {
                proof {
                    lemma_record_joins(done, filling, seen, budget as nat, record);
                }
                current.push(record);
                current_size = sum;
            },
            None => {
                proof {
                    lemma_record_starts_batch(done, filling, seen, budget as nat, record);
                }
                if current.len() > 0 {
                    batches.push(current);
                    assert(batch_views(batches@) =~= done.push(filling));
                    current = Vec::new();
                }
                current.push(record);
                assert(current@ =~= seq![record]);
                current_size = size;
            },
        }
    }
    proof {
        assert(all.take(all.len() as int) =~= all);
        lemma_last_batch(batch_views(batches@), current@, all, budget as nat);
    }
    if current.len() > 0 {
        let ghost done = batch_views(batches@);
        batches.push(current);
        assert(batch_views(batches@) =~= done.push(current@));
    }
    batches
}

/// Why a response of the archive could not be used.
#[derive(Debug, PartialEq, Eq, Clone, Copy, Structural)]
pub enum FetchError {
    /// The response is not JSON text.
    Malformed,
    /// The response is JSON, but not a list of records.
    NotAList,
    /// The response holds no record.
    Empty,
    /// The last record has no unsigned number under `header.number`.
    NoCursor,
    /// The last record is the block of the largest height there is.
    CursorOverflow,
}

/// The height of the block that a record belongs to: the unsigned number
/// under `number` in the record's `header`.
pub open spec fn block_number(record: Json) -> Option<u64> {
    match json_member(record, "header"@) {
        Some(header) => match json_member(header, "number"@) {
            Some(Json::Number(JsonNumber::Unsigned(number))) => Some(number),
            _ => None,
        },
        None => None,
    }
}

/// The height at which the next request starts: one more than the height of
/// the last record.
pub open spec fn next_height(records: Seq<Json>) -> Result<u64, FetchError> {
    if records.len() == 0 {
        Err(FetchError::Empty)
    } else {
        match block_number(records.last()) {
            None => Err(FetchError::NoCursor),
            Some(number) => if number == u64::MAX {
                Err(FetchError::CursorOverflow)
            } else {
                Ok((number + 1) as u64)
            },
        }
    }
}

/// Whether `chunk` is what a parsed response gives: its records, as they
/// are and in their order, with the height that follows them, or the reason
/// why there is none.
pub open spec fn is_chunk_of(response: Json, chunk: Result<(Vec<Value>, u64), FetchError>) -> bool {
    match response {
        Json::List(items) => match next_height(items) {
            Ok(height) => chunk matches Ok(found) && json_seq(found.0@) == items && found.1
                == height,
            Err(error) => chunk == Err::<(Vec<Value>, u64), FetchError>(error),
        },
        _ => chunk == Err::<(Vec<Value>, u64), FetchError>(FetchError::NotAList),
    }
}

/// The height at which the request after these records starts.
pub fn next_block(records: &Vec<Value>) -> (next: Result<u64, FetchError>)
    ensures
        next == next_height(json_seq(records@)),
{
    if records.len() == 0 {
        return Err(FetchError::Empty);
    }
    let last: &Value = &records[records.len() - 1];
    assert(json_seq(records@).last() == json_of(*last));
    let header: &Value = match json_get(last, "header") {
        Some(header) => header,
        None => return Err(FetchError::NoCursor),
    };
    let number: &Value = match json_get(header, "number") {
        Some(number) => number,
        None => return Err(FetchError::NoCursor),
    };
    match json_as_unsigned(number) {
        Some(height) => if height == u64::MAX {
            Err(FetchError::CursorOverflow)
        } else {
            Ok(height + 1)
        },
        None => Err(FetchError::NoCursor),
    }
}

/// Takes the records out of a parsed response and finds the height that
/// follows them.
pub fn read_response(response: Value) -> (chunk: Result<(Vec<Value>, u64), FetchError>)
    ensures
        is_chunk_of(json_of(response), chunk),
{
    let records: Vec<Value> = match json_into_list(response) {
        Some(records) => records,
        None => return Err(FetchError::NotAList),
    };
    match next_block(&records) {
        Ok(height) => Ok((records, height)),
        Err(error) => Err(error),
    }
}

/// Reads the text of a response: parses it as JSON, takes the records out and
/// finds the height that follows them.
pub fn parse_response(text: &str) -> (chunk: Result<(Vec<Value>, u64), FetchError>)
    ensures
        match json_parsed(text@) {
            Some(response) => is_chunk_of(json_of(response), chunk),
            None => chunk == Err::<(Vec<Value>, u64), FetchError>(FetchError::Malformed),
        },
{
    match json_parse(text) {
        Ok(response) => read_response(response),
        Err(_) => Err(FetchError::Malformed),
    }
}

/// What the fetch loop does after a chunk has been handed on.
#[derive(Debug, PartialEq, Eq, Clone, Copy, Structural)]
pub struct FetchStep {
    /// The progress to report, in percent.
    pub progress: u64,
    /// The height to fetch from next, or `None` once the range is done.
    pub next_start: Option<u64>,
}

/// The progress value that tells the progress display to stop waiting once
/// the fetch loop has ended.
pub const SHUTDOWN_PROGRESS: u64 = 0;

/// The step that follows a chunk: `next_block` is the height that follows
/// the records of the chunk.
///
/// The progress is that of `next_block` within the range of the run. The loop
/// ends once `next_block` lies beyond the end of the range.
pub fn block_loop_step(range: &Range, next_block: u64) -> (step: FetchStep)
    requires
        range.start < range.end,
    ensures
        step.progress == normalized_progress(
            range.start as int,
            range.end as int,
            next_block as int,
        ),
        step.next_start == (if next_block > range.end {
            None
        } else {
            Some(next_block)
        }),
        step.progress <= 100,
        step.next_start is None ==> step.progress == 100,
{
    proof {
        if next_block > range.end {
            lemma_progress_is_monotone(
                range.start as int,
                range.end as int,
                range.end as int,
                next_block as int,
            );
        }
        lemma_progress_at_the_ends(range.start as int, range.end as int, next_block as int);
    }
    let progress: u64 = normalize_progess(range.start, range.end, next_block);
    let next_start: Option<u64> = if next_block > range.end {
        None
    } else {
        Some(next_block)
    };
    FetchStep { progress, next_start }
}

/// The chunk that tells the writer that the stream has ended: one without
/// records.
pub fn shutdown_chunk() -> (chunk: Vec<Value>)
    ensures
        chunk@.len() == 0,
{
    Vec::new()
}

} // verus!
