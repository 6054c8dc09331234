//! Folding a chunk of raw records into columns, and the columns into a table.

use crate::cli::config::Dataset;
use crate::export::fields::{
    catalog, create_field_data, declared_kind, first_unknown, lemma_catalog_is_declared,
    lemma_first_unknown_at, lemma_none_unknown, read_cell, reading_of, Cell, ColumnData,
    ColumnKind, ColumnRef, FieldData, FieldError, Reading,
};
use crate::export::frame::{
    column_height, column_name, column_values, columns_fit, frame_columns, frame_of, number_column,
    text_column,
};
use crate::json::{json_as_list, json_get, json_member, json_null, json_of, json_seq, Json};
use crate::text::{contains_text, text_eq, texts};
use polars::prelude::{Column, DataFrame};
use serde_json::Value;
use vstd::prelude::*;

verus! {

/// Why a chunk could not be made into a table.
#[derive(Debug)]
pub enum ExportError {
    /// The named field has no column: the schema does not declare it.
    NotFound(String),
    /// A record does not have the shape that the dataset's records have, or
    /// lacks the value of a required field.
    ResponseShape,
    /// A column is too large for a table: it has as many rows as the largest
    /// row index or more, or a text of more bytes than that.
    TooLarge,
    /// The columns do not make a table: two have one name, or they differ in
    /// height.
    Table,
}

/// An [`ExportError`] as a mathematical value.
pub enum ExportFault {
    NotFound(Seq<char>),
    ResponseShape,
    TooLarge,
    Table,
}

impl View for ExportError {
    type V = ExportFault;

    open spec fn view(&self) -> ExportFault {
        match self {
            ExportError::NotFound(name) => ExportFault::NotFound(name@),
            ExportError::ResponseShape => ExportFault::ResponseShape,
            ExportError::TooLarge => ExportFault::TooLarge,
            ExportError::Table => ExportFault::Table,
        }
    }
}

impl ExportError {
    /// What the failure to make a column means for the table: a field that
    /// the schema does not declare is not found, and every other failure is
    /// one of the records.
    pub fn of_field(error: FieldError) -> (failure: ExportError)
        ensures
            failure@ == (match error {
                FieldError::NotFound(name) => ExportFault::NotFound(name@),
                _ => ExportFault::ResponseShape,
            }),
    {
        match error {
            FieldError::NotFound(name) => ExportError::NotFound(name),
            _ => ExportError::ResponseShape,
        }
    }
}

/// The columns of one chunk, one for each field name: a mapping from field
/// name to column, kept as a list in which no two columns have one name.
///
/// A hash map keyed by `String` would hold the same, but vstd gives `String`
/// no key model (`obeys_key_model`), so nothing could be proved of its
/// contents.
#[derive(Debug)]
pub struct FieldSet {
    pub columns: Vec<FieldData>,
}

/// Whether `at` is the place of the first column of the named field.
pub open spec fn is_place_of(columns: Seq<FieldData>, name: Seq<char>, at: int) -> bool {
    &&& 0 <= at < columns.len()
    &&& columns[at].name() == name
    &&& forall|before: int| 0 <= before < at ==> (#[trigger] columns[before]).name() != name
}

/// The place of the column of the named field, where there is one.
pub open spec fn place_of(columns: Seq<FieldData>, name: Seq<char>) -> Option<int> {
    if exists|at: int| is_place_of(columns, name, at) {
        Some(choose|at: int| is_place_of(columns, name, at))
    } else {
        None
    }
}

/// No two places are the first place of one name.
pub proof fn lemma_place_is_unique(columns: Seq<FieldData>, name: Seq<char>, at: int)
    requires
        is_place_of(columns, name, at),
    ensures
        place_of(columns, name) == Some(at),
{
    let chosen = choose|at: int| is_place_of(columns, name, at);
    if chosen < at {
        assert(columns[chosen].name() != name);
    } else if chosen > at {
        assert(columns[at].name() != name);
    }
}

impl FieldSet {
    /// Whether no two columns belong to one field name.
    pub open spec fn names_differ(&self) -> bool {
        forall|i: int, j: int|
            0 <= i < j < self.columns@.len() ==> (#[trigger] self.columns@[i]).name() != (
            #[trigger] self.columns@[j]).name()
    }

    /// A set without columns.
    pub fn new() -> (set: FieldSet)
        ensures
            set.columns@.len() == 0,
            set.names_differ(),
    {
        FieldSet { columns: Vec::new() }
    }

    /// The place of the column of the named field, where the set has one.
    pub fn find(&self, name: &str) -> (found: Option<usize>)
        ensures
            match found {
                Some(at) => place_of(self.columns@, name@) == Some(at as int) && at
                    < self.columns@.len(),
                None => place_of(self.columns@, name@) is None,
            },
    {
        let mut at: usize = 0;
        while at < self.columns.len()
            invariant
                at <= self.columns@.len(),
                forall|before: int| 0 <= before < at ==> (#[trigger] self.columns@[before]).name() != name@,
            decreases self.columns@.len() - at,
        {
            if text_eq(self.columns[at].field_name(), name) {
                proof {
                    lemma_place_is_unique(self.columns@, name@, at as int);
                }
                return Some(at);
            }
            at = at + 1;
        }
        proof {
            assert forall|place: int| !is_place_of(self.columns@, name@, place) by {
                if 0 <= place < self.columns@.len() {
                    assert(self.columns@[place].name() != name@);
                }
            }
        }
        None
    }

    /// The column of the named field, where the set has one.
    pub fn get(&self, name: &str) -> (found: Option<&FieldData>)
        ensures
            match place_of(self.columns@, name@) {
                Some(at) => found matches Some(data) && *data == self.columns@[at],
                None => found is None,
            },
    {
        match self.find(name) {
            Some(at) => Some(&self.columns[at]),
            None => None,
        }
    }

    /// Puts a column into the set, in place of the one that the set has for
    /// the same field name, if any.
    pub fn insert(&mut self, data: FieldData)
        requires
            old(self).names_differ(),
        ensures
            final(self).names_differ(),
            final(self).columns@ == (match place_of(old(self).columns@, data.name()) {
                Some(at) => old(self).columns@.update(at, data),
                None => old(self).columns@.push(data),
            }),
    {
        let ghost before = self.columns@;
        match self.find(data.field_name()) {
            Some(at) => {
                self.columns.set(at, data);
                assert forall|i: int, j: int| 0 <= i < j < self.columns@.len() implies (
                #[trigger] self.columns@[i]).name() != (#[trigger] self.columns@[j]).name() by {
                    assert(before[i].name() != before[j].name());
                }
            },
            None => {
                self.columns.push(data);
                assert forall|i: int, j: int| 0 <= i < j < self.columns@.len() implies (
                #[trigger] self.columns@[i]).name() != (#[trigger] self.columns@[j]).name() by {
                    if j < before.len() {
                        assert(before[i].name() != before[j].name());
                    } else {
                        if before[i].name() == data.name() {
                            lemma_first_place_exists(before, data.name(), i);
                        }
                    }
                }
            },
        }
    }
}

/// Where some column has a name, some column is the first to have it.
pub proof fn lemma_first_place_exists(columns: Seq<FieldData>, name: Seq<char>, at: int)
    requires
        0 <= at < columns.len(),
        columns[at].name() == name,
    ensures
        place_of(columns, name) is Some,
    decreases at,
{
    if exists|before: int| 0 <= before < at && (#[trigger] columns[before]).name() == name {
        let before = choose|before: int|
            0 <= before < at && (#[trigger] columns[before]).name() == name;
        lemma_first_place_exists(columns, name, before);
    } else {
        assert(is_place_of(columns, name, at));
    }
}

/// The rows that lie in the list under `key` of a record: none where the
/// record has no such member, and `None` where the member is not a list.
pub open spec fn nested_rows(record: Json, key: Seq<char>) -> Option<Seq<Json>> {
    match json_member(record, key) {
        None => Some(Seq::empty()),
        Some(Json::List(rows)) => Some(rows),
        Some(_) => None,
    }
}

/// The rows that a record gives to the table of a dataset, or `None` for a
/// record that does not have the shape of the dataset's records. A block
/// record gives one row, its `header`; one without a header is misshapen. A
/// record of transactions gives one row for each entry of its list
/// `transactions`, and a record of logs one for each entry of its list
/// `logs`, whether or not the record has a header; a record without the list
/// gives no row, and one that has something else under that key is
/// misshapen.
pub open spec fn record_rows(dataset: Dataset, record: Json) -> Option<Seq<Json>> {
    match dataset {
        Dataset::Blocks => match json_member(record, "header"@) {
            Some(header) => Some(seq![header]),
            None => None,
        },
        Dataset::Transactions => nested_rows(record, "transactions"@),
        Dataset::Logs => nested_rows(record, "logs"@),
    }
}

/// Whether every record of a chunk has the shape of the dataset's records.
pub open spec fn records_shaped(dataset: Dataset, records: Seq<Json>) -> bool {
    forall|i: int| 0 <= i < records.len() ==> record_rows(dataset, #[trigger] records[i]) is Some
}

/// The raw value of a field in a row; a row without the field has null.
pub open spec fn row_value(row: Json, name: Seq<char>) -> Json {
    match json_member(row, name) {
        Some(value) => value,
        None => Json::Null,
    }
}

/// The cells of a field in a list of rows, or `None` where one of them
/// cannot be read.
pub open spec fn rows_cells(reading: Reading, name: Seq<char>, rows: Seq<Json>) -> Option<
    Seq<Cell>,
>
    decreases rows.len(),
{
    if rows.len() == 0 {
        Some(Seq::empty())
    } else {
        match (
            rows_cells(reading, name, rows.drop_last()),
            read_cell(reading, row_value(rows.last(), name)),
        ) {
            (Some(cells), Some(cell)) => Some(cells.push(cell)),
            _ => None,
        }
    }
}

/// The cells of a field in the rows of one record.
pub open spec fn record_cells(dataset: Dataset, reading: Reading, name: Seq<char>, record: Json) -> Option<
    Seq<Cell>,
> {
    match record_rows(dataset, record) {
        Some(rows) => rows_cells(reading, name, rows),
        None => None,
    }
}

/// The cells of a field in the rows of a chunk of records, record after
/// record, or `None` where a record is misshapen or a cell cannot be read.
pub open spec fn chunk_cells(
    dataset: Dataset,
    reading: Reading,
    name: Seq<char>,
    records: Seq<Json>,
) -> Option<Seq<Cell>>
    decreases records.len(),
{
    if records.len() == 0 {
        Some(Seq::empty())
    } else {
        match (
            chunk_cells(dataset, reading, name, records.drop_last()),
            record_cells(dataset, reading, name, records.last()),
        ) {
            (Some(earlier), Some(cells)) => Some(earlier + cells),
            _ => None,
        }
    }
}

/// Whether `after` is the column `before` with `cells` added at its end.
pub open spec fn extends(before: FieldData, after: FieldData, cells: Seq<Cell>) -> bool {
    &&& after.dataset() == before.dataset()
    &&& after.name() == before.name()
    &&& after.column() == before.column().with_all(cells)
}

/// Adding cells in two goes is adding them in one.
pub proof fn lemma_with_all_concat(column: ColumnData, first: Seq<Cell>, second: Seq<Cell>)
    ensures
        column.with_all(first + second) == column.with_all(first).with_all(second),
    decreases second.len(),
{
    if second.len() == 0 {
        assert(first + second =~= first);
    } else {
        assert((first + second).drop_last() =~= first + second.drop_last());
        lemma_with_all_concat(column, first, second.drop_last());
    }
}

/// Adding cells leaves the type of a column as it is.
pub proof fn lemma_with_all_kind(column: ColumnData, cells: Seq<Cell>)
    ensures
        column.with_all(cells).kind() == column.kind(),
    decreases cells.len(),
{
    if cells.len() > 0 {
        lemma_with_all_kind(column, cells.drop_last());
    }
}

/// One row gives one cell.
proof fn lemma_single_row(column: ColumnData, reading: Reading, name: Seq<char>, row: Json)
    ensures
        rows_cells(reading, name, seq![row]) == (match read_cell(reading, row_value(row, name)) {
            Some(cell) => Some(seq![cell]),
            None => None,
        }),
        forall|cell: Cell| column.with_all(seq![cell]) == column.with(cell),
{
    assert(seq![row].drop_last() =~= Seq::<Json>::empty());
    assert(seq![row].last() == row);
    assert(rows_cells(reading, name, Seq::<Json>::empty()) == Some(Seq::<Cell>::empty()));
    assert(column.with_all(Seq::<Cell>::empty()) == column);
    let cell = read_cell(reading, row_value(row, name));
    if cell is Some {
        assert(Seq::<Cell>::empty().push(cell->0) =~= seq![cell->0]);
    }
    assert forall|cell: Cell| column.with_all(seq![cell]) == column.with(cell) by {
        assert(seq![cell].drop_last() =~= Seq::<Cell>::empty());
    }
}

/// Once a row cannot be read, the rows cannot.
proof fn lemma_rows_fail(reading: Reading, name: Seq<char>, rows: Seq<Json>, upto: int)
    requires
        0 <= upto <= rows.len(),
        rows_cells(reading, name, rows.take(upto)) is None,
    ensures
        rows_cells(reading, name, rows) is None,
    decreases rows.len() - upto,
{
    if upto < rows.len() {
        assert(rows.take(upto + 1).drop_last() =~= rows.take(upto));
        lemma_rows_fail(reading, name, rows, upto + 1);
    } else {
        assert(rows.take(upto) =~= rows);
    }
}

/// Once a record cannot be read, the chunk cannot.
proof fn lemma_chunk_fails(
    dataset: Dataset,
    reading: Reading,
    name: Seq<char>,
    records: Seq<Json>,
    upto: int,
)
    requires
        0 <= upto <= records.len(),
        chunk_cells(dataset, reading, name, records.take(upto)) is None,
    ensures
        chunk_cells(dataset, reading, name, records) is None,
    decreases records.len() - upto,
{
    if upto < records.len() {
        assert(records.take(upto + 1).drop_last() =~= records.take(upto));
        lemma_chunk_fails(dataset, reading, name, records, upto + 1);
    } else {
        assert(records.take(upto) =~= records);
    }
}

/// Adds to a column the value that a row has for the column's field.
fn add_row(data: &mut FieldData, row: &Value) -> (done: Result<(), ExportError>)
    ensures
        match read_cell(old(data).reading(), row_value(json_of(*row), old(data).name())) {
            Some(cell) => done is Ok && old(data).grows_into(final(data), cell),
            None => done matches Err(ExportError::ResponseShape),
        },
{
    let name: &str = data.field_name();
    let added = match json_get(row, name) {
        Some(value) => data.add_value(value),
        None => {
            let absent: Value = json_null();
            data.add_value(&absent)
        },
    };
    match added {
        Ok(()) => Ok(()),
        Err(error) => Err(ExportError::of_field(error)),
    }
}

/// Adds to a column the values that the rows have for the column's field.
fn add_rows(data: &mut FieldData, rows: &Vec<Value>) -> (done: Result<(), ExportError>)
    ensures
        match rows_cells(old(data).reading(), old(data).name(), json_seq(rows@)) {
            Some(cells) => done is Ok && extends(*old(data), *final(data), cells),
            None => done matches Err(ExportError::ResponseShape),
        },
{
    let ghost models = json_seq(rows@);
    let ghost reading = data.reading();
    let ghost name = data.name();
    let ghost mut cells: Seq<Cell> = Seq::empty();
    let mut at: usize = 0;
    assert(models.take(0) =~= Seq::<Json>::empty());
    while at < rows.len()
        invariant
            at <= rows@.len(),
            models == json_seq(rows@),
            reading == old(data).reading(),
            name == old(data).name(),
            data.reading() == reading,
            rows_cells(reading, name, models.take(at as int)) == Some(cells),
            extends(*old(data), *data, cells),
        decreases rows@.len() - at,
    {
        proof {
            assert(models.take(at + 1).drop_last() =~= models.take(at as int));
            assert(models.take(at + 1).last() == json_of(rows@[at as int]));
        }
        let ghost before = *data;
        match add_row(data, &rows[at]) {
            Ok(()) => {
                proof {
                    let cell = read_cell(reading, row_value(json_of(rows@[at as int]), name))->0;
                    assert(cells.push(cell).drop_last() =~= cells);
                    cells = cells.push(cell);
                }
            },
            Err(error) => {
                proof {
                    lemma_rows_fail(reading, name, models, at + 1);
                }
                return Err(error);
            },
        }
        at = at + 1;
    }
    assert(models.take(at as int) =~= models);
    Ok(())
}

/// Adds to a column the values of the rows nested under `key` in a record.
fn add_nested(data: &mut FieldData, record: &Value, key: &str) -> (done: Result<(), ExportError>)
    ensures
        match nested_rows(json_of(*record), key@) {
            Some(rows) => match rows_cells(old(data).reading(), old(data).name(), rows) {
                Some(cells) => done is Ok && extends(*old(data), *final(data), cells),
                None => done matches Err(ExportError::ResponseShape),
            },
            None => done matches Err(ExportError::ResponseShape),
        },
{
    match json_get(record, key) {
        None => Ok(()),
        Some(nested) => match json_as_list(nested) {
            Some(rows) => add_rows(data, rows),
            None => Err(ExportError::ResponseShape),
        },
    }
}

/// Adds to a column the values that the rows of a record have for the
/// column's field.
fn add_record(data: &mut FieldData, dataset: Dataset, record: &Value) -> (done: Result<
    (),
    ExportError,
>)
    ensures
        match record_cells(dataset, old(data).reading(), old(data).name(), json_of(*record)) {
            Some(cells) => done is Ok && extends(*old(data), *final(data), cells),
            None => done matches Err(ExportError::ResponseShape),
        },
{
    match dataset {
        Dataset::Blocks => match json_get(record, "header") {
            Some(header) => {
                proof {
                    lemma_single_row(data.column(), data.reading(), data.name(), json_of(*header));
                }
                add_row(data, header)
            },
            None => Err(ExportError::ResponseShape),
        },
        Dataset::Transactions => add_nested(data, record, "transactions"),
        Dataset::Logs => add_nested(data, record, "logs"),
    }
}

/// Adds to a column the values that the rows of a chunk have for the
/// column's field.
fn add_chunk(data: &mut FieldData, dataset: Dataset, records: &Vec<Value>) -> (done: Result<
    (),
    ExportError,
>)
    ensures
        match chunk_cells(dataset, old(data).reading(), old(data).name(), json_seq(records@)) {
            Some(cells) => done is Ok && extends(*old(data), *final(data), cells),
            None => done matches Err(ExportError::ResponseShape),
        },
{
    let ghost models = json_seq(records@);
    let ghost reading = data.reading();
    let ghost name = data.name();
    let ghost mut cells: Seq<Cell> = Seq::empty();
    let mut at: usize = 0;
    assert(models.take(0) =~= Seq::<Json>::empty());
    while at < records.len()
        invariant
            at <= records@.len(),
            models == json_seq(records@),
            reading == old(data).reading(),
            name == old(data).name(),
            data.reading() == reading,
            chunk_cells(dataset, reading, name, models.take(at as int)) == Some(cells),
            extends(*old(data), *data, cells),
        decreases records@.len() - at,
    {
        proof {
            assert(models.take(at + 1).drop_last() =~= models.take(at as int));
            assert(models.take(at + 1).last() == json_of(records@[at as int]));
        }
        match add_record(data, dataset, &records[at]) {
            Ok(()) => {
                proof {
                    let added = record_cells(dataset, reading, name, json_of(records@[at as int]))->0;
                    lemma_with_all_concat(old(data).column(), cells, added);
                    cells = cells + added;
                    lemma_with_all_kind(old(data).column(), cells);
                }
            },
            Err(error) => {
                proof {
                    lemma_chunk_fails(dataset, reading, name, models, at + 1);
                }
                return Err(error);
            },
        }
        at = at + 1;
    }
    assert(models.take(at as int) =~= models);
    Ok(())
}

/// Whether a record has, under `key`, a list of rows or nothing.
fn has_nested(record: &Value, key: &str) -> (shaped: bool)
    ensures
        shaped == (nested_rows(json_of(*record), key@) is Some),
{
    match json_get(record, key) {
        None => true,
        Some(nested) => json_as_list(nested).is_some(),
    }
}

/// Whether a record has the shape of the dataset's records.
fn has_shape(dataset: Dataset, record: &Value) -> (shaped: bool)
    ensures
        shaped == (record_rows(dataset, json_of(*record)) is Some),
{
    match dataset {
        Dataset::Blocks => json_get(record, "header").is_some(),
        Dataset::Transactions => has_nested(record, "transactions"),
        Dataset::Logs => has_nested(record, "logs"),
    }
}

/// Whether every record of a chunk has the shape of the dataset's records.
fn all_shaped(dataset: Dataset, records: &Vec<Value>) -> (shaped: bool)
    ensures
        shaped == records_shaped(dataset, json_seq(records@)),
{
    let mut at: usize = 0;
    while at < records.len()
        invariant
            at <= records@.len(),
            forall|i: int|
                0 <= i < at ==> record_rows(dataset, #[trigger] json_seq(records@)[i]) is Some,
        decreases records@.len() - at,
    {
        assert(json_seq(records@)[at as int] == json_of(records@[at as int]));
        if !has_shape(dataset, &records[at]) {
            return false;
        }
        at = at + 1;
    }
    true
}

/// Whether `after` is the column `before` once a chunk has been folded into
/// it: with the cells of its field added where the field is among `fields`,
/// and as it was where it is not.
pub open spec fn is_filled(
    before: FieldData,
    after: FieldData,
    fields: Seq<Seq<char>>,
    dataset: Dataset,
    records: Seq<Json>,
) -> bool {
    if fields.contains(before.name()) {
        chunk_cells(dataset, before.reading(), before.name(), records) matches Some(cells)
            && extends(before, after, cells)
    } else {
        after == before
    }
}

/// Whether a chunk can be folded into a column: the column's field is not
/// among `fields`, or every record has the shape of the dataset and a
/// readable value for the field.
pub open spec fn can_fill(
    before: FieldData,
    fields: Seq<Seq<char>>,
    dataset: Dataset,
    records: Seq<Json>,
) -> bool {
    fields.contains(before.name()) ==> chunk_cells(
        dataset,
        before.reading(),
        before.name(),
        records,
    ) is Some
}

/// Folds a chunk of records into the columns of a set.
///
/// Each column whose field is among `fields` takes, record after record and
/// row after row, the value that the row has for the field. The other
/// columns stay as they are. Fails with `ResponseShape` where a record is
/// misshapen, whatever the fields, and where a row lacks a required value of
/// a field that is read.
pub fn process_json_object(
    json_data: Vec<Value>,
    field_map: FieldSet,
    fields: &Vec<String>,
    dataset: Dataset,
) -> (filled: Result<FieldSet, ExportError>)
    ensures
        match filled {
            Ok(set) => set.columns@.len() == field_map.columns@.len() && forall|j: int|
                0 <= j < set.columns@.len() ==> is_filled(
                    field_map.columns@[j],
                    #[trigger] set.columns@[j],
                    texts(fields@),
                    dataset,
                    json_seq(json_data@),
                ),
            Err(error) => error is ResponseShape,
        },
        filled is Ok <==> records_shaped(dataset, json_seq(json_data@)) && forall|j: int|
            0 <= j < field_map.columns@.len() ==> can_fill(
                #[trigger] field_map.columns@[j],
                texts(fields@),
                dataset,
                json_seq(json_data@),
            ),
        filled matches Ok(set) ==> (field_map.names_differ() ==> set.names_differ()),
{
    let ghost before = field_map.columns@;
    let ghost names = texts(fields@);
    let ghost records = json_seq(json_data@);
    if !all_shaped(dataset, &json_data) {
        return Err(ExportError::ResponseShape);
    }
    let mut set = field_map;
    let mut at: usize = 0;
    while at < set.columns.len()
        invariant
            at <= set.columns@.len(),
            set.columns@.len() == before.len(),
            before == field_map.columns@,
            names == texts(fields@),
            records == json_seq(json_data@),
            forall|j: int|
                0 <= j < at ==> is_filled(before[j], #[trigger] set.columns@[j], names, dataset, records),
            forall|j: int| at <= j < before.len() ==> #[trigger] set.columns@[j] == before[j],
        decreases set.columns@.len() - at,
    {
        if contains_text(fields, set.columns[at].field_name()) {
            match add_chunk(&mut set.columns[at], dataset, &json_data) {
                Ok(()) => {},
                Err(error) => {
                    assert(!can_fill(before[at as int], names, dataset, records));
                    return Err(error);
                },
            }
        }
        at = at + 1;
    }
    proof {
        assert forall|j: int| 0 <= j < before.len() implies can_fill(
            #[trigger] before[j],
            names,
            dataset,
            records,
        ) && set.columns@[j].name() == before[j].name() by {
            assert(is_filled(before[j], set.columns@[j], names, dataset, records));
        }
        if field_map.names_differ() {
            assert forall|i: int, j: int| 0 <= i < j < set.columns@.len() implies (
            #[trigger] set.columns@[i]).name() != (#[trigger] set.columns@[j]).name() by {
                assert(before[i].name() != before[j].name());
                assert(can_fill(before[i], names, dataset, records));
                assert(can_fill(before[j], names, dataset, records));
            }
        }
    }
    Ok(set)
}

/// Whether a table column is the column `data` under the name `name`.
pub open spec fn is_column_of(column: Column, name: Seq<char>, data: FieldData) -> bool {
    &&& column_name(column) == name
    &&& column_values(column) == data.column()
    &&& column_height(column) == data.column().len()
}

/// Whether a table column is, under the name `name`, the column that the
/// set has for that name.
pub open spec fn is_placed_column(columns: Seq<FieldData>, name: Seq<char>, column: Column) -> bool {
    place_of(columns, name) matches Some(at) && is_column_of(column, name, columns[at])
}

/// Whether the set has for `name` a column with the values `held`.
pub open spec fn holds_column(columns: Seq<FieldData>, name: Seq<char>, held: ColumnData) -> bool {
    place_of(columns, name) matches Some(at) && columns[at].column() == held
}

/// Why the set gives no table column for a field, if it gives none: it has
/// no column for the field, or the column is too large for a table.
pub open spec fn column_fault(columns: Seq<FieldData>, name: Seq<char>) -> Option<ExportFault> {
    match place_of(columns, name) {
        None => Some(ExportFault::NotFound(name)),
        Some(at) => if columns[at].column().fits() {
            None
        } else {
            Some(ExportFault::TooLarge)
        },
    }
}

/// Whether `at` is the place of the first name in `fields` for which the set
/// gives no table column.
pub open spec fn is_first_fault(columns: Seq<FieldData>, fields: Seq<Seq<char>>, at: int) -> bool {
    &&& 0 <= at < fields.len()
    &&& column_fault(columns, fields[at]) is Some
    &&& forall|before: int| 0 <= before < at ==> column_fault(columns, #[trigger] fields[before]) is None
}

/// Makes the table columns of the requested fields, in the order of the
/// request, each from the column that the set has for the field.
///
/// Fails on the first field for which the set gives no table column: with
/// `NotFound` where the set has no column for it, and with `TooLarge` where
/// the column is too large for a table.
pub fn create_columns_from_field_data(field_map: &FieldSet, fields: &Vec<String>) -> (made: Result<
    Vec<Column>,
    ExportError,
>)
    ensures
        match made {
            Ok(columns) => columns@.len() == fields@.len() && forall|i: int|
                0 <= i < fields@.len() ==> is_placed_column(
                    field_map.columns@,
                    fields@[i]@,
                    #[trigger] columns@[i],
                ) && column_fault(field_map.columns@, fields@[i]@) is None,
            Err(error) => exists|at: int|
                is_first_fault(field_map.columns@, texts(fields@), at) && Some(error@)
                    == column_fault(field_map.columns@, fields@[at]@),
        },
{
    let mut columns: Vec<Column> = Vec::new();
    let mut at: usize = 0;
    while at < fields.len()
        invariant
            at <= fields@.len(),
            columns@.len() == at,
            forall|i: int|
                0 <= i < at ==> is_placed_column(
                    field_map.columns@,
                    fields@[i]@,
                    #[trigger] columns@[i],
                ) && column_fault(field_map.columns@, fields@[i]@) is None,
        decreases fields@.len() - at,
    {
        let field: &str = fields[at].as_str();
        proof {
            assert forall|before: int| 0 <= before < at implies column_fault(
                field_map.columns@,
                #[trigger] texts(fields@)[before],
            ) is None by {
                assert(is_placed_column(field_map.columns@, fields@[before]@, columns@[before]));
            }
            assert(texts(fields@)[at as int] == field@);
        }
        let data: &FieldData = match field_map.get(field) {
            Some(data) => data,
            None => {
                assert(is_first_fault(field_map.columns@, texts(fields@), at as int));
                return Err(ExportError::NotFound(fields[at].clone()));
            },
        };
        let values: ColumnRef<'_> = data.values();
        if !values.fits() {
            assert(is_first_fault(field_map.columns@, texts(fields@), at as int));
            return Err(ExportError::TooLarge);
        }
        let column: Column = match values {
            ColumnRef::Text(values) => text_column(field, values),
            ColumnRef::Number(values) => number_column(field, values),
        };
        columns.push(column);
        at = at + 1;
    }
    Ok(columns)
}

/// The column that a chunk of records gives for a field of a dataset: the
/// cells of the field, row after row, in a column of the declared type.
/// `None` for a field that the schema does not declare, and where a record is
/// misshapen or lacks a required value.
pub open spec fn chunk_column(dataset: Dataset, name: Seq<char>, records: Seq<Json>) -> Option<
    ColumnData,
> {
    match declared_kind(dataset, name) {
        Some(kind) => match chunk_cells(dataset, reading_of(dataset, name, kind), name, records) {
            Some(cells) => Some(ColumnData::empty(kind).with_all(cells)),
            None => None,
        },
        None => None,
    }
}

/// Whether a table holds, for each field and in the order of the fields, the
/// column that the chunk gives for the field, under the field's name and as
/// high as the chunk has rows.
pub open spec fn is_table_of(
    frame: DataFrame,
    dataset: Dataset,
    fields: Seq<Seq<char>>,
    records: Seq<Json>,
) -> bool {
    &&& frame_columns(frame).len() == fields.len()
    &&& forall|i: int|
        0 <= i < fields.len() ==> column_name(#[trigger] frame_columns(frame)[i]) == fields[i]
            && chunk_column(dataset, fields[i], records) == Some(
            column_values(frame_columns(frame)[i]),
        ) && column_height(frame_columns(frame)[i]) == row_count(dataset, records)
}

/// The number of rows that a chunk gives to the table of a dataset.
pub open spec fn row_count(dataset: Dataset, records: Seq<Json>) -> nat
    decreases records.len(),
{
    if records.len() == 0 {
        0
    } else {
        row_count(dataset, records.drop_last()) + (match record_rows(dataset, records.last()) {
            Some(rows) => rows.len(),
            None => 0,
        })
    }
}

/// The type of the cells that a reading gives.
pub open spec fn kind_read(reading: Reading) -> ColumnKind {
    match reading {
        Reading::Text => ColumnKind::Text,
        _ => ColumnKind::Number,
    }
}

/// Whether every cell has the type `kind`.
pub open spec fn cells_of_kind(cells: Seq<Cell>, kind: ColumnKind) -> bool {
    forall|i: int| 0 <= i < cells.len() ==> ColumnData::empty(kind).admits(#[trigger] cells[i])
}

/// The cells of a list of rows are as many as the rows, and of the type that
/// the reading gives.
proof fn lemma_rows_cells_shape(reading: Reading, name: Seq<char>, rows: Seq<Json>)
    ensures
        rows_cells(reading, name, rows) matches Some(cells) ==> cells.len() == rows.len()
            && cells_of_kind(cells, kind_read(reading)),
    decreases rows.len(),
{
    if rows.len() > 0 {
        lemma_rows_cells_shape(reading, name, rows.drop_last());
    }
}

/// The cells of a chunk are as many as its rows, and of the type that the
/// reading gives.
proof fn lemma_chunk_cells_shape(
    dataset: Dataset,
    reading: Reading,
    name: Seq<char>,
    records: Seq<Json>,
)
    ensures
        chunk_cells(dataset, reading, name, records) matches Some(cells) ==> cells.len()
            == row_count(dataset, records) && cells_of_kind(cells, kind_read(reading)),
    decreases records.len(),
{
    if records.len() > 0 {
        lemma_chunk_cells_shape(dataset, reading, name, records.drop_last());
        match record_rows(dataset, records.last()) {
            Some(rows) => lemma_rows_cells_shape(reading, name, rows),
            None => {},
        }
    }
}

/// Cells of a column's type make the column longer by their number.
proof fn lemma_with_all_len(column: ColumnData, cells: Seq<Cell>)
    requires
        cells_of_kind(cells, column.kind()),
    ensures
        column.with_all(cells).len() == column.len() + cells.len(),
        column.with_all(cells).kind() == column.kind(),
    decreases cells.len(),
{
    if cells.len() > 0 {
        assert forall|i: int| 0 <= i < cells.drop_last().len() implies ColumnData::empty(
            column.kind(),
        ).admits(#[trigger] cells.drop_last()[i]) by {
            assert(cells.drop_last()[i] == cells[i]);
        }
        lemma_with_all_len(column, cells.drop_last());
        assert(ColumnData::empty(column.kind()).admits(cells[cells.len() - 1]));
    }
}

/// The column that a chunk gives for a field is as high as the chunk has
/// rows.
pub proof fn lemma_chunk_column_height(dataset: Dataset, name: Seq<char>, records: Seq<Json>)
    ensures
        chunk_column(dataset, name, records) matches Some(column) ==> column.len() == row_count(
            dataset,
            records,
        ),
{
    if chunk_column(dataset, name, records) is Some {
        let kind = declared_kind(dataset, name)->0;
        let reading = reading_of(dataset, name, kind);
        let cells = chunk_cells(dataset, reading, name, records)->0;
        lemma_chunk_cells_shape(dataset, reading, name, records);
        lemma_with_all_len(ColumnData::empty(kind), cells);
    }
}

/// Why a chunk gives no table of the requested fields, if it gives none: the
/// first field that the schema of the dataset does not declare; else a record
/// that is misshapen, or a row that lacks a required value of a requested
/// field; else a column that is too large for a table; else a field that is
/// requested twice.
pub open spec fn table_fault(dataset: Dataset, fields: Seq<Seq<char>>, records: Seq<Json>) -> Option<
    ExportFault,
> {
    match first_unknown(fields, dataset) {
        Some(name) => Some(ExportFault::NotFound(name)),
        None => if !records_shaped(dataset, records) || exists|i: int|
            0 <= i < fields.len() && chunk_column(dataset, #[trigger] fields[i], records) is None {
            Some(ExportFault::ResponseShape)
        } else if exists|i: int|
            0 <= i < fields.len() && !(chunk_column(dataset, #[trigger] fields[i], records)->0).fits() {
            Some(ExportFault::TooLarge)
        } else if !fields.no_duplicates() {
            Some(ExportFault::Table)
        } else {
            None
        },
    }
}

/// Makes the table of a chunk: one column for each requested field, in the
/// order of the request, holding the values that the rows of the chunk have
/// for the field.
///
/// Fails with `NotFound` on the first field that the schema of the dataset
/// does not declare; else with `ResponseShape` where a record is misshapen or
/// lacks a required value; else with `TooLarge` where a column has too many
/// rows or too long a text for a table; else with `Table` where a field is
/// requested twice.
pub fn blocks_to_dataframe(dataset: Dataset, json_data: Vec<Value>, fields: &Vec<String>) -> (table: Result<
    DataFrame,
    ExportError,
>)
    ensures
        match table_fault(dataset, texts(fields@), json_seq(json_data@)) {
            Some(fault) => table matches Err(error) && error@ == fault,
            None => table matches Ok(frame) && is_table_of(
                frame,
                dataset,
                texts(fields@),
                json_seq(json_data@),
            ),
        },
{
    let ghost names = texts(fields@);
    let ghost records = json_seq(json_data@);
    let mut set = FieldSet::new();
    let mut at: usize = 0;
    while at < fields.len()
        invariant
            at <= fields@.len(),
            names == texts(fields@),
            set.names_differ(),
            forall|before: int| 0 <= before < at ==> catalog(dataset).contains(#[trigger] names[before]),
            forall|before: int| 0 <= before < at ==> place_of(set.columns@, #[trigger] names[before]) is Some,
            forall|j: int|
                0 <= j < set.columns@.len() ==> is_fresh(#[trigger] set.columns@[j], dataset),
            forall|j: int|
                0 <= j < set.columns@.len() ==> names.contains((#[trigger] set.columns@[j]).name()),
        decreases fields@.len() - at,
    {
        assert(names[at as int] == fields@[at as int]@);
        let data: FieldData = match create_field_data(fields[at].as_str(), dataset) {
            Ok(data) => data,
            Err(error) => {
                proof {
                    lemma_first_unknown_at(names, dataset, at as int);
                }
                return Err(ExportError::of_field(error));
            },
        };
        let ghost before = set.columns@;
        set.insert(data);
        proof {
            lemma_insert_keeps_places(before, set.columns@, data);
            assert forall|earlier: int| 0 <= earlier < at + 1 implies place_of(
                set.columns@,
                #[trigger] names[earlier],
            ) is Some by {
                if earlier < at {
                    assert(place_of(before, names[earlier]) is Some);
                }
            }
        }
        at = at + 1;
    }
    proof {
        lemma_none_unknown(names, dataset);
    }
    let ghost fresh = set.columns@;
    let filled: FieldSet = match process_json_object(json_data, set, fields, dataset) {
        Ok(filled) => filled,
        Err(error) => {
            proof {
                if records_shaped(dataset, records) {
                    let j = choose|j: int|
                        0 <= j < fresh.len() && !can_fill(
                            #[trigger] fresh[j],
                            names,
                            dataset,
                            records,
                        );
                    let i = choose|i: int| 0 <= i < names.len() && names[i] == fresh[j].name();
                    lemma_catalog_is_declared(dataset, names[i]);
                    assert(chunk_column(dataset, names[i], records) is None);
                }
            }
            return Err(ExportError::ResponseShape);
        },
    };
    proof {
        assert forall|i: int| 0 <= i < names.len() implies chunk_column(
            dataset,
            #[trigger] names[i],
            records,
        ) is Some && holds_column(
            filled.columns@,
            names[i],
            chunk_column(dataset, names[i], records)->0,
        ) by {
            let place = place_of(fresh, names[i])->0;
            assert(is_place_of(fresh, names[i], place));
            assert(is_filled(fresh[place], filled.columns@[place], names, dataset, records));
            lemma_catalog_is_declared(dataset, names[i]);
            assert(is_place_of(filled.columns@, names[i], place)) by {
                assert forall|earlier: int| 0 <= earlier < place implies (
                #[trigger] filled.columns@[earlier]).name() != names[i] by {
                    assert(is_filled(fresh[earlier], filled.columns@[earlier], names, dataset, records));
                }
            }
            lemma_place_is_unique(filled.columns@, names[i], place);
        }
    }
    let columns: Vec<Column> = match create_columns_from_field_data(&filled, fields) {
        Ok(columns) => columns,
        Err(error) => {
            proof {
                let first = choose|first: int| is_first_fault(filled.columns@, names, first);
                assert(names[first] == fields@[first]@);
                assert(holds_column(
                    filled.columns@,
                    names[first],
                    chunk_column(dataset, names[first], records)->0,
                ));
                assert(!(chunk_column(dataset, names[first], records)->0).fits());
            }
            return Err(error);
        },
    };
    proof {
        assert forall|i: int| 0 <= i < names.len() implies column_name(#[trigger] columns@[i])
            == names[i] && chunk_column(dataset, names[i], records) == Some(
            column_values(columns@[i]),
        ) && column_height(columns@[i]) == row_count(dataset, records) && (chunk_column(
            dataset,
            names[i],
            records,
        )->0).fits() by {
            assert(names[i] == fields@[i]@);
            assert(chunk_column(dataset, names[i], records) is Some);
            assert(holds_column(
                filled.columns@,
                names[i],
                chunk_column(dataset, names[i], records)->0,
            ));
            lemma_chunk_column_height(dataset, names[i], records);
        }
        assert forall|i: int| 0 <= i < names.len() implies (chunk_column(
            dataset,
            #[trigger] names[i],
            records,
        )->0).fits() by {
            assert(column_name(columns@[i]) == names[i]);
        }
        if names.no_duplicates() {
            assert(columns_fit(columns@));
        } else {
            let (i, j) = choose|i: int, j: int|
                0 <= i < names.len() && 0 <= j < names.len() && i != j && names[i] == names[j];
            if i < j {
                assert(column_name(columns@[i]) == column_name(columns@[j]));
            } else {
                assert(column_name(columns@[j]) == column_name(columns@[i]));
            }
            assert(!columns_fit(columns@));
        }
    }
    match frame_of(columns) {
        Ok(frame) => Ok(frame),
        Err(_) => Err(ExportError::Table),
    }
}

/// Whether a column is as `create_field_data` makes it for its dataset and
/// field: of the declared type and without values.
pub open spec fn is_fresh(data: FieldData, dataset: Dataset) -> bool {
    &&& data.dataset() == dataset
    &&& declared_kind(dataset, data.name()) == Some(data.kind())
    &&& data.column() == ColumnData::empty(data.kind())
}

/// After a column has been put into a set, every name that had a place has
/// one, and so has the name of the column.
proof fn lemma_insert_keeps_places(before: Seq<FieldData>, after: Seq<FieldData>, data: FieldData)
    requires
        after == (match place_of(before, data.name()) {
            Some(at) => before.update(at, data),
            None => before.push(data),
        }),
    ensures
        place_of(after, data.name()) is Some,
        forall|name: Seq<char>| place_of(before, name) is Some ==> place_of(after, name) is Some,
        forall|j: int|
            0 <= j < after.len() ==> #[trigger] after[j] == data || (j < before.len() && after[j]
                == before[j]),
{
    match place_of(before, data.name()) {
        Some(at) => {
            assert(is_place_of(before, data.name(), at));
            assert(after[at] == data);
            lemma_first_place_exists(after, data.name(), at);
            assert forall|name: Seq<char>| place_of(before, name) is Some implies place_of(
                after,
                name,
            ) is Some by {
                let place = place_of(before, name)->0;
                assert(is_place_of(before, name, place));
                if place == at {
                    assert(after[place].name() == name);
                } else {
                    assert(after[place] == before[place]);
                }
                lemma_first_place_exists(after, name, place);
            }
        },
        None => {
            assert(after[before.len() as int] == data);
            lemma_first_place_exists(after, data.name(), before.len() as int);
            assert forall|name: Seq<char>| place_of(before, name) is Some implies place_of(
                after,
                name,
            ) is Some by {
                let place = place_of(before, name)->0;
                assert(is_place_of(before, name, place));
                assert(after[place] == before[place]);
                lemma_first_place_exists(after, name, place);
            }
        },
    }
}

} // verus!
