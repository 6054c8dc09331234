//! Columns and tables of the `polars` library.
//!
//! The verifier cannot look inside a `Column` or a `DataFrame`. This module
//! names what they hold and states what the calls that make them do.
//! Everything in it that is marked `external_body` is believed, not proved.

use crate::export::fields::ColumnData;
use crate::text::texts;
use polars::prelude::{Column, DataFrame, PolarsError};
use vstd::prelude::*;

verus! {

/// `polars::prelude::Column`, a named column of a table. The verifier sees
/// nothing inside it.
#[verifier::external_type_specification]
#[verifier::external_body]
pub struct ExColumn(polars::prelude::Column);

/// `polars::prelude::DataFrame`, a table of columns of one height.
#[verifier::external_type_specification]
#[verifier::external_body]
pub struct ExDataFrame(polars::prelude::DataFrame);

/// `polars::prelude::PolarsError`, the reason why no table could be made.
#[verifier::external_type_specification]
#[verifier::external_body]
pub struct ExPolarsError(polars::prelude::PolarsError);

/// The name of a column.
pub uninterp spec fn column_name(column: Column) -> Seq<char>;

/// The values that a column of text or of unsigned numbers holds, in order.
pub uninterp spec fn column_values(column: Column) -> ColumnData;

/// The number of rows of a column.
pub uninterp spec fn column_height(column: Column) -> nat;

/// The columns of a table, in order.
pub uninterp spec fn frame_columns(frame: DataFrame) -> Seq<Column>;

/// Whether columns can stand side by side in one table: all are as high as
/// the first, and no two have the same name.
pub open spec fn columns_fit(columns: Seq<Column>) -> bool {
    &&& forall|i: int|
        0 <= i < columns.len() ==> column_height(#[trigger] columns[i]) == column_height(
            columns[0],
        )
    &&& forall|i: int, j: int|
        0 <= i < j < columns.len() ==> column_name(#[trigger] columns[i]) != column_name(
            #[trigger] columns[j],
        )
}

/// `Column::new` on a slice of strings: a column of text with the given name
/// and values. The library refuses a column of `u32::MAX` rows or more and a
/// string of more than `u32::MAX` bytes, so these are left out.
#[verifier::external_body]
pub(crate) fn text_column(name: &str, values: &Vec<String>) -> (column: Column)
    requires
        ColumnData::Text(texts(values@)).fits(),
    ensures
        column_name(column) == name@,
        column_values(column) == ColumnData::Text(texts(values@)),
        column_height(column) == values@.len(),
{
    Column::new(name.into(), values)
}

/// `Column::new` on a slice of `u64`: a column of unsigned numbers with the
/// given name and values. The library refuses a column of `u32::MAX` rows or
/// more, so these are left out.
#[verifier::external_body]
pub(crate) fn number_column(name: &str, values: &Vec<u64>) -> (column: Column)
    requires
        ColumnData::Number(values@).fits(),
    ensures
        column_name(column) == name@,
        column_values(column) == ColumnData::Number(values@),
        column_height(column) == values@.len(),
{
    Column::new(name.into(), values)
}

/// `DataFrame::new_infer_height`: the table of the given columns, in their
/// order. It is refused exactly where a column is not as high as the first
/// or two columns have one name.
#[verifier::external_body]
pub(crate) fn frame_of(columns: Vec<Column>) -> (made: Result<DataFrame, PolarsError>)
    ensures
        made is Ok <==> columns_fit(columns@),
        made matches Ok(frame) ==> frame_columns(frame) == columns@,
{
    DataFrame::new_infer_height(columns)
}

} // verus!
