//! What the library reads from a polars `DataFrame`: the names of its columns, the
//! type of the column at a position, and its height. A column is found by its name
//! among the names, first match first, whether or not the table's names are distinct.

use polars::prelude::{Column, DataFrame, DataType, PolarsError};
use vstd::prelude::*;

verus! {

/// A polars table. Its contents are known only through the functions of this file.
#[verifier::external_type_specification]
#[verifier::external_body]
pub struct ExDataFrame(DataFrame);

/// One column of a polars table. Nothing is said of what it holds; the type is declared
/// because `DataFrame` is indexed by it.
#[verifier::external_type_specification]
#[verifier::external_body]
pub struct ExColumn(Column);

/// The failure that polars reports. Nothing is said of what it holds; the type is
/// declared because the arithmetic of `Column` returns it.
#[verifier::external_type_specification]
#[verifier::external_body]
pub struct ExPolarsError(PolarsError);

/// The type of a column, as far as a time series cares: whether it holds dates,
/// datetimes or something else. `Other` carries the type as polars prints it.
#[derive(Debug, Clone, PartialEq, Eq)]
pub enum ColumnType {
    Date,
    Datetime,
    Other(String),
}

/// The mathematical value of a [`ColumnType`].
pub enum ColumnTypeView {
    Date,
    Datetime,
    Other(Seq<char>),
}

impl View for ColumnType {
    type V = ColumnTypeView;

    open spec fn view(&self) -> ColumnTypeView {
        match self {
            ColumnType::Date => ColumnTypeView::Date,
            ColumnType::Datetime => ColumnTypeView::Datetime,
            ColumnType::Other(text) => ColumnTypeView::Other(text@),
        }
    }
}

/// The names of the table's columns, in the table's own order.
pub uninterp spec fn frame_columns(df: DataFrame) -> Seq<Seq<char>>;

/// The number of the table's rows.
pub uninterp spec fn frame_height(df: DataFrame) -> nat;

/// The type of each of the table's columns, in the table's own order.
pub uninterp spec fn frame_types(df: DataFrame) -> Seq<ColumnTypeView>;

/// The type of the first column of the table that is called `name`, if there is one.
pub open spec fn frame_column_type(df: DataFrame, name: Seq<char>) -> Option<ColumnTypeView> {
    if frame_columns(df).contains(name) {
        Some(frame_types(df)[crate::text::first_position(frame_columns(df), name)])
    } else {
        None
    }
}

/// `DataFrame::get_column_names`: the name of every column, in the order in which the
/// table holds them, each copied into a `String`.
#[verifier::external_body]
pub(crate) fn column_names(df: &DataFrame) -> (r: Vec<String>)
    ensures
        crate::text::texts(r@) == frame_columns(*df),
{
    df.get_column_names().into_iter().map(|name| name.to_string()).collect()
}

/// `DataFrame::select_at_idx` followed by `Column::dtype`: the column at that position,
/// if the table has that many columns, and then its type.
#[verifier::external_body]
pub(crate) fn column_type_at(df: &DataFrame, index: usize) -> (r: Option<ColumnType>)
    ensures
        r is Some <==> index < frame_columns(*df).len(),
        r matches Some(t) ==> t@ == frame_types(*df)[index as int],
{
    match df.select_at_idx(index) {
        Some(column) => Some(
            match column.dtype() {
                DataType::Date => ColumnType::Date,
                DataType::Datetime(_, _) => ColumnType::Datetime,
                other => ColumnType::Other(format!("{:?}", other)),
            },
        ),
        None => None,
    }
}

/// The type of the first column of `df` that is called `name`, if there is one.
pub fn column_type(df: &DataFrame, name: &str) -> (r: Option<ColumnType>)
    ensures
        r is Some <==> frame_columns(*df).contains(name@),
        match r {
            Some(t) => frame_column_type(*df, name@) == Some(t@),
            None => frame_column_type(*df, name@) is None,
        },
{
    let names = column_names(df);
    match crate::text::find_text(&names, name) {
        Some(index) => column_type_at(df, index),
        None => None,
    }
}

/// `DataFrame::height`: the number of rows.
pub assume_specification[ DataFrame::height ](df: &DataFrame) -> (r: usize)
    ensures
        r == frame_height(*df),
;

/// `DataFrame::is_empty`: whether the table has no rows or no columns.
pub assume_specification[ DataFrame::is_empty ](df: &DataFrame) -> (r: bool)
    ensures
        r == (frame_height(*df) == 0 || frame_columns(*df).len() == 0),
;

/// Cloning a `DataFrame` gives a table with the same contents.
pub assume_specification[ <DataFrame as Clone>::clone ](df: &DataFrame) -> (r: DataFrame)
    ensures
        r == *df,
;

} // verus!
