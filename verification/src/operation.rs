//! The operation: the unit of work that a pipeline applies to a dataset.

use crate::data::{DatasetView, TimeSeriesData};
use crate::error::{ErrorView, IndustrytsError};
use polars::prelude::DataFrame;
use vstd::prelude::*;

verus! {

/// The kind of work an operation does.
#[derive(Debug, Clone, Copy, PartialEq, Eq, Structural)]
pub enum OperationCategory {
    /// Cleaning and validation.
    DataQuality,
    /// Resampling and aggregation over time.
    Temporal,
    /// Feature engineering.
    Features,
    /// Transformation of values.
    Transform,
}

impl OperationCategory {
    /// The category's name in lower case, words joined by underscores.
    pub open spec fn label(self) -> Seq<char> {
        match self {
            OperationCategory::DataQuality => "data_quality"@,
            OperationCategory::Temporal => "temporal"@,
            OperationCategory::Features => "features"@,
            OperationCategory::Transform => "transform"@,
        }
    }

    /// The category's name as a string slice.
    pub fn as_str(&self) -> (r: &'static str)
        ensures
            r@ == self.label(),
    {
        match self {
            OperationCategory::DataQuality => "data_quality",
            OperationCategory::Temporal => "temporal",
            OperationCategory::Features => "features",
            OperationCategory::Transform => "transform",
        }
    }

    /// The category's name as an owned string.
    pub fn to_string(&self) -> (r: String)
        ensures
            r@ == self.label(),
    {
        self.as_str().to_owned()
    }
}

/// A description of an operation.
#[derive(Debug, Clone)]
pub struct OperationMetadata {
    /// Name of the operation.
    pub name: String,
    /// What the operation does.
    pub description: String,
    /// Version of the operation.
    pub version: String,
    /// Kind of work the operation does.
    pub category: OperationCategory,
}

/// The mathematical value of an [`OperationMetadata`].
pub struct MetadataView {
    pub name: Seq<char>,
    pub description: Seq<char>,
    pub version: Seq<char>,
    pub category: OperationCategory,
}

impl MetadataView {
    /// The description that an operation has unless it gives its own: its name, no
    /// description, version 1.0.0, category transform.
    pub open spec fn basic(name: Seq<char>) -> MetadataView {
        MetadataView {
            name,
            description: Seq::empty(),
            version: "1.0.0"@,
            category: OperationCategory::Transform,
        }
    }
}

impl View for OperationMetadata {
    type V = MetadataView;

    open spec fn view(&self) -> MetadataView {
        MetadataView {
            name: self.name@,
            description: self.description@,
            version: self.version@,
            category: self.category,
        }
    }
}

impl OperationMetadata {
    /// The description of an operation that says nothing of itself but its name.
    pub fn basic(name: &str) -> (r: Self)
        ensures
            r@ == MetadataView::basic(name@),
    {
        OperationMetadata {
            name: name.to_owned(),
            description: String::new(),
            version: "1.0.0".to_owned(),
            category: OperationCategory::Transform,
        }
    }
}

/// The mathematical value of what a check returns.
pub open spec fn verdict_view(r: Result<(), IndustrytsError>) -> Result<(), ErrorView> {
    match r {
        Ok(_) => Ok(()),
        Err(e) => Err(e@),
    }
}

/// A named transformation of a dataset. An operation takes the dataset over and
/// hands back the transformed one, or a failure; it keeps nothing of what it was given.
pub trait Operation: Send + Sync {
    /// Transforms the dataset, or fails.
    fn execute(&self, data: TimeSeriesData) -> (r: Result<TimeSeriesData, IndustrytsError>)
    ;

    /// The name under which the operation is recorded and reported.
    fn name(&self) -> (r: &str)
    ;

    /// Checks that the operation can be applied to the dataset. Unless an operation
    /// says otherwise, it can.
    fn validate(&self, data: &TimeSeriesData) -> (r: Result<(), IndustrytsError>)
        default_ensures
            r is Ok,
    {
        Ok(())
    }

    /// Describes the operation. Unless an operation says otherwise, the description
    /// is [`OperationMetadata::basic`] of its name.
    fn metadata(&self) -> (r: OperationMetadata)
        default_ensures
            exists|name: &str|
                call_ensures(Self::name, (self,), name) && r@ == MetadataView::basic(name@),
    {
        OperationMetadata::basic(self.name())
    }
}

/// Whether `execute` of `operation` can turn `before` into `after`.
pub open spec fn passes<T: Operation + ?Sized>(
    operation: &T,
    before: TimeSeriesData,
    after: TimeSeriesData,
) -> bool {
    call_ensures(T::execute, (operation, before), Ok(after))
}

/// Whether `execute` of `operation` can fail on `before` with `failure`.
pub open spec fn fails<T: Operation + ?Sized>(
    operation: &T,
    before: TimeSeriesData,
    failure: IndustrytsError,
) -> bool {
    call_ensures(T::execute, (operation, before), Err(failure))
}

/// Whether `name` of `operation` can return `text`.
pub open spec fn has_name<T: Operation + ?Sized>(operation: &T, text: Seq<char>) -> bool {
    exists|r: &str| call_ensures(T::name, (operation,), r) && r@ == text
}

/// A boxed operation is the operation in the box: each method hands on what the
/// method of the boxed operation returns for the same arguments.
impl<T: Operation + ?Sized> Operation for Box<T> {
    fn execute(&self, data: TimeSeriesData) -> (r: Result<TimeSeriesData, IndustrytsError>)
        ensures
            call_ensures(T::execute, (&**self, data), r),
    {
        (**self).execute(data)
    }

    fn name(&self) -> (r: &str)
        ensures
            call_ensures(T::name, (&**self,), r),
    {
        (**self).name()
    }

    fn validate(&self, data: &TimeSeriesData) -> (r: Result<(), IndustrytsError>)
        ensures
            call_ensures(T::validate, (&**self, data), r),
    {
        (**self).validate(data)
    }

    fn metadata(&self) -> (r: OperationMetadata)
        ensures
            call_ensures(T::metadata, (&**self,), r),
    {
        (**self).metadata()
    }
}

/// The first of `wanted` that is not one of `present`.
pub open spec fn first_missing(wanted: Seq<Seq<char>>, present: Seq<Seq<char>>) -> Option<
    Seq<char>,
>
    decreases wanted.len(),
{
    if wanted.len() == 0 {
        None
    } else if !present.contains(wanted[0]) {
        Some(wanted[0])
    } else {
        first_missing(wanted.drop_first(), present)
    }
}

/// The columns that an operation works on: those it names, or every feature column
/// when it names none.
pub open spec fn targets_in(named: Option<Seq<Seq<char>>>, data: DatasetView) -> Seq<Seq<char>> {
    match named {
        Some(columns) => columns,
        None => data.feature_columns,
    }
}

/// Whether every column that an operation names is a column of the table; if not, the
/// failure names the first that is not.
pub open spec fn columns_check(named: Option<Seq<Seq<char>>>, df: DataFrame) -> Result<
    (),
    ErrorView,
> {
    match named {
        None => Ok(()),
        Some(columns) => match first_missing(columns, crate::frame::frame_columns(df)) {
            None => Ok(()),
            Some(name) => Err(ErrorView::ColumnNotFound(name)),
        },
    }
}

/// The mathematical value of an optional list of column names.
pub open spec fn named_view(columns: Option<&[String]>) -> Option<Seq<Seq<char>>> {
    match columns {
        Some(names) => Some(crate::text::texts(names@)),
        None => None,
    }
}

/// The columns to work on: `columns` where given, else the dataset's feature columns.
pub fn target_columns(columns: Option<&[String]>, data: &TimeSeriesData) -> (r: Vec<String>)
    ensures
        crate::text::texts(r@) == targets_in(named_view(columns), data@),
{
    match columns {
        Some(names) => crate::text::copy_texts(names),
        None => crate::text::copy_texts(data.feature_columns()),
    }
}

/// Checks that each of `columns` is a column of `df`, in order, and names the first
/// that is not.
pub fn check_columns(columns: Option<&[String]>, df: &DataFrame) -> (r: Result<
    (),
    IndustrytsError,
>)
    ensures
        verdict_view(r) == columns_check(named_view(columns), *df),
{
    match columns {
        None => Ok(()),
        Some(names) => {
            let columns_present = crate::frame::column_names(df);
            let ghost wanted = crate::text::texts(names@);
            let ghost present = crate::frame::frame_columns(*df);
            let mut i: usize = 0;
            assert(wanted.skip(0) =~= wanted);
            while i < names.len()
                invariant
                    i <= names@.len(),
                    named_view(columns) == Some(wanted),
                    wanted == crate::text::texts(names@),
                    present == crate::frame::frame_columns(*df),
                    present == crate::text::texts(columns_present@),
                    first_missing(wanted, present) == first_missing(wanted.skip(i as int), present),
                decreases names@.len() - i,
            {
                proof {
                    assert(wanted.skip(i as int)[0] == names@[i as int]@);
                    assert(wanted.skip(i as int).drop_first() =~= wanted.skip(i + 1));
                }
                if !crate::data::contains_name(&columns_present, names[i].as_str()) {
                    return Err(IndustrytsError::ColumnNotFound(names[i].clone()));
                }
                i = i + 1;
            }
            assert(wanted.skip(names@.len() as int).len() == 0);
            Ok(())
        },
    }
}

/// An operation that works column by column, on the columns it names or on every
/// feature column.
pub trait ColumnOperation: Operation {
    /// The columns that the operation names; `None` stands for every feature column.
    fn columns(&self) -> (r: Option<&[String]>)
    ;

    /// The columns to work on in `data`: those that [`Self::columns`] returns, else
    /// the feature columns of `data`.
    fn get_target_columns(&self, data: &TimeSeriesData) -> (r: Vec<String>)
        default_ensures
            exists|named: Option<&[String]>|
                call_ensures(Self::columns, (self,), named) && crate::text::texts(r@) == targets_in(
                    named_view(named),
                    data@,
                ),
    {
        target_columns(self.columns(), data)
    }

    /// Checks that every column that [`Self::columns`] returns is a column of `data`,
    /// and names the first that is not.
    fn validate_columns(&self, data: &TimeSeriesData) -> (r: Result<(), IndustrytsError>)
        default_ensures
            exists|named: Option<&[String]>|
                call_ensures(Self::columns, (self,), named) && verdict_view(r) == columns_check(
                    named_view(named),
                    data@.frame,
                ),
    {
        check_columns(self.columns(), data.dataframe())
    }
}

} // verus!
