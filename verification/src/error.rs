//! The failures that datasets, operations and pipelines report.

use vstd::prelude::*;

verus! {

/// A failure, tagged by its cause and carrying the name or text that identifies it.
#[derive(Debug, Clone, PartialEq, Eq)]
pub enum IndustrytsError {
    /// No column of the table carries the time column's name.
    TimeColumnNotFound(String),
    /// The time column exists but holds neither dates nor datetimes.
    InvalidTimeColumnType(String),
    /// A column that an operation names explicitly is absent from the table.
    ColumnNotFound(String),
    /// The operation is unknown, or known but not available.
    InvalidOperation(String),
    /// The pipeline has no declarative configuration to work with.
    ConfigError(String),
}

/// The mathematical value of an [`IndustrytsError`]: its cause and its text.
pub enum ErrorView {
    TimeColumnNotFound(Seq<char>),
    InvalidTimeColumnType(Seq<char>),
    ColumnNotFound(Seq<char>),
    InvalidOperation(Seq<char>),
    ConfigError(Seq<char>),
}

impl ErrorView {
    /// The text that the failure carries.
    pub open spec fn detail(self) -> Seq<char> {
        match self {
            ErrorView::TimeColumnNotFound(s) => s,
            ErrorView::InvalidTimeColumnType(s) => s,
            ErrorView::ColumnNotFound(s) => s,
            ErrorView::InvalidOperation(s) => s,
            ErrorView::ConfigError(s) => s,
        }
    }
}

impl View for IndustrytsError {
    type V = ErrorView;

    open spec fn view(&self) -> ErrorView {
        match self {
            IndustrytsError::TimeColumnNotFound(s) => ErrorView::TimeColumnNotFound(s@),
            IndustrytsError::InvalidTimeColumnType(s) => ErrorView::InvalidTimeColumnType(s@),
            IndustrytsError::ColumnNotFound(s) => ErrorView::ColumnNotFound(s@),
            IndustrytsError::InvalidOperation(s) => ErrorView::InvalidOperation(s@),
            IndustrytsError::ConfigError(s) => ErrorView::ConfigError(s@),
        }
    }
}

impl IndustrytsError {
    /// The column name, operation name or explanation that the failure carries.
    pub fn detail(&self) -> (r: &str)
        ensures
            r@ == self@.detail(),
    {
        match self {
            IndustrytsError::TimeColumnNotFound(s) => s.as_str(),
            IndustrytsError::InvalidTimeColumnType(s) => s.as_str(),
            IndustrytsError::ColumnNotFound(s) => s.as_str(),
            IndustrytsError::InvalidOperation(s) => s.as_str(),
            IndustrytsError::ConfigError(s) => s.as_str(),
        }
    }
}

} // verus!
