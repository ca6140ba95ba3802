//! The declarative description of a pipeline: an ordered list of operation entries,
//! each with the parameters of its kind.

use vstd::prelude::*;

verus! {

/// How missing values are filled.
#[derive(Debug, Clone, Copy, PartialEq, Eq, Structural)]
pub enum FillMethod {
    /// With the last value before the gap.
    Forward,
    /// With the first value after the gap.
    Backward,
    /// With the mean of the column.
    Mean,
    /// With zero.
    Zero,
}

/// One entry of a pipeline description. `columns` names the columns to work on;
/// without it the operation works on every feature column.
#[derive(Debug, Clone, PartialEq, Eq)]
pub enum OperationConfig {
    /// Fill missing values.
    FillNull { method: FillMethod, columns: Option<Vec<String>> },
    /// Resample to another frequency.
    Resample { rule: String, aggregation: String, columns: Option<Vec<String>> },
    /// Add lagged copies of columns.
    Lag { periods: Vec<i32>, columns: Option<Vec<String>> },
    /// Scale columns to mean zero and standard deviation one.
    Standardize { columns: Option<Vec<String>> },
}

/// The description of a pipeline: its operations, in the order in which they run.
#[derive(Debug, Clone, PartialEq, Eq)]
pub struct PipelineConfig {
    pub operations: Vec<OperationConfig>,
}

} // verus!
