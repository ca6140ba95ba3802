//! Composable pipelines of named operations over time-indexed tables.
//!
//! A [`TimeSeriesData`] wraps a polars table whose time column holds dates or
//! datetimes. An [`Operation`] turns one dataset into another; a [`Pipeline`] passes a
//! dataset through its operations in order, and with an [`ExecutionContext`] records
//! what each of them did. An [`OperationRegistry`] makes operations by name, and a
//! [`PipelineConfig`] describes a pipeline so that it can be saved and made again.

pub mod clock;
pub mod config;
pub mod context;
pub mod data;
pub mod error;
pub mod frame;
pub mod operation;
pub mod pipeline;
pub mod string_map;
pub mod text;

pub use config::{FillMethod, OperationConfig, PipelineConfig};
pub use context::{ExecutionContext, ExecutionSummary, OperationMetrics};
pub use data::{TimeSeriesData, TimeSeriesMetadata};
pub use error::IndustrytsError;
pub use operation::{ColumnOperation, Operation, OperationCategory, OperationMetadata};
pub use pipeline::{OperationInfo, OperationRegistry, Pipeline, PipelineBuilder};
pub use string_map::StringMap;
