use industryts_core::pipeline::executor::{create_operation, step_metrics};
use industryts_core::{
    ExecutionContext, FillMethod, IndustrytsError, Operation, OperationConfig, Pipeline,
    PipelineBuilder, PipelineConfig, TimeSeriesData,
};
use polars::prelude::{Column, DataFrame, DataType, IntoColumn, NamedFrom, Series, TimeUnit};
use std::sync::atomic::{AtomicUsize, Ordering};
use std::time::Duration;

fn time_column(rows: usize) -> Column {
    let millis: Vec<i64> = (0..rows as i64).collect();
    Series::new("DateTime".into(), millis)
        .cast(&DataType::Datetime(TimeUnit::Milliseconds, None))
        .unwrap()
        .into_column()
}

fn sample() -> TimeSeriesData {
    let temp: Column = Series::new("temp".into(), &[1.0, 2.0, 3.0]).into_column();
    let pressure: Column = Series::new("pressure".into(), &[4.0, 5.0, 6.0]).into_column();
    TimeSeriesData::new(DataFrame::new(vec![time_column(3), temp, pressure]).unwrap(), None)
        .unwrap()
}

/// Drops the named column.
struct Drop(&'static str);

impl Operation for Drop {
    fn execute(&self, data: TimeSeriesData) -> Result<TimeSeriesData, IndustrytsError> {
        let (frame, metadata) = data.into_parts();
        let frame = frame
            .drop(self.0)
            .map_err(|_| IndustrytsError::ColumnNotFound(self.0.to_string()))?;
        TimeSeriesData::with_metadata(frame, metadata)
    }

    fn name(&self) -> &str {
        "drop"
    }
}

/// Keeps the first row only.
struct Head;

impl Operation for Head {
    fn execute(&self, data: TimeSeriesData) -> Result<TimeSeriesData, IndustrytsError> {
        let (frame, metadata) = data.into_parts();
        TimeSeriesData::with_metadata(frame.head(Some(1)), metadata)
    }

    fn name(&self) -> &str {
        "head"
    }
}

struct Fail;

impl Operation for Fail {
    fn execute(&self, _data: TimeSeriesData) -> Result<TimeSeriesData, IndustrytsError> {
        Err(IndustrytsError::InvalidOperation("fail".to_string()))
    }

    fn name(&self) -> &str {
        "fail"
    }
}

#[test]
fn test_pipeline_builder_creation() {
    let builder = PipelineBuilder::new();
    assert_eq!(builder.len(), 0);
    assert!(builder.is_empty());
}

#[test]
fn test_pipeline_builder_build() {
    let builder = PipelineBuilder::new();
    let pipeline = builder.build();
    assert_eq!(pipeline.len(), 0);
}

#[test]
fn test_empty_pipeline() {
    let pipeline = Pipeline::new();
    assert_eq!(pipeline.len(), 0);
    assert!(pipeline.is_empty());
}

#[test]
fn empty_pipeline_returns_the_dataset_unchanged() {
    let out = Pipeline::new().process(sample()).ok().unwrap();
    assert_eq!(out.time_column(), "DateTime");
    assert_eq!(out.feature_columns(), &["temp", "pressure"]);
    assert_eq!(out.len(), 3);
    assert!(out.dataframe().equals(sample().dataframe()));
    let default = Pipeline::default();
    assert!(default.is_empty());
}

#[test]
fn operations_run_in_the_order_added() {
    let mut builder = PipelineBuilder::new().add_operation(Box::new(Drop("temp")));
    builder.add_operation_mut(Box::new(Head));
    assert_eq!(builder.len(), 2);
    assert!(!builder.is_empty());
    let mut pipeline = builder.build();
    assert_eq!(pipeline.len(), 2);
    pipeline.add_operation(Box::new(Drop("pressure")));
    assert_eq!(pipeline.len(), 3);
    assert!(!pipeline.is_empty());
    let out = pipeline.process(sample()).ok().unwrap();
    assert_eq!(out.len(), 1);
    assert!(out.feature_columns().is_empty());
}

#[test]
fn the_first_failure_ends_the_run() {
    let pipeline = PipelineBuilder::new()
        .add_operation(Box::new(Drop("temp")))
        .add_operation(Box::new(Drop("temp")))
        .add_operation(Box::new(Fail))
        .build();
    assert_eq!(
        pipeline.process(sample()).err(),
        Some(IndustrytsError::ColumnNotFound("temp".to_string()))
    );
    let failing = PipelineBuilder::new()
        .add_operation(Box::new(Fail))
        .add_operation(Box::new(Head))
        .build();
    assert_eq!(
        failing.process_with_context(sample(), ExecutionContext::new()).err(),
        Some(IndustrytsError::InvalidOperation("fail".to_string()))
    );
}

#[test]
fn an_operation_cannot_lose_the_time_column() {
    let pipeline = PipelineBuilder::new().add_operation(Box::new(Drop("DateTime"))).build();
    assert_eq!(
        pipeline.process(sample()).err(),
        Some(IndustrytsError::TimeColumnNotFound("DateTime".to_string()))
    );
}

#[test]
fn context_records_one_entry_per_operation() {
    let pipeline = PipelineBuilder::new()
        .add_operation(Box::new(Drop("temp")))
        .add_operation(Box::new(Head))
        .build();
    let mut context = ExecutionContext::new();
    context.add_metadata("run".to_string(), "first".to_string());
    let (out, context) = pipeline.process_with_context(sample(), context).ok().unwrap();
    assert_eq!(out.len(), 1);
    assert_eq!(context.get_metadata("run"), Some("first"));
    let metrics = context.metrics();
    assert_eq!(metrics.len(), 2);
    assert_eq!(metrics[0].operation_name, "drop");
    assert_eq!(metrics[0].input_rows, 3);
    assert_eq!(metrics[0].output_rows, 3);
    assert_eq!(metrics[0].input_columns, 2);
    assert_eq!(metrics[0].output_columns, 1);
    assert_eq!(metrics[1].operation_name, "head");
    assert_eq!(metrics[1].input_rows, 3);
    assert_eq!(metrics[1].output_rows, 1);
    assert_eq!(metrics[1].input_columns, 1);
    assert_eq!(metrics[1].output_columns, 1);
    assert_eq!(context.total_rows_processed(), 3);
    assert_eq!(context.summary().total_operations, 2);

    let (_, context) = pipeline.process_with_context(sample(), context).ok().unwrap();
    assert_eq!(context.metrics().len(), 4);
    assert_eq!(context.metrics()[2].operation_name, "drop");
}

#[test]
fn empty_pipeline_records_nothing() {
    let (out, context) =
        Pipeline::new().process_with_context(sample(), ExecutionContext::new()).ok().unwrap();
    assert_eq!(out.len(), 3);
    assert_eq!(context.metrics().len(), 0);
}

#[test]
fn step_metrics_hold_what_was_counted() {
    let data = sample();
    let metrics = step_metrics("op", Duration::from_millis(250), 7, 5, &data);
    assert_eq!(metrics.operation_name, "op");
    assert_eq!(metrics.duration, Duration::from_millis(250));
    assert_eq!(metrics.input_rows, 7);
    assert_eq!(metrics.input_columns, 5);
    assert_eq!(metrics.output_rows, 3);
    assert_eq!(metrics.output_columns, 2);
    assert_eq!(metrics.throughput(), 28);
}

/// Stands for the operation that an entry asks for: it leaves the data alone and is
/// named after the entry's kind and parameters.
struct Configured(String);

impl Operation for Configured {
    fn execute(&self, data: TimeSeriesData) -> Result<TimeSeriesData, IndustrytsError> {
        Ok(data)
    }

    fn name(&self) -> &str {
        &self.0
    }
}

fn configured(entry: &OperationConfig) -> Box<dyn Operation> {
    let label = match entry {
        OperationConfig::FillNull { method, columns } => format!("fill_null {method:?} {columns:?}"),
        OperationConfig::Resample { rule, .. } => format!("resample {rule}"),
        OperationConfig::Lag { periods, columns } => format!("lag {periods:?} {columns:?}"),
        OperationConfig::Standardize { columns } => format!("standardize {columns:?}"),
    };
    Box::new(Configured(label))
}

fn description() -> PipelineConfig {
    PipelineConfig {
        operations: vec![
            OperationConfig::FillNull { method: FillMethod::Forward, columns: None },
            OperationConfig::Lag { periods: vec![1, 2], columns: Some(vec!["temp".to_string()]) },
            OperationConfig::Standardize { columns: None },
        ],
    }
}

#[test]
fn a_built_pipeline_has_no_description_to_save() {
    let pipeline = PipelineBuilder::new().add_operation(Box::new(Head)).build();
    assert_eq!(
        pipeline.to_config().err(),
        Some(IndustrytsError::ConfigError("Pipeline has no configuration to save".to_string()))
    );
    assert!(matches!(Pipeline::new().to_config(), Err(IndustrytsError::ConfigError(_))));
}

#[test]
fn a_pipeline_from_a_description_gives_the_description_back() {
    let pipeline = Pipeline::from_config(description(), configured).ok().unwrap();
    assert_eq!(pipeline.len(), 3);
    assert_eq!(pipeline.to_config(), Ok(&description()));
    let again = Pipeline::from_config(pipeline.to_config().unwrap().clone(), configured)
        .ok()
        .unwrap();
    assert_eq!(again.to_config(), Ok(&description()));
}

#[test]
fn a_description_gives_its_operations_in_order() {
    let pipeline = Pipeline::from_config(description(), configured).ok().unwrap();
    let (_, context) =
        pipeline.process_with_context(sample(), ExecutionContext::new()).ok().unwrap();
    let names: Vec<&str> = context.metrics().iter().map(|m| m.operation_name.as_str()).collect();
    assert_eq!(
        names,
        vec!["fill_null Forward None", "lag [1, 2] Some([\"temp\"])", "standardize None"]
    );
}

#[test]
fn a_pipeline_from_a_description_keeps_it_when_operations_are_added() {
    let mut pipeline = Pipeline::from_config(description(), configured).ok().unwrap();
    pipeline.add_operation(Box::new(Head));
    assert_eq!(pipeline.len(), 4);
    assert_eq!(pipeline.to_config(), Ok(&description()));
    assert_eq!(pipeline.process(sample()).ok().unwrap().len(), 1);
}

#[test]
fn an_empty_description_gives_an_empty_pipeline() {
    let empty = PipelineConfig { operations: Vec::new() };
    let pipeline = Pipeline::from_config(empty.clone(), configured).ok().unwrap();
    assert!(pipeline.is_empty());
    assert_eq!(pipeline.to_config(), Ok(&empty));
}

#[test]
fn resampling_is_not_available() {
    let calls = AtomicUsize::new(0);
    let counting = |entry: &OperationConfig| {
        calls.fetch_add(1, Ordering::SeqCst);
        configured(entry)
    };
    let config = PipelineConfig {
        operations: vec![
            OperationConfig::Standardize { columns: None },
            OperationConfig::Resample {
                rule: "1h".to_string(),
                aggregation: "mean".to_string(),
                columns: None,
            },
            OperationConfig::Standardize { columns: None },
        ],
    };
    let expected = IndustrytsError::InvalidOperation(
        "Resample operation is not yet implemented for Polars 0.51+".to_string(),
    );
    assert_eq!(Pipeline::from_config(config.clone(), &counting).err(), Some(expected.clone()));
    assert_eq!(calls.load(Ordering::SeqCst), 1);
    assert_eq!(create_operation(&config.operations[1], &counting).err(), Some(expected));
    assert_eq!(calls.load(Ordering::SeqCst), 1);
    let made = create_operation(&config.operations[0], &counting).ok().unwrap();
    assert_eq!(made.name(), "standardize None");
    assert_eq!(calls.load(Ordering::SeqCst), 2);
}
