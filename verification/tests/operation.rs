use industryts_core::operation::{check_columns, target_columns};
use industryts_core::{
    ColumnOperation, IndustrytsError, Operation, OperationCategory, OperationMetadata,
    TimeSeriesData,
};
use polars::prelude::{Column, DataFrame, DataType, IntoColumn, NamedFrom, Series, TimeUnit};

fn sample() -> TimeSeriesData {
    let time: Column = Series::new("DateTime".into(), vec![1i64, 2, 3])
        .cast(&DataType::Datetime(TimeUnit::Milliseconds, None))
        .unwrap()
        .into_column();
    let temp: Column = Series::new("temp".into(), &[1.0, 2.0, 3.0]).into_column();
    let pressure: Column = Series::new("pressure".into(), &[4.0, 5.0, 6.0]).into_column();
    TimeSeriesData::new(DataFrame::new(vec![time, temp, pressure]).unwrap(), None).unwrap()
}

struct DummyOp;

impl Operation for DummyOp {
    fn execute(&self, data: TimeSeriesData) -> Result<TimeSeriesData, IndustrytsError> {
        Ok(data)
    }

    fn name(&self) -> &str {
        "dummy"
    }
}

struct Picky {
    columns: Option<Vec<String>>,
}

impl Operation for Picky {
    fn execute(&self, data: TimeSeriesData) -> Result<TimeSeriesData, IndustrytsError> {
        self.validate_columns(&data)?;
        Ok(data)
    }

    fn name(&self) -> &str {
        "picky"
    }
}

impl ColumnOperation for Picky {
    fn columns(&self) -> Option<&[String]> {
        self.columns.as_deref()
    }
}

#[test]
fn test_operation_category_display() {
    assert_eq!(OperationCategory::DataQuality.to_string(), "data_quality");
    assert_eq!(OperationCategory::Temporal.to_string(), "temporal");
    assert_eq!(OperationCategory::Features.to_string(), "features");
    assert_eq!(OperationCategory::Transform.to_string(), "transform");
}

#[test]
fn test_operation_metadata_default() {
    let op = DummyOp;
    let metadata = op.metadata();
    assert_eq!(metadata.name, "dummy");
    assert_eq!(metadata.version, "1.0.0");
}

#[test]
fn default_metadata_is_basic() {
    let metadata = DummyOp.metadata();
    assert_eq!(metadata.description, "");
    assert_eq!(metadata.category, OperationCategory::Transform);
    let basic = OperationMetadata::basic("lag");
    assert_eq!(basic.name, "lag");
    assert_eq!(basic.description, "");
    assert_eq!(basic.version, "1.0.0");
    assert_eq!(basic.category, OperationCategory::Transform);
    assert_eq!(OperationCategory::Features.as_str(), "features");
}

#[test]
fn default_validation_succeeds() {
    assert_eq!(DummyOp.validate(&sample()), Ok(()));
}

#[test]
fn target_columns_default_to_the_features() {
    let data = sample();
    let all = Picky { columns: None };
    assert_eq!(all.get_target_columns(&data), vec!["temp".to_string(), "pressure".to_string()]);
    let one = Picky { columns: Some(vec!["pressure".to_string()]) };
    assert_eq!(one.get_target_columns(&data), vec!["pressure".to_string()]);
    let named = vec!["x".to_string()];
    assert_eq!(target_columns(Some(&named), &data), named);
    assert_eq!(target_columns(None, &data).len(), 2);
}

#[test]
fn validate_columns_names_the_first_missing_column() {
    let data = sample();
    assert_eq!(Picky { columns: None }.validate_columns(&data), Ok(()));
    let present = Picky { columns: Some(vec!["temp".to_string(), "DateTime".to_string()]) };
    assert_eq!(present.validate_columns(&data), Ok(()));
    let missing = Picky {
        columns: Some(vec!["temp".to_string(), "humidity".to_string(), "wind".to_string()]),
    };
    assert_eq!(
        missing.validate_columns(&data),
        Err(IndustrytsError::ColumnNotFound("humidity".to_string()))
    );
    assert_eq!(
        missing.execute(sample()).err(),
        Some(IndustrytsError::ColumnNotFound("humidity".to_string()))
    );
    let wanted = vec!["wind".to_string()];
    assert_eq!(
        check_columns(Some(&wanted), data.dataframe()),
        Err(IndustrytsError::ColumnNotFound("wind".to_string()))
    );
    assert_eq!(check_columns(None, data.dataframe()), Ok(()));
    assert_eq!(check_columns(Some(&[]), data.dataframe()), Ok(()));
}

#[test]
fn error_detail_is_the_carried_text() {
    assert_eq!(IndustrytsError::ColumnNotFound("wind".to_string()).detail(), "wind");
    assert_eq!(IndustrytsError::TimeColumnNotFound("t".to_string()).detail(), "t");
    assert_eq!(IndustrytsError::InvalidTimeColumnType("Int64".to_string()).detail(), "Int64");
    assert_eq!(IndustrytsError::InvalidOperation("x".to_string()).detail(), "x");
    assert_eq!(IndustrytsError::ConfigError("none".to_string()).detail(), "none");
}
