use industryts_core::data::{contains_name, detect_among, names_other_than};
use industryts_core::frame::{column_type, ColumnType};
use industryts_core::text::find_text;
use industryts_core::{IndustrytsError, StringMap, TimeSeriesData, TimeSeriesMetadata};
use polars::prelude::{Column, DataFrame, DataType, IntoColumn, NamedFrom, Series, TimeUnit};

fn datetime_column(name: &str, millis: Vec<i64>) -> Column {
    Series::new(name.into(), millis)
        .cast(&DataType::Datetime(TimeUnit::Milliseconds, None))
        .unwrap()
        .into_column()
}

fn number_column(name: &str, values: &[f64]) -> Column {
    Series::new(name.into(), values).into_column()
}

fn names(list: &[&str]) -> Vec<String> {
    list.iter().map(|s| s.to_string()).collect()
}

#[test]
fn test_time_column_detection() {
    let dates_ms = vec![1704067200000i64, 1704153600000, 1704240000000];
    let df = DataFrame::new(vec![
        datetime_column("DateTime", dates_ms),
        number_column("value", &[10.0, 20.0, 30.0]),
    ])
    .unwrap();

    let detected = TimeSeriesData::detect_time_column(&df).unwrap();
    assert_eq!(detected, "DateTime");
}

#[test]
fn test_feature_columns() {
    let dates_ms = vec![1704067200000i64, 1704153600000, 1704240000000];
    let df = DataFrame::new(vec![
        datetime_column("DateTime", dates_ms),
        number_column("temp", &[10.0, 20.0, 30.0]),
        number_column("pressure", &[100.0, 200.0, 300.0]),
    ])
    .unwrap();

    let ts = TimeSeriesData::new(df, Some("DateTime")).unwrap();
    assert_eq!(ts.feature_columns(), &["temp", "pressure"]);
}

#[test]
fn test_metadata_tags() {
    let dates_ms = vec![1704067200000i64, 1704153600000];
    let df = DataFrame::new(vec![
        datetime_column("DateTime", dates_ms),
        number_column("value", &[10.0, 20.0]),
    ])
    .unwrap();

    let mut ts = TimeSeriesData::new(df, Some("DateTime")).unwrap();
    ts.add_tag("source".to_string(), "sensor".to_string());

    assert_eq!(ts.get_tag("source"), Some("sensor"));
}

#[test]
fn detection_prefers_the_earlier_canonical_name() {
    let found = detect_among(&names(&["value", "date", "timestamp", "Time"])).unwrap();
    assert_eq!(found, "timestamp");
    let found = detect_among(&names(&["Date", "date"])).unwrap();
    assert_eq!(found, "date");
    let found = detect_among(&names(&["a", "tagtime", "tagTime"])).unwrap();
    assert_eq!(found, "tagTime");
}

#[test]
fn detection_falls_back_to_the_first_column() {
    let found = detect_among(&names(&["when", "value"])).unwrap();
    assert_eq!(found, "when");
}

#[test]
fn detection_fails_without_columns() {
    let err = detect_among(&Vec::new()).unwrap_err();
    assert_eq!(err, IndustrytsError::TimeColumnNotFound("DataFrame is empty".to_string()));
    let err = TimeSeriesData::detect_time_column(&DataFrame::empty()).unwrap_err();
    assert_eq!(err, IndustrytsError::TimeColumnNotFound("DataFrame is empty".to_string()));
    assert!(matches!(
        TimeSeriesData::new(DataFrame::empty(), None),
        Err(IndustrytsError::TimeColumnNotFound(_))
    ));
}

#[test]
fn detection_on_a_table_without_canonical_names() {
    let df = DataFrame::new(vec![
        datetime_column("moment", vec![1, 2]),
        number_column("value", &[1.0, 2.0]),
    ])
    .unwrap();
    assert_eq!(TimeSeriesData::detect_time_column(&df).unwrap(), "moment");
    let ts = TimeSeriesData::new(df, None).unwrap();
    assert_eq!(ts.time_column(), "moment");
    assert_eq!(ts.feature_columns(), &["value"]);
}

#[test]
fn names_other_than_keeps_order() {
    let kept = names_other_than(&names(&["a", "t", "b", "t", "c"]), "t");
    assert_eq!(kept, names(&["a", "b", "c"]));
    let kept = names_other_than(&names(&["a", "b"]), "t");
    assert_eq!(kept, names(&["a", "b"]));
}

#[test]
fn time_column_in_the_middle_is_left_out() {
    let df = DataFrame::new(vec![
        number_column("temp", &[1.0, 2.0]),
        datetime_column("timestamp", vec![1, 2]),
        number_column("pressure", &[3.0, 4.0]),
    ])
    .unwrap();
    let ts = TimeSeriesData::new(df, None).unwrap();
    assert_eq!(ts.time_column(), "timestamp");
    assert_eq!(ts.feature_columns(), &["temp", "pressure"]);
    assert_eq!(ts.len(), 2);
    assert!(!ts.is_empty());
}

#[test]
fn missing_time_column_is_reported() {
    let df = DataFrame::new(vec![number_column("value", &[1.0])]).unwrap();
    let err = TimeSeriesData::new(df, Some("DateTime")).err().unwrap();
    assert_eq!(err, IndustrytsError::TimeColumnNotFound("DateTime".to_string()));
}

#[test]
fn non_temporal_time_column_is_rejected() {
    let df = DataFrame::new(vec![
        number_column("DateTime", &[1.0, 2.0]),
        number_column("value", &[1.0, 2.0]),
    ])
    .unwrap();
    let err = TimeSeriesData::new(df.clone(), Some("DateTime")).err().unwrap();
    assert_eq!(err, IndustrytsError::InvalidTimeColumnType("Float64".to_string()));
    let err = TimeSeriesData::new(df.clone(), None).err().unwrap();
    assert_eq!(err, IndustrytsError::InvalidTimeColumnType("Float64".to_string()));
    assert_eq!(
        TimeSeriesData::validate_time_column(&df, "value"),
        Err(IndustrytsError::InvalidTimeColumnType("Float64".to_string()))
    );
    assert_eq!(
        TimeSeriesData::validate_time_column(&df, "absent"),
        Err(IndustrytsError::TimeColumnNotFound("absent".to_string()))
    );
}

#[test]
fn date_column_is_accepted() {
    let days = Series::new("date".into(), vec![19000i32, 19001])
        .cast(&DataType::Date)
        .unwrap()
        .into_column();
    let df = DataFrame::new(vec![days, number_column("value", &[1.0, 2.0])]).unwrap();
    assert_eq!(TimeSeriesData::validate_time_column(&df, "date"), Ok(()));
    let ts = TimeSeriesData::new(df, None).unwrap();
    assert_eq!(ts.time_column(), "date");
}

#[test]
fn with_metadata_recomputes_the_feature_columns() {
    let df = DataFrame::new(vec![
        datetime_column("DateTime", vec![1, 2]),
        number_column("temp", &[1.0, 2.0]),
        number_column("pressure", &[3.0, 4.0]),
    ])
    .unwrap();
    let mut tags = StringMap::new();
    tags.insert("site".to_string(), "north".to_string());
    let metadata = TimeSeriesMetadata {
        time_column: "DateTime".to_string(),
        feature_columns: vec!["stale".to_string()],
        tags,
    };
    let ts = TimeSeriesData::with_metadata(df.clone(), metadata.clone()).unwrap();
    assert_eq!(ts.time_column(), "DateTime");
    assert_eq!(ts.feature_columns(), &["temp", "pressure"]);
    assert_eq!(ts.get_tag("site"), Some("north"));
    assert_eq!(ts.metadata().feature_columns, names(&["temp", "pressure"]));

    let wrong = TimeSeriesMetadata { time_column: "temp".to_string(), ..metadata.clone() };
    assert!(matches!(
        TimeSeriesData::with_metadata(df.clone(), wrong),
        Err(IndustrytsError::InvalidTimeColumnType(_))
    ));
    let absent = TimeSeriesMetadata { time_column: "nowhere".to_string(), ..metadata };
    assert_eq!(
        TimeSeriesData::with_metadata(df, absent).err(),
        Some(IndustrytsError::TimeColumnNotFound("nowhere".to_string()))
    );
}

#[test]
fn tags_are_replaced_and_cloned() {
    let df = DataFrame::new(vec![datetime_column("time", vec![1])]).unwrap();
    let mut ts = TimeSeriesData::new(df, None).unwrap();
    assert_eq!(ts.get_tag("source"), None);
    ts.add_tag("source".to_string(), "sensor".to_string());
    ts.add_tag("unit".to_string(), "bar".to_string());
    ts.add_tag("source".to_string(), "probe".to_string());
    assert_eq!(ts.get_tag("source"), Some("probe"));
    assert_eq!(ts.get_tag("unit"), Some("bar"));
    assert_eq!(ts.metadata().tags.len(), 2);
    assert!(ts.feature_columns().is_empty());

    let copy = ts.clone();
    assert_eq!(copy.time_column(), "time");
    assert_eq!(copy.get_tag("source"), Some("probe"));
    assert_eq!(copy.len(), 1);
    let (frame, metadata) = copy.into_parts();
    assert_eq!(frame.height(), 1);
    assert_eq!(metadata.time_column, "time");
    assert_eq!(ts.into_dataframe().width(), 1);
}

#[test]
fn a_table_without_rows_is_empty() {
    let df = DataFrame::new(vec![datetime_column("time", Vec::new())]).unwrap();
    let ts = TimeSeriesData::new(df, None).unwrap();
    assert_eq!(ts.len(), 0);
    assert!(ts.is_empty());
    assert_eq!(ts.dataframe().height(), 0);
}

#[test]
fn the_first_of_two_columns_of_one_name_decides() {
    let temporal_first = DataFrame::new_with_height(
        2,
        vec![
            datetime_column("DateTime", vec![1, 2]),
            number_column("DateTime", &[1.0, 2.0]),
            number_column("value", &[3.0, 4.0]),
        ],
    )
    .unwrap();
    assert_eq!(TimeSeriesData::validate_time_column(&temporal_first, "DateTime"), Ok(()));
    let ts = TimeSeriesData::new(temporal_first, None).unwrap();
    assert_eq!(ts.time_column(), "DateTime");
    assert_eq!(ts.feature_columns(), &["value"]);
    assert_eq!(ts.len(), 2);

    let number_first = DataFrame::new_with_height(
        2,
        vec![
            number_column("DateTime", &[1.0, 2.0]),
            datetime_column("DateTime", vec![1, 2]),
        ],
    )
    .unwrap();
    assert_eq!(
        TimeSeriesData::new(number_first, Some("DateTime")).err(),
        Some(IndustrytsError::InvalidTimeColumnType("Float64".to_string()))
    );
}

#[test]
fn find_text_gives_the_first_position() {
    let list = names(&["a", "b", "a", "c"]);
    assert_eq!(find_text(&list, "a"), Some(0));
    assert_eq!(find_text(&list, "c"), Some(3));
    assert_eq!(find_text(&list, "d"), None);
    assert_eq!(find_text(&Vec::new(), "a"), None);
    assert!(contains_name(&list, "b"));
    assert!(!contains_name(&list, "B"));
}

#[test]
fn column_type_is_that_of_the_named_column() {
    let days = Series::new("day".into(), vec![19000i32, 19001])
        .cast(&DataType::Date)
        .unwrap()
        .into_column();
    let df = DataFrame::new(vec![
        number_column("value", &[1.0, 2.0]),
        datetime_column("stamp", vec![1, 2]),
        days,
    ])
    .unwrap();
    assert_eq!(column_type(&df, "value"), Some(ColumnType::Other("Float64".to_string())));
    assert_eq!(column_type(&df, "stamp"), Some(ColumnType::Datetime));
    assert_eq!(column_type(&df, "day"), Some(ColumnType::Date));
    assert_eq!(column_type(&df, "absent"), None);
}
