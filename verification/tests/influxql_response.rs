use std::convert::TryFrom;

use chrono::{TimeZone, Utc};

use rinfluxdb::influxql::envelope::{Cell, IndexedOutcome, Response, Series};
use rinfluxdb::influxql::{from_str, ResponseError, TagsMap};
use rinfluxdb::json::JsonNumber;
use rinfluxdb::types::{Float64, Instant, NameMap, Value};

type TaggedDataFrames = Vec<(DummyDataFrame, Option<TagsMap>)>;

#[derive(Debug, PartialEq)]
struct DummyDataFrame {
    name: String,
    index: Vec<Instant>,
    columns: NameMap<Vec<Value>>,
}

impl TryFrom<(String, Vec<Instant>, NameMap<Vec<Value>>)> for DummyDataFrame {
    type Error = ResponseError;

    fn try_from(
        (name, index, columns): (String, Vec<Instant>, NameMap<Vec<Value>>),
    ) -> Result<Self, Self::Error> {
        Ok(Self { name, index, columns })
    }
}

fn dummy(
    name: String,
    index: Vec<Instant>,
    columns: NameMap<Vec<Value>>,
) -> Result<DummyDataFrame, ResponseError> {
    DummyDataFrame::try_from((name, index, columns))
}

fn number(value: f64) -> Cell {
    Cell::Number(JsonNumber::from_float(Float64::from_bits(value.to_bits())))
}

fn float(value: f64) -> Value {
    Value::Float(Float64::from_bits(value.to_bits()))
}

fn instant(year: i32, month: u32, day: u32, hour: u32, minute: u32, second: u32) -> Instant {
    let date = Utc.with_ymd_and_hms(year, month, day, hour, minute, second).unwrap();
    Instant::from_timestamp(date.timestamp(), date.timestamp_subsec_nanos()).unwrap()
}

#[test]
fn parse_error() -> Result<(), serde_json::Error> {
    let input = r#"{
            "error": "error parsing query: found EOF, expected FROM at line 1, char 9"
        }"#;
    let expected =
        Response::Error("error parsing query: found EOF, expected FROM at line 1, char 9".into());

    let actual: Response = Response::parse(input)?;
    assert_eq!(actual, expected);

    Ok(())
}

#[test]
fn parse_ok_inner_error() -> Result<(), serde_json::Error> {
    let input = r#"{
            "results": [
                {
                    "statement_id": 12,
                    "error": "database not found: mydb1"
                }
            ]
        }"#;
    let expected = Response::Results(vec![IndexedOutcome {
        statement_id: 12,
        series: None,
        error: Some("database not found: mydb1".into()),
    }]);

    let actual: Response = Response::parse(input)?;
    assert_eq!(actual, expected);

    Ok(())
}

fn mymeas_series() -> Series {
    Series {
        name: "mymeas".into(),
        columns: vec!["time".into(), "myfield".into(), "mytag1".into(), "mytag2".into()],
        values: vec![
            vec![Cell::String("2017-03-01T00:16:18Z".into()), number(33.1), Cell::Null, Cell::Null],
            vec![
                Cell::String("2017-03-01T00:17:18Z".into()),
                number(12.4),
                Cell::String("12".into()),
                Cell::String("14".into()),
            ],
        ],
        tags: None,
    }
}

#[test]
fn parse_ok_inner_second_error() -> Result<(), serde_json::Error> {
    let input = r#"{
            "results": [
                {
                    "statement_id": 15,
                    "series": [
                        {
                            "name": "mymeas",
                            "columns": ["time", "myfield", "mytag1", "mytag2"],
                            "values": [
                                ["2017-03-01T00:16:18Z", 33.1, null, null],
                                ["2017-03-01T00:17:18Z", 12.4, "12", "14"]
                            ]
                        }
                    ]
                },
                {
                    "statement_id": 12,
                    "error": "Other error"
                }
            ]
        }"#;
    let expected = Response::Results(vec![
        IndexedOutcome { statement_id: 15, series: Some(vec![mymeas_series()]), error: None },
        IndexedOutcome { statement_id: 12, series: None, error: Some("Other error".into()) },
    ]);

    let actual: Response = Response::parse(input)?;
    assert_eq!(actual, expected);

    Ok(())
}

#[test]
fn parse_ok() -> Result<(), serde_json::Error> {
    let input = r#"{
            "results": [
                {
                    "statement_id": 15,
                    "series": [
                        {
                            "name": "mymeas",
                            "columns": ["time","myfield","mytag1","mytag2"],
                            "values": [
                                ["2017-03-01T00:16:18Z",33.1,null,null],["2017-03-01T00:17:18Z",12.4,"12","14"]
                            ]
                        }
                    ]
                }
            ]
        }"#;
    let expected = Response::Results(vec![IndexedOutcome {
        statement_id: 15,
        series: Some(vec![mymeas_series()]),
        error: None,
    }]);

    let actual: Response = Response::parse(input)?;
    assert_eq!(actual, expected);

    Ok(())
}

#[test]
fn parse_ok_to_dataframe() -> Result<(), ResponseError> {
    let input = r#"{
            "results": [
                {
                    "statement_id": 15,
                    "series": [
                        {
                            "name":"mymeas",
                            "columns": ["time","myfield1","myfield2"],
                            "values": [
                                ["2017-03-01T00:16:18Z",33.1,12.5],["2017-03-01T00:17:18Z",12.4,12.7]
                            ]
                        }
                    ]
                }
            ]
        }"#;
    let mut expected = DummyDataFrame {
        name: "mymeas".into(),
        index: vec![instant(2017, 3, 1, 0, 16, 18), instant(2017, 3, 1, 0, 17, 18)],
        columns: NameMap::new(),
    };
    expected.columns.insert("myfield1".into(), vec![float(33.1), float(12.4)]);
    expected.columns.insert("myfield2".into(), vec![float(12.5), float(12.7)]);

    let actual_response: Vec<Result<TaggedDataFrames, ResponseError>> = from_str(input, dummy)?;
    let actual_dataframes: TaggedDataFrames = actual_response
        .into_iter()
        .next()
        .ok_or_else(|| ResponseError::ValueError("empty list".into()))??;

    let (actual_dataframe, actual_tags): (DummyDataFrame, Option<TagsMap>) = actual_dataframes
        .into_iter()
        .next()
        .ok_or_else(|| ResponseError::ValueError("empty list".into()))?;

    assert!(actual_tags.is_none());

    assert_eq!(actual_dataframe, expected);

    Ok(())
}

#[test]
fn parse_ok_to_empty_dataframe() -> Result<(), ResponseError> {
    let input = r#"{
            "results": [
                {
                    "statement_id": 15
                }
            ]
        }"#;

    let actual_response: Vec<Result<TaggedDataFrames, ResponseError>> = from_str(input, dummy)?;
    let actual_dataframes: TaggedDataFrames = actual_response
        .into_iter()
        .next()
        .ok_or_else(|| ResponseError::ValueError("empty list".into()))??;

    assert!(actual_dataframes.is_empty());

    Ok(())
}

#[test]
fn parse_ok_to_dataframes_and_tags() -> Result<(), ResponseError> {
    let input = r#"{
            "results": [
                {
                    "statement_id": 15,
                    "series": [
                        {
                            "name":"mymeas",
                            "columns": ["time","myfield1","myfield2"],
                            "values": [
                                ["2017-03-01T00:16:18Z",33.1,12.5],["2017-03-01T00:17:18Z",12.4,12.7]
                            ],
                            "tags": {
                                "room": "bedroom"
                            }
                        }
                    ]
                }
            ]
        }"#;
    let mut expected_dataframe = DummyDataFrame {
        name: "mymeas".into(),
        index: vec![instant(2017, 3, 1, 0, 16, 18), instant(2017, 3, 1, 0, 17, 18)],
        columns: NameMap::new(),
    };
    expected_dataframe.columns.insert("myfield1".into(), vec![float(33.1), float(12.4)]);
    expected_dataframe.columns.insert("myfield2".into(), vec![float(12.5), float(12.7)]);

    let mut expected_tags = NameMap::new();
    expected_tags.insert("room".into(), "bedroom".into());

    let actual_response: Vec<Result<TaggedDataFrames, ResponseError>> = from_str(input, dummy)?;
    let actual_dataframes: TaggedDataFrames = actual_response
        .into_iter()
        .next()
        .ok_or_else(|| ResponseError::ValueError("empty list".into()))??;

    let (actual_dataframe, actual_tags): (DummyDataFrame, Option<TagsMap>) = actual_dataframes
        .into_iter()
        .next()
        .ok_or_else(|| ResponseError::ValueError("empty list".into()))?;

    assert_eq!(actual_tags, Some(expected_tags));

    assert_eq!(actual_dataframe, expected_dataframe);

    Ok(())
}
