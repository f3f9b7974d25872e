use rinfluxdb::dataframe::{Column, DataFrame};
use rinfluxdb::influxql::envelope::{Cell, Response, Series};
use rinfluxdb::influxql::response::{parse_series, tags_map};
use rinfluxdb::influxql::series::{instant_of, read_rows, value_of};
use rinfluxdb::influxql::{
    dataframes_by_tag, from_str, request_parameters, single_dataframe, ClientError, Query,
    ResponseError, StatementResult, TagsMap,
};
use rinfluxdb::json::{Json, JsonNumber};
use rinfluxdb::types::{Float64, Instant, NameMap, Value};

#[derive(Debug, PartialEq)]
struct Table {
    name: String,
    index: Vec<Instant>,
    columns: NameMap<Vec<Value>>,
}

fn table(
    name: String,
    index: Vec<Instant>,
    columns: NameMap<Vec<Value>>,
) -> Result<Table, ResponseError> {
    Ok(Table { name, index, columns })
}

fn float(value: f64) -> Value {
    Value::Float(Float64::from_bits(value.to_bits()))
}

fn one_series(values: &str) -> String {
    format!(
        r#"{{"results": [{{"statement_id": 0, "series": [{{"name": "m", "columns": ["time", "a", "b"], "values": {}}}]}}]}}"#,
        values
    )
}

fn first_table(input: &str) -> Result<(Table, Option<TagsMap>), ResponseError> {
    let statements = from_str(input, table)?;
    assert_eq!(statements.len(), 1);
    let mut tables = statements.into_iter().next().unwrap()?;
    assert_eq!(tables.len(), 1);
    Ok(tables.remove(0))
}

#[test]
fn one_series_of_rows_and_columns() {
    for rows in [0usize, 1, 2, 7] {
        let mut values = Vec::new();
        for row in 0..rows {
            values.push(format!(r#"["2021-03-04T17:00:{:02}Z", {}, "{}"]"#, row, row, row));
        }
        let input = one_series(&format!("[{}]", values.join(",")));
        let (table, tags) = first_table(&input).unwrap();
        assert!(tags.is_none());
        assert_eq!(table.name, "m");
        assert_eq!(table.index.len(), rows);
        assert_eq!(table.columns.len(), 2);
        let a = table.columns.get("a").unwrap();
        let b = table.columns.get("b").unwrap();
        assert_eq!(a.len(), rows);
        assert_eq!(b.len(), rows);
        for row in 0..rows {
            assert_eq!(table.index[row].timestamp(), 1614877200 + row as i64);
            assert_eq!(a[row], Value::Integer(row as i64));
            assert_eq!(b[row], Value::String(row.to_string()));
        }
    }
}

#[test]
fn statement_error_wins_over_series() {
    let input = r#"{"results": [
        {"statement_id": 0, "error": "failed", "series": [{"name": "m", "columns": ["time"], "values": [[12]]}]},
        {"statement_id": 1, "series": [{"name": "m", "columns": ["time", "a"], "values": [["2021-03-04T17:00:00Z", 1]]}]}
    ]}"#;
    let statements = from_str(input, table).unwrap();
    assert_eq!(statements.len(), 2);
    assert!(matches!(&statements[0], Err(ResponseError::StatementError(message)) if message == "failed"));
    let tables = statements[1].as_ref().unwrap();
    assert_eq!(tables[0].0.columns.get("a"), Some(&vec![Value::Integer(1)]));
}

#[test]
fn whole_envelope_error() {
    let outcome = from_str(r#"{"error": "parse failure"}"#, table);
    assert!(matches!(outcome, Err(ResponseError::ResponseError(message)) if message == "parse failure"));
}

#[test]
fn numbers_keep_their_kind() {
    let input = one_series(r#"[["2021-03-04T17:00:00Z", 42, 42.0], ["2021-03-04T17:00:01Z", 9223372036854775808, -7]]"#);
    let (table, _) = first_table(&input).unwrap();
    assert_eq!(
        table.columns.get("a"),
        Some(&vec![Value::Integer(42), Value::UnsignedInteger(9223372036854775808)])
    );
    assert_eq!(table.columns.get("b"), Some(&vec![float(42.0), Value::Integer(-7)]));
    let input = one_series(r#"[["2021-03-04T17:00:00Z", 9223372036854775807, 18446744073709551615], ["2021-03-04T17:00:01Z", 18446744073709551616, true]]"#);
    let (table, _) = first_table(&input).unwrap();
    assert_eq!(
        table.columns.get("a"),
        Some(&vec![Value::Integer(i64::MAX), float(18446744073709551616.0)])
    );
    assert_eq!(
        table.columns.get("b"),
        Some(&vec![Value::UnsignedInteger(u64::MAX), Value::Boolean(true)])
    );
}

#[test]
fn tags_round_trip() {
    let tagged = r#"{"results": [{"statement_id": 0, "series": [{"name": "m", "columns": ["time"], "values": [], "tags": {"room": "bedroom"}}]}]}"#;
    let (_, tags) = first_table(tagged).unwrap();
    let tags = tags.unwrap();
    assert_eq!(tags.len(), 1);
    assert_eq!(tags.get("room"), Some(&"bedroom".to_string()));
    let untagged = r#"{"results": [{"statement_id": 0, "series": [{"name": "m", "columns": ["time"], "values": []}]}]}"#;
    let (_, tags) = first_table(untagged).unwrap();
    assert!(tags.is_none());
    let null = r#"{"results": [{"statement_id": 0, "series": [{"name": "m", "columns": ["time"], "values": [], "tags": null}]}]}"#;
    let (_, tags) = first_table(null).unwrap();
    assert!(tags.is_none());
}

fn tagged_statement(rooms: &[Option<&[(&str, &str)]>]) -> Vec<StatementResult<Table>> {
    let mut tables = Vec::new();
    for (number, room) in rooms.iter().enumerate() {
        let tags = room.map(|pairs| {
            let mut tags = NameMap::new();
            for (name, value) in pairs {
                tags.insert(name.to_string(), value.to_string());
            }
            tags
        });
        tables.push((
            Table { name: format!("t{}", number), index: Vec::new(), columns: NameMap::new() },
            tags,
        ));
    }
    vec![Ok(tables)]
}

#[test]
fn grouping_by_tag() {
    let input = r#"{"results": [{"statement_id": 0, "series": [
        {"name": "m", "columns": ["time", "t"], "values": [["2021-03-04T17:00:00Z", 20.5]], "tags": {"room": "bedroom"}},
        {"name": "m", "columns": ["time", "t"], "values": [["2021-03-04T17:00:00Z", 18.5]], "tags": {"room": "entrance"}}
    ]}]}"#;
    let groups = dataframes_by_tag(from_str(input, table).unwrap(), "room").unwrap();
    assert_eq!(groups.len(), 2);
    assert_eq!(groups.get("bedroom").unwrap().columns.get("t"), Some(&vec![float(20.5)]));
    assert_eq!(groups.get("entrance").unwrap().columns.get("t"), Some(&vec![float(18.5)]));
    assert!(groups.get("kitchen").is_none());

    let missing = dataframes_by_tag(from_str(input, table).unwrap(), "floor");
    assert!(matches!(&missing, Err(ClientError::ExpectedTagError(tag)) if tag == "floor"));
    assert_eq!(missing.unwrap_err().message(), "Missing tag \"floor\"");

    let untagged = tagged_statement(&[Some(&[("room", "bedroom")]), None]);
    let outcome = dataframes_by_tag(untagged, "room");
    assert!(matches!(&outcome, Err(ClientError::ExpectedTagsError)));
    assert_eq!(outcome.unwrap_err().message(), "Missing tags");
}

#[test]
fn grouping_reports_first_failure_and_keeps_later_duplicates() {
    let mixed = tagged_statement(&[Some(&[("floor", "1")]), None]);
    assert!(matches!(
        dataframes_by_tag(mixed, "room"),
        Err(ClientError::ExpectedTagError(tag)) if tag == "room"
    ));
    let mixed = tagged_statement(&[None, Some(&[("floor", "1")])]);
    assert!(matches!(dataframes_by_tag(mixed, "room"), Err(ClientError::ExpectedTagsError)));
    let twice = tagged_statement(&[
        Some(&[("room", "a")]),
        Some(&[("room", "b")]),
        Some(&[("room", "a")]),
    ]);
    let groups = dataframes_by_tag(twice, "room").unwrap();
    assert_eq!(groups.len(), 2);
    assert_eq!(groups.get("a").unwrap().name, "t2");
    assert_eq!(groups.get("b").unwrap().name, "t1");
    assert!(matches!(
        dataframes_by_tag(Vec::<StatementResult<Table>>::new(), "room"),
        Err(ClientError::EmptyError)
    ));
    let failed: Vec<StatementResult<Table>> =
        vec![Err(ResponseError::StatementError("no".to_string()))];
    assert!(matches!(
        dataframes_by_tag(failed, "room"),
        Err(ClientError::FormatError(ResponseError::StatementError(_)))
    ));
}

#[test]
fn single_dataframe_of_a_query() {
    let input = one_series(r#"[["2021-03-04T17:00:00Z", 1, 2]]"#);
    let only = single_dataframe(from_str(input.as_str(), table).unwrap()).unwrap();
    assert_eq!(only.name, "m");
    assert!(matches!(
        single_dataframe(Vec::<StatementResult<Table>>::new()),
        Err(ClientError::EmptyError)
    ));
    let empty = from_str(r#"{"results": [{"statement_id": 0}]}"#, table).unwrap();
    assert!(matches!(single_dataframe(empty), Err(ClientError::EmptyError)));
    let failed = from_str(r#"{"results": [{"statement_id": 0, "error": "no"}]}"#, table).unwrap();
    assert!(matches!(
        single_dataframe(failed),
        Err(ClientError::FormatError(ResponseError::StatementError(_)))
    ));
}

#[test]
fn parsing_twice_gives_the_same() {
    let input = one_series(r#"[["2021-03-04T17:00:00Z", 1, 2.5], ["2021-03-04T18:00:00Z", 3, null]]"#);
    let first = format!("{:?}", from_str(&input, table));
    let second = format!("{:?}", from_str(&input, table));
    assert_eq!(first, second);
    let input = one_series(r#"[["2021-03-04T17:00:00Z", 1, 2.5], ["2021-03-04T18:00:00Z", 3, 4.5]]"#);
    let first = from_str(&input, DataFrame::from_parts).unwrap();
    let second = from_str(&input, DataFrame::from_parts).unwrap();
    assert_eq!(first.len(), second.len());
    assert_eq!(first[0].as_ref().unwrap(), second[0].as_ref().unwrap());
}

#[test]
fn statement_without_series() {
    let statements = from_str(r#"{"results": [{"statement_id": 15}]}"#, table).unwrap();
    assert_eq!(statements.len(), 1);
    assert!(statements[0].as_ref().unwrap().is_empty());
    let statements =
        from_str(r#"{"results": [{"statement_id": 15, "series": null, "error": null}]}"#, table)
            .unwrap();
    assert!(statements[0].as_ref().unwrap().is_empty());
    let statements = from_str(r#"{"results": []}"#, table).unwrap();
    assert!(statements.is_empty());
}

#[test]
fn malformed_envelopes() {
    for input in [
        "",
        "{",
        "[]",
        "12",
        r#"{}"#,
        r#"{"results": [], "error": "both"}"#,
        r#"{"other": []}"#,
        r#"{"results": {}}"#,
        r#"{"error": 12}"#,
        r#"{"results": [{}]}"#,
        r#"{"results": [{"statement_id": -1}]}"#,
        r#"{"results": [{"statement_id": 1.5}]}"#,
        r#"{"results": [{"statement_id": 4294967296}]}"#,
        r#"{"results": [{"statement_id": "0"}]}"#,
        r#"{"results": [{"statement_id": 0, "error": 5}]}"#,
        r#"{"results": [{"statement_id": 0, "series": {}}]}"#,
        r#"{"results": [{"statement_id": 0, "series": [{"columns": [], "values": []}]}]}"#,
        r#"{"results": [{"statement_id": 0, "series": [{"name": "m", "values": []}]}]}"#,
        r#"{"results": [{"statement_id": 0, "series": [{"name": "m", "columns": []}]}]}"#,
        r#"{"results": [{"statement_id": 0, "series": [{"name": 1, "columns": [], "values": []}]}]}"#,
        r#"{"results": [{"statement_id": 0, "series": [{"name": "m", "columns": [1], "values": []}]}]}"#,
        r#"{"results": [{"statement_id": 0, "series": [{"name": "m", "columns": [], "values": [1]}]}]}"#,
        r#"{"results": [{"statement_id": 0, "series": [{"name": "m", "columns": [], "values": [], "tags": {"a": 1}}]}]}"#,
        r#"{"results": [{"statement_id": 0, "series": [{"name": "m", "columns": [], "values": [], "tags": []}]}]}"#,
    ] {
        assert!(
            matches!(from_str(input, table), Err(ResponseError::JsonError(_))),
            "{}",
            input
        );
        assert!(Response::parse(input).is_err(), "{}", input);
    }
    let largest = r#"{"results": [{"statement_id": 4294967295, "extra": [1, 2]}]}"#;
    assert!(from_str(largest, table).is_ok());
}

fn cell_error(values: &str) -> ResponseError {
    let statements = from_str(&one_series(values), table).unwrap();
    statements.into_iter().next().unwrap().unwrap_err()
}

#[test]
fn cell_errors_in_reading_order() {
    let message = |error: ResponseError| match error {
        ResponseError::ValueError(message) => message,
        other => panic!("{:?}", other),
    };
    assert_eq!(message(cell_error(r#"[["2021-03-04T17:00:00Z", null, 1]]"#)), "value is null");
    assert_eq!(message(cell_error(r#"[["2021-03-04T17:00:00Z", 1, [1]]]"#)), "value is a JSON array");
    assert_eq!(message(cell_error(r#"[["2021-03-04T17:00:00Z", {}, [1]]]"#)), "value is a JSON object");
    assert_eq!(message(cell_error(r#"[[12, null, 1]]"#)), "index is not encoded as string");
    assert_eq!(message(cell_error(r#"[[]]"#)), "index is not encoded as string");
    assert!(matches!(cell_error(r#"[["noon", null, 1]]"#), ResponseError::DatetimeError(_)));
    assert_eq!(
        message(cell_error(r#"[["2021-03-04T17:00:00Z", 1, 2], ["2021-03-04T17:00:00Z", 1, null], ["noon", 1, 2]]"#)),
        "value is null"
    );
    assert_eq!(ResponseError::ValueError("value is null".to_string()).message(), "value error value is null");
}

#[test]
fn short_rows_and_repeated_columns() {
    let (table, _) = first_table(&one_series(
        r#"[["2021-03-04T17:00:00Z", 1], ["2021-03-04T18:00:00Z", 2, "x", null, []]]"#,
    ))
    .unwrap();
    assert_eq!(table.index.len(), 2);
    assert_eq!(table.columns.get("a"), Some(&vec![Value::Integer(1), Value::Integer(2)]));
    assert_eq!(table.columns.get("b"), Some(&vec![Value::String("x".to_string())]));

    let repeated = r#"{"results": [{"statement_id": 0, "series": [{"name": "m", "columns": ["time", "a", "b", "a"], "values": [["2021-03-04T17:00:00Z", 1, 2, 3], ["2021-03-04T18:00:00Z", 4, 5, 6]]}]}]}"#;
    let (table, _) = first_table(repeated).unwrap();
    assert_eq!(table.columns.len(), 2);
    assert_eq!(
        table.columns.get("a"),
        Some(&vec![Value::Integer(1), Value::Integer(3), Value::Integer(4), Value::Integer(6)])
    );
    assert_eq!(table.columns.get("b"), Some(&vec![Value::Integer(2), Value::Integer(5)]));

    let no_columns = r#"{"results": [{"statement_id": 0, "series": [{"name": "m", "columns": [], "values": [["2021-03-04T17:00:00Z", 1]]}]}]}"#;
    let (table, _) = first_table(no_columns).unwrap();
    assert_eq!(table.index.len(), 1);
    assert!(table.columns.is_empty());
}

#[test]
fn rows_read_directly() {
    let columns = vec!["time".to_string(), "a".to_string()];
    let number = JsonNumber { signed: Some(5), unsigned: Some(5), float: None };
    let rows = vec![vec![Cell::String("2021-03-04T17:00:00Z".to_string()), Cell::Number(number)]];
    let (index, data) = read_rows(&columns, &rows).unwrap();
    assert_eq!(index.len(), 1);
    assert_eq!(data.get("a"), Some(&vec![Value::Integer(5)]));
    let odd = JsonNumber { signed: None, unsigned: None, float: None };
    let rows = vec![vec![Cell::String("2021-03-04T17:00:00Z".to_string()), Cell::Number(odd)]];
    assert!(matches!(
        read_rows(&columns, &rows),
        Err(ResponseError::ValueError(message)) if message == "value is an invalid array"
    ));
}

#[test]
fn factory_error_ends_the_statement() {
    let refuse = |name: String, index: Vec<Instant>, columns: NameMap<Vec<Value>>| {
        if index.is_empty() {
            Err(ResponseError::ValueError("no rows".to_string()))
        } else {
            Ok(Table { name, index, columns })
        }
    };
    let input = r#"{"results": [{"statement_id": 0, "series": [
        {"name": "full", "columns": ["time", "t"], "values": [["2021-03-04T17:00:00Z", 20.5]]},
        {"name": "empty", "columns": ["time", "t"], "values": []},
        {"name": "bad", "columns": ["time", "t"], "values": [["noon", 20.5]]}
    ]}, {"statement_id": 1, "series": [
        {"name": "full", "columns": ["time", "t"], "values": [["2021-03-04T17:00:00Z", 20.5]]}
    ]}]}"#;
    let statements = from_str(input, refuse).unwrap();
    assert!(matches!(&statements[0], Err(ResponseError::ValueError(message)) if message == "no rows"));
    assert_eq!(statements[1].as_ref().unwrap().len(), 1);

    let series = Series {
        name: "m".to_string(),
        columns: vec!["time".to_string()],
        values: vec![vec![Cell::String("2021-03-04T17:00:00Z".to_string())]],
        tags: Some(vec![("b".to_string(), "1".to_string()), ("a".to_string(), "2".to_string())]),
    };
    let (table, tags) = parse_series(series, &refuse).unwrap();
    assert_eq!(table.name, "m");
    assert_eq!(tags.unwrap().get("a"), Some(&"2".to_string()));
    let tags = tags_map(vec![
        ("a".to_string(), "1".to_string()),
        ("b".to_string(), "2".to_string()),
        ("a".to_string(), "3".to_string()),
    ]);
    assert_eq!(tags.len(), 2);
    assert_eq!(tags.get("a"), Some(&"3".to_string()));
}

#[test]
fn dataframes_from_responses() {
    let input = one_series(
        r#"[["2021-03-04T17:00:00Z", 1.5, "x"], ["2021-03-04T18:00:00Z", 2, "y"], ["2021-03-04T19:00:00Z", 9223372036854775808, "z"]]"#,
    );
    let statements = from_str(&input, DataFrame::from_parts).unwrap();
    let (dataframe, _) = &statements[0].as_ref().unwrap()[0];
    assert_eq!(dataframe.name(), "m");
    assert_eq!(dataframe.index().len(), 3);
    assert_eq!(dataframe.width(), 2);
    assert_eq!(dataframe.column_name(0), "a");
    assert_eq!(
        dataframe.column("a"),
        Some(&Column::Float(vec![
            Float64::from_bits(1.5f64.to_bits()),
            Float64::from_bits(2.0f64.to_bits()),
            Float64::from_bits(9223372036854775808.0f64.to_bits()),
        ]))
    );
    assert_eq!(
        dataframe.column_at(1),
        &Column::String(vec!["x".to_string(), "y".to_string(), "z".to_string()])
    );
    assert!(dataframe.column("c").is_none());

    let empty = one_series("[]");
    let statements = from_str(&empty, DataFrame::from_parts).unwrap();
    assert!(matches!(
        &statements[0],
        Err(ResponseError::ValueError(message)) if message == "empty column"
    ));
}

#[test]
fn request_parameters_in_order() {
    let query = Query::new("SELECT 1");
    assert_eq!(
        request_parameters(Some(&query), Some("house")),
        vec![("q".to_string(), "SELECT 1".to_string()), ("db".to_string(), "house".to_string())]
    );
    assert_eq!(
        request_parameters(Some(&query), None),
        vec![("q".to_string(), "SELECT 1".to_string())]
    );
    assert_eq!(
        request_parameters(None, Some("house")),
        vec![("db".to_string(), "house".to_string())]
    );
    assert!(request_parameters(None, None).is_empty());
}

#[test]
fn json_trees() {
    let tree = Json::parse(r#"{"b": [1, -2, 2.5, 18446744073709551615], "a": {"x": null, "y": true}, "c": "text"}"#)
        .unwrap();
    let half = Float64::from_bits(2.5f64.to_bits());
    let expected = Json::Object(vec![
        (
            "a".to_string(),
            Json::Object(vec![("x".to_string(), Json::Null), ("y".to_string(), Json::Bool(true))]),
        ),
        (
            "b".to_string(),
            Json::Array(vec![
                Json::Number(JsonNumber {
                    signed: Some(1),
                    unsigned: Some(1),
                    float: Some(Float64::from_bits(1.0f64.to_bits())),
                }),
                Json::Number(JsonNumber {
                    signed: Some(-2),
                    unsigned: None,
                    float: Some(Float64::from_bits((-2.0f64).to_bits())),
                }),
                Json::Number(JsonNumber::from_float(half)),
                Json::Number(JsonNumber {
                    signed: None,
                    unsigned: Some(u64::MAX),
                    float: Some(Float64::from_bits(18446744073709551615.0f64.to_bits())),
                }),
            ]),
        ),
        ("c".to_string(), Json::String("text".to_string())),
    ]);
    assert_eq!(tree, expected);
    if let Json::Object(members) = &tree {
        assert_eq!(Json::find(members, "c"), Some(&Json::String("text".to_string())));
        assert_eq!(Json::find(members, "d"), None);
    }
    assert!(Json::parse("{").is_err());
    assert_eq!(Json::parse(r#"{"a": 1, "a": null}"#).unwrap(), Json::Object(vec![("a".to_string(), Json::Null)]));
}

#[test]
fn error_messages() {
    let text = |s: &str| s.to_string();
    assert_eq!(ResponseError::ResponseError(text("a")).message(), "response error a");
    assert_eq!(ResponseError::StatementError(text("b")).message(), "statement error b");
    assert_eq!(
        Response::parse("{").map_err(ResponseError::from).unwrap_err().message(),
        "invalid JSON"
    );
    assert_eq!(
        Instant::parse("noon").map_err(ResponseError::from).unwrap_err().message(),
        "could not parse datetime"
    );
    assert_eq!(
        ResponseError::from(rinfluxdb::types::DataFrameError::Creation).message(),
        "could not create dataframe"
    );
    assert_eq!(ClientError::EmptyError.message(), "Empty statement");
    assert_eq!(
        ClientError::from(ResponseError::ValueError(text("x"))).message(),
        "Format parse error"
    );
}

#[test]
fn cells_as_values() {
    let number = |signed, unsigned, float: Option<f64>| {
        Cell::Number(JsonNumber {
            signed,
            unsigned,
            float: float.map(|x| Float64::from_bits(x.to_bits())),
        })
    };
    assert_eq!(value_of(&number(Some(42), Some(42), Some(42.0))).unwrap(), Value::Integer(42));
    assert_eq!(value_of(&number(Some(-1), None, Some(-1.0))).unwrap(), Value::Integer(-1));
    assert_eq!(
        value_of(&number(None, Some(u64::MAX), Some(1.8446744073709552e19))).unwrap(),
        Value::UnsignedInteger(u64::MAX)
    );
    assert_eq!(value_of(&number(None, None, Some(42.0))).unwrap(), float(42.0));
    assert_eq!(value_of(&Cell::Bool(false)).unwrap(), Value::Boolean(false));
    assert_eq!(value_of(&Cell::String("x".to_string())).unwrap(), Value::String("x".to_string()));
    assert!(matches!(value_of(&Cell::Null), Err(ResponseError::ValueError(_))));
    assert!(matches!(value_of(&Cell::Array), Err(ResponseError::ValueError(_))));
    assert!(matches!(value_of(&Cell::Object), Err(ResponseError::ValueError(_))));
    assert_eq!(
        instant_of(&Cell::String("2017-03-01T00:16:18Z".to_string())).unwrap().timestamp(),
        1488327378
    );
    assert!(matches!(instant_of(&Cell::Bool(true)), Err(ResponseError::ValueError(_))));
    assert!(matches!(
        instant_of(&Cell::String("2017-03".to_string())),
        Err(ResponseError::DatetimeError(_))
    ));
}
