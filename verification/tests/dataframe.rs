use std::convert::TryFrom;

use rinfluxdb::dataframe::{Column, DataFrame};
use rinfluxdb::influxql::ResponseError;
use rinfluxdb::types::{
    flatten_map, DataFrameError, Float64, Instant, NameMap, Value,
};

fn float(value: f64) -> Float64 {
    Float64::from_bits(value.to_bits())
}

fn instant(secs: i64) -> Instant {
    Instant::from_timestamp(secs, 0).unwrap()
}

#[test]
fn columns_take_the_type_of_their_first_value() {
    let text = |s: &str| Value::String(s.to_string());
    assert_eq!(
        Column::from_values(vec![Value::Float(float(1.5)), Value::Integer(-2), Value::UnsignedInteger(3)])
            .unwrap(),
        Column::Float(vec![float(1.5), float(-2.0), float(3.0)])
    );
    assert_eq!(
        Column::from_values(vec![
            Value::Integer(7),
            Value::Float(float(-2.9)),
            Value::UnsignedInteger(u64::MAX),
            Value::Float(float(1e300)),
        ])
        .unwrap(),
        Column::Integer(vec![7, -2, -1, i64::MAX])
    );
    assert_eq!(
        Column::from_values(vec![Value::UnsignedInteger(7), Value::UnsignedInteger(0)]).unwrap(),
        Column::UnsignedInteger(vec![7, 0])
    );
    assert_eq!(
        Column::from_values(vec![text("a"), text("")]).unwrap(),
        Column::String(vec!["a".to_string(), String::new()])
    );
    assert_eq!(
        Column::from_values(vec![Value::Boolean(true), Value::Boolean(false)]).unwrap(),
        Column::Boolean(vec![true, false])
    );
    assert_eq!(
        Column::from_values(vec![Value::Timestamp(instant(5))]).unwrap(),
        Column::Timestamp(vec![instant(5)])
    );
    assert_eq!(Column::Boolean(vec![true, false]).len(), 2);
}

#[test]
fn columns_refuse_values_that_do_not_fit() {
    let text = |s: &str| Value::String(s.to_string());
    let misfits = vec![
        vec![Value::Float(float(1.5)), text("a")],
        vec![Value::Integer(1), Value::Boolean(true)],
        vec![Value::UnsignedInteger(1), Value::Integer(1)],
        vec![Value::UnsignedInteger(1), Value::Float(float(1.0))],
        vec![text("a"), Value::Integer(1)],
        vec![Value::Boolean(true), text("true")],
        vec![Value::Timestamp(instant(1)), Value::Integer(1)],
    ];
    for values in misfits {
        assert!(matches!(
            Column::from_values(values),
            Err(ResponseError::DataFrameError(DataFrameError::Creation))
        ));
    }
    assert!(matches!(
        Column::from_values(Vec::new()),
        Err(ResponseError::ValueError(message)) if message == "empty column"
    ));
    assert_eq!(DataFrameError::Creation.message(), "Error while creating the dataframe");
}

#[test]
fn dataframe_from_parts() {
    let mut columns = NameMap::new();
    columns.insert("t".to_string(), vec![Value::Float(float(20.5)), Value::Integer(21)]);
    columns.insert("open".to_string(), vec![Value::Boolean(true), Value::Boolean(false)]);
    let dataframe =
        DataFrame::try_from(("room".to_string(), vec![instant(1), instant(2)], columns)).unwrap();
    assert_eq!(dataframe.name(), "room");
    assert_eq!(dataframe.index(), &vec![instant(1), instant(2)]);
    assert_eq!(dataframe.width(), 2);
    assert_eq!(dataframe.column_name(0), "t");
    assert_eq!(dataframe.column_name(1), "open");
    assert_eq!(dataframe.column("t"), Some(&Column::Float(vec![float(20.5), float(21.0)])));
    assert_eq!(dataframe.column_at(1), &Column::Boolean(vec![true, false]));

    let mut columns = NameMap::new();
    columns.insert("good".to_string(), vec![Value::Integer(1)]);
    columns.insert("empty".to_string(), Vec::new());
    columns.insert("mixed".to_string(), vec![Value::Boolean(true), Value::Integer(1)]);
    assert!(matches!(
        DataFrame::from_parts("room".to_string(), Vec::new(), columns),
        Err(ResponseError::ValueError(message)) if message == "empty column"
    ));

    let ragged = {
        let mut columns = NameMap::new();
        columns.insert("a".to_string(), vec![Value::Integer(1)]);
        DataFrame::from_parts("room".to_string(), Vec::new(), columns).unwrap()
    };
    assert_eq!(ragged.index().len(), 0);
    assert_eq!(ragged.column_at(0).len(), 1);
}

#[test]
fn name_maps_keep_insertion_order() {
    let mut map: NameMap<u32> = NameMap::new();
    assert!(map.is_empty());
    assert_eq!(map.insert("b".to_string(), 1), None);
    assert_eq!(map.insert("a".to_string(), 2), None);
    assert_eq!(map.insert("b".to_string(), 3), Some(1));
    assert_eq!(map.len(), 2);
    assert!(!map.is_empty());
    assert_eq!(map.name_at(0), "b");
    assert_eq!(map.value_at(0), &3);
    assert_eq!(map.name_at(1), "a");
    assert_eq!(map.position("a"), Some(1));
    assert_eq!(map.position("c"), None);
    assert!(map.contains_key("a"));
    assert!(!map.contains_key(""));
    assert_eq!(map.get("a"), Some(&2));
    assert_eq!(map.get("c"), None);
    assert_eq!(map.replace_at(1, 5), 2);
    assert_eq!(map.get("a"), Some(&5));

    let mut other: NameMap<u32> = NameMap::new();
    other.insert("a".to_string(), 5);
    assert_ne!(map, other);
    other.insert("b".to_string(), 3);
    assert_eq!(map, other);
    assert_eq!(map.clone(), map);
    other.insert("b".to_string(), 4);
    assert_ne!(map, other);
    assert_eq!(map.into_entries(), vec![("b".to_string(), 3), ("a".to_string(), 5)]);

    let mut lists: NameMap<Vec<u8>> = NameMap::new();
    lists.insert("x".to_string(), vec![1]);
    lists.insert("y".to_string(), Vec::new());
    lists.push_at(1, 7);
    lists.push_at(0, 2);
    assert_eq!(lists.get("x"), Some(&vec![1, 2]));
    assert_eq!(lists.get("y"), Some(&vec![7]));
}

#[test]
fn flattening_maps_of_results() {
    let mut good: NameMap<Result<u32, String>> = NameMap::new();
    good.insert("b".to_string(), Ok(1));
    good.insert("a".to_string(), Ok(2));
    let flat = flatten_map(good).unwrap();
    assert_eq!(flat.into_entries(), vec![("b".to_string(), 1), ("a".to_string(), 2)]);

    let mut bad: NameMap<Result<u32, String>> = NameMap::new();
    bad.insert("a".to_string(), Ok(1));
    bad.insert("b".to_string(), Err("first".to_string()));
    bad.insert("c".to_string(), Err("second".to_string()));
    assert_eq!(flatten_map(bad), Err("first".to_string()));
    let empty: NameMap<Result<u32, String>> = NameMap::new();
    assert!(flatten_map(empty).unwrap().is_empty());
}

#[test]
fn rectangular_dataframes() {
    let mut columns = NameMap::new();
    columns.insert("a".to_string(), vec![Value::Integer(1), Value::Integer(2)]);
    columns.insert("b".to_string(), vec![Value::Boolean(true), Value::Boolean(false)]);
    let even = DataFrame::from_parts("m".to_string(), vec![instant(1), instant(2)], columns).unwrap();
    assert!(even.is_rectangular());
    assert_eq!(even.clone(), even);
    let mut columns = NameMap::new();
    columns.insert("a".to_string(), vec![Value::Integer(1), Value::Integer(2)]);
    columns.insert("b".to_string(), vec![Value::Boolean(true)]);
    let ragged = DataFrame::from_parts("m".to_string(), vec![instant(1), instant(2)], columns).unwrap();
    assert!(!ragged.is_rectangular());
}
