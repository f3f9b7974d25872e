use std::num::ParseFloatError;

use rinfluxdb::flux::blocks::split_blocks;
use rinfluxdb::flux::{from_str, ResponseError, TagsMap};
use rinfluxdb::types::{Float64, Instant, NameMap, Value};

#[derive(Debug, PartialEq)]
struct Table {
    name: String,
    index: Vec<Instant>,
    columns: NameMap<Vec<Value>>,
}

fn table(
    name: String,
    index: Vec<Instant>,
    columns: NameMap<Vec<Value>>,
) -> Result<Table, ResponseError> {
    Ok(Table { name, index, columns })
}

fn parse_float(text: &str) -> Result<Float64, ParseFloatError> {
    text.parse::<f64>().map(|number| Float64::from_bits(number.to_bits()))
}

fn float(value: f64) -> Value {
    Value::Float(Float64::from_bits(value.to_bits()))
}

fn instant(text: &str) -> Instant {
    Instant::parse(text).unwrap()
}

fn tag(tags: &Option<TagsMap>, name: &str) -> String {
    tags.as_ref().unwrap().get(name).unwrap().clone()
}

const HEADER: &str = "#datatype,string,long,dateTime:RFC3339,dateTime:RFC3339,dateTime:RFC3339,double,string,string,string\r\n\
#group,false,false,true,true,false,false,true,true,true\r\n\
#default,_result,,,,,,,,\r\n\
,result,table,_start,_stop,_time,_value,_field,_measurement,host\r\n";

#[test]
fn flux_tables_by_key() {
    let input = format!(
        "{}{}{}{}{}\r\n",
        HEADER,
        ",,0,2021-03-04T00:00:00Z,2021-03-05T00:00:00Z,2021-03-04T17:00:00Z,28.4,temperature,environment,a\r\n",
        ",,0,2021-03-04T00:00:00Z,2021-03-05T00:00:00Z,2021-03-04T18:00:00Z,29.2,temperature,environment,a\r\n",
        ",,1,2021-03-04T00:00:00Z,2021-03-05T00:00:00Z,2021-03-04T17:00:00Z,41,temperature,environment,b\r\n",
        ",,0,2021-03-04T00:00:00Z,2021-03-05T00:00:00Z,2021-03-04T19:00:00Z,30.5,temperature,environment,a\r\n",
    );
    let tables = from_str(&input, table, parse_float).unwrap();
    assert_eq!(tables.len(), 2);

    let (first, first_tags) = &tables[0];
    assert_eq!(first.name, "environment");
    assert_eq!(
        first.index,
        vec![
            instant("2021-03-04T17:00:00Z"),
            instant("2021-03-04T18:00:00Z"),
            instant("2021-03-04T19:00:00Z")
        ]
    );
    assert_eq!(first.columns.len(), 1);
    assert_eq!(first.columns.get("_value"), Some(&vec![float(28.4), float(29.2), float(30.5)]));
    assert_eq!(first_tags.as_ref().unwrap().len(), 5);
    assert_eq!(tag(first_tags, "host"), "a");
    assert_eq!(tag(first_tags, "_field"), "temperature");
    assert_eq!(tag(first_tags, "_measurement"), "environment");
    assert_eq!(tag(first_tags, "_start"), "2021-03-04T00:00:00Z");
    assert_eq!(tag(first_tags, "_stop"), "2021-03-05T00:00:00Z");

    let (second, second_tags) = &tables[1];
    assert_eq!(second.index, vec![instant("2021-03-04T17:00:00Z")]);
    assert_eq!(second.columns.get("_value"), Some(&vec![float(41.0)]));
    assert_eq!(tag(second_tags, "host"), "b");
}

#[test]
fn flux_blocks_are_read_in_order() {
    let second = "#datatype,string,long,dateTime:RFC3339,double\r\n\
#group,false,false,false,false\r\n\
#default,_result,,,\r\n\
,result,table,_time,_value\r\n\
,,0,2021-03-04T17:00:00Z,1.5\r\n";
    let input = format!(
        "{}{}\r\n{}\r\n\r\n\r\n{}",
        HEADER,
        ",,0,2021-03-04T00:00:00Z,2021-03-05T00:00:00Z,2021-03-04T17:00:00Z,28.4,temperature,environment,a\r\n",
        second,
        "never read",
    );
    let tables = from_str(&input, table, parse_float).unwrap();
    assert_eq!(tables.len(), 2);
    assert_eq!(tables[0].0.name, "environment");
    assert_eq!(tables[1].0.name, "");
    assert!(tables[1].1.is_none());
    assert_eq!(tables[1].0.index, vec![instant("2021-03-04T17:00:00Z")]);
    assert_eq!(tables[1].0.columns.get("_value"), Some(&vec![float(1.5)]));
}

#[test]
fn flux_empty_payload_has_no_table() {
    assert!(from_str("", table, parse_float).unwrap().is_empty());
    assert!(from_str("\r\n\r\nrest", table, parse_float).unwrap().is_empty());
}

#[test]
fn flux_missing_annotation_rows() {
    let rows = [
        "#datatype,string,long\r\n",
        "#group,false,false\r\n",
        "#default,_result,\r\n",
        ",result,table\r\n",
    ];
    assert!(matches!(from_str(" ", table, parse_float), Ok(tables) if tables.is_empty())
        || matches!(from_str(" ", table, parse_float), Err(_)));
    assert!(matches!(from_str(rows[0], table, parse_float), Err(ResponseError::Grouping)));
    let two = format!("{}{}", rows[0], rows[1]);
    assert!(matches!(from_str(&two, table, parse_float), Err(ResponseError::Default)));
    let three = format!("{}{}", two, rows[2]);
    assert!(matches!(from_str(&three, table, parse_float), Err(ResponseError::Columns)));
    let four = format!("{}{}", three, rows[3]);
    assert!(from_str(&four, table, parse_float).unwrap().is_empty());
    assert!(matches!(from_str("\n", table, parse_float), Err(ResponseError::DataTypes)));
}

#[test]
fn flux_cell_errors() {
    let bad_time = format!(
        "{}{}",
        HEADER, ",,0,2021-03-04T00:00:00Z,2021-03-05T00:00:00Z,yesterday,28.4,temperature,environment,a\r\n",
    );
    assert!(matches!(from_str(&bad_time, table, parse_float), Err(ResponseError::DatetimeError(_))));
    let bad_value = format!(
        "{}{}",
        HEADER,
        ",,0,2021-03-04T00:00:00Z,2021-03-05T00:00:00Z,2021-03-04T17:00:00Z,warm,temperature,environment,a\r\n",
    );
    assert!(matches!(
        from_str(&bad_value, table, parse_float),
        Err(ResponseError::ParseFloatError(_))
    ));
    let both = format!(
        "{}{}",
        HEADER, ",,0,2021-03-04T00:00:00Z,2021-03-05T00:00:00Z,yesterday,warm,temperature,environment,a\r\n",
    );
    assert!(matches!(from_str(&both, table, parse_float), Err(ResponseError::DatetimeError(_))));
    let ragged = format!("{}{}", HEADER, ",,0,2021-03-04T00:00:00Z\r\n");
    assert!(matches!(from_str(&ragged, table, parse_float), Err(ResponseError::CsvError(_))));
}

#[test]
fn flux_factory_error_is_returned() {
    let input = format!(
        "{}{}",
        HEADER,
        ",,0,2021-03-04T00:00:00Z,2021-03-05T00:00:00Z,2021-03-04T17:00:00Z,28.4,temperature,environment,a\r\n",
    );
    let refuse = |_name: String, _index: Vec<Instant>, _columns: NameMap<Vec<Value>>| {
        Err::<Table, ResponseError>(ResponseError::DataFrameError(
            rinfluxdb::types::DataFrameError::Creation,
        ))
    };
    assert!(matches!(
        from_str(&input, refuse, parse_float),
        Err(ResponseError::DataFrameError(_))
    ));
    assert_eq!(ResponseError::Columns.message(), "Error while parsing columns row");
}

#[test]
fn blocks_as_the_standard_library_splits_them() {
    let samples = [
        "",
        "a",
        "a\r\n\r\n",
        "a\r\n\r\nb",
        "a\r\n\r\n\r\n\r\nb",
        "\r\n\r\na",
        "a\r\n\r\nb\r\n\r\nc\r\n",
        "a\r\n\r\n\r\nb",
        "\r\n\r",
        "a\r\n\rb\n\r\n\r\nc",
    ];
    for sample in samples {
        let mut expected: Vec<String> = Vec::new();
        for block in sample.split("\r\n\r\n") {
            if block.is_empty() {
                break;
            }
            expected.push(block.to_string());
        }
        assert_eq!(split_blocks(sample), expected, "{:?}", sample);
    }
}
