use chrono::{TimeZone, Utc};

use rinfluxdb::line_protocol::{
    parse_error, ClientError, FieldName, FieldValue, Line, LineBuilder, Measurement, TagName,
    TagValue,
};
use rinfluxdb::types::{Float64, Instant};

fn float(value: f64) -> FieldValue {
    FieldValue::Float(Float64::from_bits(value.to_bits()))
}

fn write_float(number: Float64) -> String {
    format!("{}", f64::from_bits(number.to_bits()))
}

fn instant(year: i32, month: u32, day: u32, hour: u32, minute: u32, second: u32) -> Instant {
    let date = Utc.with_ymd_and_hms(year, month, day, hour, minute, second).unwrap();
    Instant::from_timestamp(date.timestamp(), date.timestamp_subsec_nanos()).unwrap()
}

#[test]
fn escape_field_name_with_specials() {
    let name = FieldName::from("a b,c=d");
    assert_eq!(name.escape_to_line_protocol(), "a\\ b\\,c\\=d");
}

#[test]
fn escape_plain_names_unchanged() {
    assert_eq!(Measurement::from("location").escape_to_line_protocol(), "location");
    assert_eq!(TagName::from("city").escape_to_line_protocol(), "city");
    assert_eq!(TagValue::from("Odense".to_string()).escape_to_line_protocol(), "Odense");
}

#[test]
fn escape_names_as_chained_replacements() {
    for text in ["", " ", "==", "a, b = c", "\\ ,", "plain", "é ü=ß", ",,,  ==="] {
        let expected = text.replace(" ", "\\ ").replace(",", "\\,").replace("=", "\\=");
        assert_eq!(Measurement::from(text).escape_to_line_protocol(), expected);
        assert_eq!(FieldName::from(text).escape_to_line_protocol(), expected);
        assert_eq!(TagName::from(text).escape_to_line_protocol(), expected);
        assert_eq!(TagValue::from(text).escape_to_line_protocol(), expected);
    }
}

#[test]
fn escape_integer() {
    let mut state: u64 = 0x2545f4914f6cdd1d;
    for _ in 0..1000 {
        state ^= state << 13;
        state ^= state >> 7;
        state ^= state << 17;
        let value = state as i64;
        let field_value = FieldValue::Integer(value);
        let expected = value.to_string();

        assert_eq!(field_value.escape_to_line_protocol(&write_float), expected);
    }
    for value in [0, 1, -1, 9, 10, -10, i64::MAX, i64::MIN] {
        assert_eq!(FieldValue::Integer(value).escape_to_line_protocol(&write_float), value.to_string());
    }
}

#[test]
fn escape_unsigned_integer() {
    for value in [0, 7, 10, 99, 100, u64::MAX] {
        assert_eq!(
            FieldValue::UnsignedInteger(value).escape_to_line_protocol(&write_float),
            value.to_string()
        );
    }
}

#[test]
fn escape_negative_integer() {
    let field_value = FieldValue::Integer(-55);

    assert_eq!(field_value.escape_to_line_protocol(&write_float), "-55");
}

#[test]
fn escape_boolean() {
    let value = FieldValue::Boolean(true);

    assert_eq!(value.escape_to_line_protocol(&write_float), "true");
    assert_eq!(FieldValue::Boolean(false).escape_to_line_protocol(&write_float), "false");
}

#[test]
fn escape_float() {
    let value = float(12.5);

    assert_eq!(value.escape_to_line_protocol(&write_float), "12.5");
}

#[test]
fn escape_string() {
    let value = FieldValue::String("a string \"value\"".into());

    assert_eq!(value.escape_to_line_protocol(&write_float), "\"a string \\\\\"value\\\\\"\"");
}

#[test]
fn escape_string_as_chained_replacements() {
    for text in ["", "\"", "\\", "a\\b\"c", "plain text", "\"\"\\\\"] {
        let expected = format!("\"{}\"", text.replace("\"", "\\\"").replace("\\", "\\\\"));
        assert_eq!(FieldValue::from(text).escape_to_line_protocol(&write_float), expected);
    }
}

#[test]
fn escape_timestamp() {
    let value = FieldValue::Timestamp(instant(2014, 7, 8, 9, 10, 11));
    assert!(value.can_be_written());
    assert_eq!(value.escape_to_line_protocol(&write_float), "1404810611000000000i");
    let late = FieldValue::from(Instant::from_timestamp(10_000_000_000, 0).unwrap());
    assert!(!late.can_be_written());
}

#[test]
fn display_line() {
    let mut line = Line::new("location");

    line.insert_tag("city", "Odense");
    line.insert_field("latitude", float(55.383333));
    line.insert_field("longitude", float(10.383333));
    line.set_timestamp(instant(2014, 7, 8, 9, 10, 11));

    let expected =
        "location,city=Odense latitude=55.383333,longitude=10.383333 1404810611000000000";

    assert!(line.can_be_written());
    assert_eq!(line.to_line_protocol(&write_float), expected);
}

#[test]
fn line_sorts_fields_and_keeps_tag_order() {
    let mut line = Line::new("my measurement");
    line.insert_tag("zone", "north east");
    line.insert_tag("area", "a=b");
    line.insert_field("b", 2i64);
    line.insert_field("a", "x");
    line.insert_field("c", true);
    line.insert_field("b", 3u64);

    assert_eq!(
        line.to_line_protocol(&write_float),
        "my\\ measurement,zone=north\\ east,area=a\\=b a=\"x\",b=3,c=true"
    );
}

#[test]
fn line_without_fields_or_tags() {
    let line = Line::new("m");
    assert_eq!(line.to_line_protocol(&write_float), "m ");
}

#[test]
fn line_accessors() {
    let mut line = Line::new("measurement");
    assert_eq!(line.measurement(), &"measurement".into());
    line.insert_field("latitude", float(55.383333));
    line.insert_tag("city", "Odense");
    assert_eq!(line.field("latitude"), Some(&float(55.383333)));
    assert_eq!(line.field("longitude"), None);
    assert_eq!(line.tag("city"), Some(&"Odense".into()));
    assert_eq!(line.tag("town"), None);
    assert_eq!(line.timestamp(), None);
    let stamp = instant(2014, 7, 8, 9, 10, 11);
    line.set_timestamp(stamp);
    assert_eq!(line.timestamp(), Some(&stamp));
    let late = Instant::from_timestamp(10_000_000_000, 0).unwrap();
    line.set_timestamp(late);
    assert!(!line.can_be_written());
}

#[test]
fn create_record() {
    let actual = LineBuilder::new("location")
        .insert_tag("city", "Odense")
        .insert_field("latitude", float(55.383333))
        .insert_field("longitude", float(10.383333))
        .set_timestamp(instant(2014, 7, 8, 9, 10, 11))
        .build();

    let mut expected = Line::new("location");
    expected.insert_tag("city", "Odense");
    expected.insert_field("latitude", float(55.383333));
    expected.insert_field("longitude", float(10.383333));
    expected.set_timestamp(instant(2014, 7, 8, 9, 10, 11));

    assert_eq!(actual, expected);
}

#[test]
fn refusals_are_classified() {
    assert!(matches!(
        parse_error(r#"{"error": "database not found: \"unknown\""}"#),
        ClientError::DatabaseNotFound
    ));
    assert!(matches!(
        parse_error(
            r#"{"error": "field type conflict: input field \"temperature\" on measurement \"indoor_environment\" is type float, already exists as type boolean dropped=1"}"#
        ),
        ClientError::FieldTypeConflict
    ));
    assert!(matches!(parse_error(r#"{"error": "something else"}"#), ClientError::Unknown));
    assert!(matches!(parse_error(r#"{"error": 12}"#), ClientError::Unknown));
    assert!(matches!(parse_error(r#"{"message": "database not found"}"#), ClientError::Unknown));
    assert!(matches!(parse_error("not json"), ClientError::Unknown));
    assert!(matches!(parse_error(r#"["database not found"]"#), ClientError::Unknown));
    assert_eq!(ClientError::DatabaseNotFound.message(), "Database not found");
}

#[test]
fn payload_joins_lines() {
    let first = LineBuilder::new("m").insert_field("a", 1i64).build();
    let second = LineBuilder::new("n").insert_tag("t", "v").insert_field("b", float(0.5)).build();
    let lines = vec![first.clone(), second];
    assert_eq!(
        rinfluxdb::line_protocol::payload(&lines, &write_float),
        "m a=1\nn,t=v b=0.5"
    );
    assert_eq!(rinfluxdb::line_protocol::payload(&vec![first.clone()], &write_float), "m a=1");
    assert_eq!(rinfluxdb::line_protocol::payload(&Vec::new(), &write_float), "");
    assert_eq!(rinfluxdb::line_protocol::write_query("my db"), "db=my db");
    assert_eq!(first.clone(), first);
}

#[test]
fn client_error_messages() {
    assert_eq!(ClientError::FieldTypeConflict.message(), "Field type conflict");
    assert_eq!(ClientError::Unknown.message(), "Unknown error");
}
