use chrono::{TimeZone, Utc};

use rinfluxdb::flux::querybuilder::push_filter_body;
use rinfluxdb::flux::Query as FluxQuery;
use rinfluxdb::flux::QueryBuilder as FluxQueryBuilder;
use rinfluxdb::influxql::{Query, QueryBuilder};
use rinfluxdb::types::{Duration, Instant, InstantOrDuration};

fn instant(year: i32, month: u32, day: u32, hour: u32, minute: u32, second: u32) -> Instant {
    let date = Utc.with_ymd_and_hms(year, month, day, hour, minute, second).unwrap();
    Instant::from_timestamp(date.timestamp(), date.timestamp_subsec_nanos()).unwrap()
}

#[test]
fn simple_query() {
    let expected = Query::new(
        "SELECT temperature, humidity \
            FROM indoor_environment",
    );

    let actual = QueryBuilder::from("indoor_environment")
        .field("temperature")
        .field("humidity")
        .build();

    assert_eq!(actual, expected);
}

#[test]
fn simple_query_all_fields() {
    let expected = Query::new(
        "SELECT * \
            FROM indoor_environment",
    );

    let actual = QueryBuilder::from("indoor_environment").build();

    assert_eq!(actual, expected);
}

#[test]
fn simple_query_with_range() {
    let expected = Query::new(
        "SELECT temperature, humidity \
            FROM indoor_environment \
            WHERE time > '2021-03-07T21:00:00Z' AND time < '2021-03-07T22:00:00Z'",
    );

    let actual = QueryBuilder::from("indoor_environment")
        .field("temperature")
        .field("humidity")
        .start(instant(2021, 3, 7, 21, 0, 0))
        .stop(instant(2021, 3, 7, 22, 0, 0))
        .build();

    assert_eq!(actual, expected);
}

#[test]
fn simple_query_with_start() {
    let expected = Query::new(
        "SELECT temperature, humidity \
            FROM indoor_environment \
            WHERE time > '2021-03-07T21:00:00Z'",
    );

    let actual = QueryBuilder::from("indoor_environment")
        .field("temperature")
        .field("humidity")
        .start(instant(2021, 3, 7, 21, 0, 0))
        .build();

    assert_eq!(actual, expected);
}

#[test]
fn simple_query_with_stop() {
    let expected = Query::new(
        "SELECT temperature, humidity \
            FROM indoor_environment \
            WHERE time < '2021-03-07T22:00:00Z'",
    );

    let actual = QueryBuilder::from("indoor_environment")
        .field("temperature")
        .field("humidity")
        .stop(instant(2021, 3, 7, 22, 0, 0))
        .build();

    assert_eq!(actual, expected);
}

#[test]
fn simple_query_with_stop_and_groups() {
    let expected = Query::new(
        "SELECT temperature, humidity \
            FROM indoor_environment \
            WHERE time < '2021-03-07T22:00:00Z' \
            GROUP BY room",
    );

    let actual = QueryBuilder::from("indoor_environment")
        .field("temperature")
        .field("humidity")
        .stop(instant(2021, 3, 7, 22, 0, 0))
        .group_by("room")
        .build();

    assert_eq!(actual, expected);
}

#[test]
fn query_with_database_and_retention_policy() {
    let both = QueryBuilder::from("indoor_environment")
        .database("house")
        .retention_policy("autogen")
        .field("temperature")
        .group_by("room")
        .group_by("floor")
        .build();
    assert_eq!(
        both.as_ref(),
        "SELECT temperature FROM house.autogen.indoor_environment GROUP BY room, floor"
    );
    let database = QueryBuilder::from("m").database("house").build();
    assert_eq!(database.as_ref(), "SELECT * FROM house..m");
    let policy = QueryBuilder::from("m").retention_policy("autogen").build();
    assert_eq!(policy.as_ref(), "SELECT * FROM .autogen.m");
}

#[test]
fn query_with_fraction_of_second() {
    let start = Instant::from_timestamp(1615150800, 500_000_000).unwrap();
    let actual = QueryBuilder::from("m").start(start).build();
    assert_eq!(actual.as_ref(), "SELECT * FROM m WHERE time > '2021-03-07T21:00:00.500Z'");
}

#[test]
fn querybuilder_simple_query() {
    let expected = FluxQuery::new(
        "from(bucket: \"telegraf/autogen\")
  |> range(start: -15m)
  |> yield()",
    );

    let actual = FluxQueryBuilder::from("telegraf/autogen")
        .range_start(Duration::Minutes(-15))
        .build();

    assert_eq!(actual, expected);
}

#[test]
fn simple_query_with_filter() {
    let expected = FluxQuery::new(
        r#"from(bucket: "telegraf/autogen")
  |> range(start: -15m)
  |> filter(fn: (r) =>
    r._measurement == "cpu" and
    r._field == "usage_system" and
    r.cpu == "cpu-total"
  )
  |> yield()"#,
    );

    let actual = FluxQueryBuilder::from("telegraf/autogen")
        .range_start(Duration::Minutes(-15))
        .filter(
            r#"r._measurement == "cpu" and
                r._field == "usage_system" and
                r.cpu == "cpu-total""#,
        )
        .build();

    assert_eq!(actual, expected);
}

#[test]
fn simple_query_with_statements() {
    let expected = FluxQuery::new(
        r#"from(bucket: "telegraf/autogen")
  |> range(start: -1h)
  |> filter(fn: (r) =>
    r._measurement == "cpu" and
    r._field == "usage_system" and
    r.cpu == "cpu-total"
  )
  |> window(every: 5m)
  |> mean()
  |> duplicate(column: "_stop", as: "_time")
  |> window(every: inf)
  |> yield()"#,
    );

    let actual = FluxQueryBuilder::from("telegraf/autogen")
        .range_start(Duration::Hours(-1))
        .filter(
            r#"r._measurement == "cpu" and
                r._field == "usage_system" and
                r.cpu == "cpu-total""#,
        )
        .window(Duration::Minutes(5))
        .mean()
        .duplicate("_stop", "_time")
        .window(Duration::Infinity)
        .build();

    assert_eq!(actual, expected);
}

#[test]
fn flux_ranges_and_windows() {
    let start = instant(2021, 3, 7, 21, 0, 0);
    let actual = FluxQueryBuilder::from("b")
        .range(start, Duration::Seconds(0))
        .range_stop(InstantOrDuration::Duration(Duration::Days(-1)))
        .aggregate("max")
        .aggregate_window("mean", Duration::Milliseconds(250))
        .window(chrono::Duration::milliseconds(90_500))
        .build();
    assert_eq!(
        actual.as_ref(),
        "from(bucket: \"b\")
  |> range(start: '2021-03-07T21:00:00Z', stop: 0s)
  |> range(stop: -1d)
  |> max()
  |> aggregate_window(fn: mean, every: 250ms)
  |> window(every: 90s)
  |> yield()"
    );
}

#[test]
fn durations_as_text() {
    assert_eq!(Duration::Nanoseconds(5).to_string(), "5ns");
    assert_eq!(Duration::Microseconds(-5).to_string(), "-5us");
    assert_eq!(Duration::Milliseconds(0).to_string(), "0ms");
    assert_eq!(Duration::Seconds(i64::MIN).to_string(), "-9223372036854775808s");
    assert_eq!(Duration::Minutes(i64::MAX).to_string(), "9223372036854775807m");
    assert_eq!(Duration::Hours(12).to_string(), "12h");
    assert_eq!(Duration::Days(100).to_string(), "100d");
    assert_eq!(Duration::Infinity.to_string(), "inf");
    let instant = InstantOrDuration::from(instant(2021, 3, 10, 22, 43, 32));
    assert_eq!(instant.to_string(), "'2021-03-10T22:43:32Z'");
    assert_eq!(InstantOrDuration::from(Duration::Minutes(-4)).to_string(), "-4m");
    assert_eq!(Duration::from(chrono::Duration::seconds(-3)), Duration::Seconds(-3));
}

#[test]
fn filter_lines_as_the_standard_library_splits_them() {
    let samples = [
        "",
        "\n",
        "a",
        "a\n",
        "a\r\n",
        "a\r",
        "\r",
        "\r\n",
        "a\n\nb",
        "  a\n\t b \r\n\r\nc\r",
        "\u{a0}x\n\u{2003}\u{3000}y\n \u{200b}z",
        "first\r\r\nsecond\n\n",
        " \n  \n",
        "\u{85}\u{1680}\u{2028}\u{2029}\u{202f}\u{205f}w\u{b}\u{c}",
    ];
    for sample in samples {
        let mut expected = String::from(">");
        for line in sample.lines() {
            expected.push_str("    ");
            expected.push_str(line.trim_start());
            expected.push('\n');
        }
        let mut actual = String::from(">");
        push_filter_body(&mut actual, sample);
        assert_eq!(actual, expected, "{:?}", sample);
    }
}
