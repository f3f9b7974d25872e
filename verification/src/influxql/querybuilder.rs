//! Building InfluxQL queries step by step.

use vstd::prelude::*;
use vstd::string::*;

use super::query::Query;
use crate::text::{joined, push_joined};
use crate::types::Instant;

verus! {

/// A builder for InfluxQL queries
///
/// A query that selects the fields `temperature` and `humidity` from the
/// measurement `indoor_environment`, starting at some instant, reads
///
/// ```text
/// SELECT temperature, humidity FROM indoor_environment WHERE time > '2021-03-07T21:00:00Z'
/// ```
pub struct QueryBuilder {
    measurement: String,
    database: Option<String>,
    retention_policy: Option<String>,
    fields: Vec<String>,
    start: Option<Instant>,
    stop: Option<Instant>,
    groups: Vec<String>,
}

/// What a `QueryBuilder` holds.
pub struct QueryBuilderView {
    pub measurement: Seq<char>,
    pub database: Option<Seq<char>>,
    pub retention_policy: Option<Seq<char>>,
    pub fields: Seq<Seq<char>>,
    pub start: Option<Instant>,
    pub stop: Option<Instant>,
    pub groups: Seq<Seq<char>>,
}

impl View for QueryBuilder {
    type V = QueryBuilderView;

    closed spec fn view(&self) -> QueryBuilderView {
        QueryBuilderView {
            measurement: self.measurement@,
            database: self.database.deep_view(),
            retention_policy: self.retention_policy.deep_view(),
            fields: self.fields.deep_view(),
            start: self.start,
            stop: self.stop,
            groups: self.groups.deep_view(),
        }
    }
}

/// The `SELECT` clause: the fields joined by commas, or `*` for all.
pub open spec fn select_text(fields: Seq<Seq<char>>) -> Seq<char> {
    if fields.len() == 0 {
        "SELECT *"@
    } else {
        "SELECT "@ + joined(fields, ", "@)
    }
}

/// The `FROM` clause: database, retention policy and measurement joined by
/// dots; database and retention policy may be left out.
pub open spec fn from_text(
    database: Option<Seq<char>>,
    retention_policy: Option<Seq<char>>,
    measurement: Seq<char>,
) -> Seq<char> {
    match (database, retention_policy) {
        (Some(database), Some(retention_policy)) => " FROM "@ + database + "."@ + retention_policy
            + "."@ + measurement,
        (Some(database), None) => " FROM "@ + database + ".."@ + measurement,
        (None, Some(retention_policy)) => " FROM ."@ + retention_policy + "."@ + measurement,
        (None, None) => " FROM "@ + measurement,
    }
}

/// The `WHERE` clause: the bounds on the time, where there are any.
pub open spec fn where_text(start: Option<Instant>, stop: Option<Instant>) -> Seq<char> {
    match (start, stop) {
        (Some(start), Some(stop)) => " WHERE time > '"@ + start.text() + "' AND time < '"@
            + stop.text() + "'"@,
        (Some(start), None) => " WHERE time > '"@ + start.text() + "'"@,
        (None, Some(stop)) => " WHERE time < '"@ + stop.text() + "'"@,
        (None, None) => Seq::empty(),
    }
}

/// The `GROUP BY` clause: the tags joined by commas, where there are any.
pub open spec fn group_text(groups: Seq<Seq<char>>) -> Seq<char> {
    if groups.len() == 0 {
        Seq::empty()
    } else {
        " GROUP BY "@ + joined(groups, ", "@)
    }
}

/// The text of the query that a builder stands for.
pub open spec fn query_text(builder: QueryBuilderView) -> Seq<char> {
    select_text(builder.fields) + from_text(
        builder.database,
        builder.retention_policy,
        builder.measurement,
    ) + where_text(builder.start, builder.stop) + group_text(builder.groups)
}

impl QueryBuilder {
    /// Create a query selecting from a measurement
    ///
    /// This sets the measurement in the `FROM` clause.
    pub fn from<T: Into<String>>(measurement: T) -> (builder: Self)
        ensures
            exists|text: String| #[trigger]
                call_ensures(<T as Into<String>>::into, (measurement,), text) && builder@ == (
                QueryBuilderView {
                    measurement: text@,
                    database: None,
                    retention_policy: None,
                    fields: Seq::empty(),
                    start: None,
                    stop: None,
                    groups: Seq::empty(),
                }),
    {
        let text: String = measurement.into();
        assert(call_ensures(<T as Into<String>>::into, (measurement,), text));
        let builder = QueryBuilder {
            measurement: text,
            database: None,
            retention_policy: None,
            fields: Vec::new(),
            start: None,
            stop: None,
            groups: Vec::new(),
        };
        proof {
            assert(builder@.fields =~= Seq::empty());
            assert(builder@.groups =~= Seq::empty());
        }
        builder
    }

    /// Set the database
    ///
    /// This sets the database in the `FROM` clause:
    /// `database.retention_policy.measurement`.
    pub fn database<T: Into<String>>(self, database: T) -> (builder: Self)
        ensures
            exists|text: String| #[trigger]
                call_ensures(<T as Into<String>>::into, (database,), text) && builder@ == (
                QueryBuilderView { database: Some(text@), ..self@ }),
    {
        let text: String = database.into();
        assert(call_ensures(<T as Into<String>>::into, (database,), text));
        let mut builder = self;
        builder.database = Some(text);
        builder
    }

    /// Set the retention policy
    ///
    /// This sets the retention policy in the `FROM` clause:
    /// `database.retention_policy.measurement`.
    pub fn retention_policy<T: Into<String>>(self, retention_policy: T) -> (builder: Self)
        ensures
            exists|text: String| #[trigger]
                call_ensures(<T as Into<String>>::into, (retention_policy,), text) && builder@ == (
                QueryBuilderView { retention_policy: Some(text@), ..self@ }),
    {
        let text: String = retention_policy.into();
        assert(call_ensures(<T as Into<String>>::into, (retention_policy,), text));
        let mut builder = self;
        builder.retention_policy = Some(text);
        builder
    }

    /// Add a field to the query
    pub fn field<T: Into<String>>(self, field: T) -> (builder: Self)
        ensures
            exists|text: String| #[trigger]
                call_ensures(<T as Into<String>>::into, (field,), text) && builder@ == (
                QueryBuilderView { fields: self@.fields.push(text@), ..self@ }),
    {
        let text: String = field.into();
        assert(call_ensures(<T as Into<String>>::into, (field,), text));
        let mut builder = self;
        builder.fields.push(text);
        proof {
            assert(builder@.fields =~= self@.fields.push(text@));
        }
        builder
    }

    /// Restrict query results to a start time
    pub fn start<T: Into<Instant>>(self, start: T) -> (builder: Self)
        ensures
            exists|instant: Instant| #[trigger]
                call_ensures(<T as Into<Instant>>::into, (start,), instant) && builder@ == (
                QueryBuilderView { start: Some(instant), ..self@ }),
    {
        let instant: Instant = start.into();
        assert(call_ensures(<T as Into<Instant>>::into, (start,), instant));
        let mut builder = self;
        builder.start = Some(instant);
        builder
    }

    /// Restrict query results to a stop time
    pub fn stop<T: Into<Instant>>(self, stop: T) -> (builder: Self)
        ensures
            exists|instant: Instant| #[trigger]
                call_ensures(<T as Into<Instant>>::into, (stop,), instant) && builder@ == (
                QueryBuilderView { stop: Some(instant), ..self@ }),
    {
        let instant: Instant = stop.into();
        assert(call_ensures(<T as Into<Instant>>::into, (stop,), instant));
        let mut builder = self;
        builder.stop = Some(instant);
        builder
    }

    /// Group by a tag
    pub fn group_by<T: Into<String>>(self, tag: T) -> (builder: Self)
        ensures
            exists|text: String| #[trigger]
                call_ensures(<T as Into<String>>::into, (tag,), text) && builder@ == (
                QueryBuilderView { groups: self@.groups.push(text@), ..self@ }),
    {
        let text: String = tag.into();
        assert(call_ensures(<T as Into<String>>::into, (tag,), text));
        let mut builder = self;
        builder.groups.push(text);
        proof {
            assert(builder@.groups =~= self@.groups.push(text@));
        }
        builder
    }

    /// Create the InfluxQL query
    pub fn build(self) -> (query: Query)
        ensures
            query@ == query_text(self@),
    {
        let mut result = String::new();
        if self.fields.len() == 0 {
            result.append("SELECT *");
        } else {
            result.append("SELECT ");
            push_joined(&mut result, &self.fields, ", ");
        }
        assert(result@ =~= select_text(self@.fields));
        let ghost selected = result@;
        match (&self.database, &self.retention_policy) {
            (Some(database), Some(retention_policy)) => {
                result.append(" FROM ");
                result.append(database.as_str());
                result.append(".");
                result.append(retention_policy.as_str());
                result.append(".");
                result.append(self.measurement.as_str());
            },
            (Some(database), None) => {
                result.append(" FROM ");
                result.append(database.as_str());
                result.append("..");
                result.append(self.measurement.as_str());
            },
            (None, Some(retention_policy)) => {
                result.append(" FROM .");
                result.append(retention_policy.as_str());
                result.append(".");
                result.append(self.measurement.as_str());
            },
            (None, None) => {
                result.append(" FROM ");
                result.append(self.measurement.as_str());
            },
        }
        assert(result@ =~= selected + from_text(
            self@.database,
            self@.retention_policy,
            self@.measurement,
        ));
        let ghost sourced = result@;
        match (&self.start, &self.stop) {
            (Some(start), Some(stop)) => {
                result.append(" WHERE time > '");
                result.append(start.to_rfc3339().as_str());
                result.append("' AND time < '");
                result.append(stop.to_rfc3339().as_str());
                result.append("'");
            },
            (Some(start), None) => {
                result.append(" WHERE time > '");
                result.append(start.to_rfc3339().as_str());
                result.append("'");
            },
            (None, Some(stop)) => {
                result.append(" WHERE time < '");
                result.append(stop.to_rfc3339().as_str());
                result.append("'");
            },
            (None, None) => {},
        }
        assert(result@ =~= sourced + where_text(self@.start, self@.stop));
        let ghost bounded = result@;
        if self.groups.len() > 0 {
            result.append(" GROUP BY ");
            push_joined(&mut result, &self.groups, ", ");
        }
        assert(result@ =~= bounded + group_text(self@.groups));
        Query::from_text(result)
    }
}

} // verus!
