//! Building lines step by step.

use vstd::prelude::*;

use super::field_name::FieldName;
use super::field_value::FieldValue;
use super::line::{Line, LineView};
use super::measurement::Measurement;
use super::tag_name::TagName;
use super::tag_value::TagValue;
use crate::types::name_map::{names_with, values_with};
use crate::types::Instant;

verus! {

/// Build a record
#[derive(Debug, PartialEq)]
pub struct LineBuilder {
    line: Line,
}

impl View for LineBuilder {
    type V = LineView;

    /// The line built so far.
    closed spec fn view(&self) -> LineView {
        self.line@
    }
}

impl LineBuilder {
    /// Create a new line for a measurement
    pub fn new<M: Into<Measurement>>(measurement: M) -> (builder: Self)
        ensures
            exists|converted: Measurement| #[trigger]
                call_ensures(<M as Into<Measurement>>::into, (measurement,), converted)
                    && builder@.measurement == converted@,
            builder@.field_names.len() == 0,
            builder@.field_values.len() == 0,
            builder@.tag_names.len() == 0,
            builder@.tag_values.len() == 0,
            builder@.timestamp is None,
    {
        LineBuilder { line: Line::new(measurement) }
    }

    /// Insert a field in the line
    pub fn insert_field<N: Into<FieldName>, V: Into<FieldValue>>(self, name: N, value: V) -> (builder:
        Self)
        ensures
            exists|field_name: FieldName, field_value: FieldValue|
                #![trigger call_ensures(<N as Into<FieldName>>::into, (name,), field_name), call_ensures(<V as Into<FieldValue>>::into, (value,), field_value)]
                call_ensures(<N as Into<FieldName>>::into, (name,), field_name) && call_ensures(
                    <V as Into<FieldValue>>::into,
                    (value,),
                    field_value,
                ) && builder@ == (LineView {
                    field_names: names_with(self@.field_names, field_name@),
                    field_values: values_with(
                        self@.field_names,
                        self@.field_values,
                        field_name@,
                        field_value@,
                    ),
                    ..self@
                }),
    {
        let mut line = self.line;
        line.insert_field(name, value);
        LineBuilder { line }
    }

    /// Insert a tag in the line
    pub fn insert_tag<N: Into<TagName>, V: Into<TagValue>>(self, name: N, value: V) -> (builder: Self)
        ensures
            exists|tag_name: TagName, tag_value: TagValue|
                #![trigger call_ensures(<N as Into<TagName>>::into, (name,), tag_name), call_ensures(<V as Into<TagValue>>::into, (value,), tag_value)]
                call_ensures(<N as Into<TagName>>::into, (name,), tag_name) && call_ensures(
                    <V as Into<TagValue>>::into,
                    (value,),
                    tag_value,
                ) && builder@ == (LineView {
                    tag_names: names_with(self@.tag_names, tag_name@),
                    tag_values: values_with(
                        self@.tag_names,
                        self@.tag_values,
                        tag_name@,
                        tag_value@,
                    ),
                    ..self@
                }),
    {
        let mut line = self.line;
        line.insert_tag(name, value);
        LineBuilder { line }
    }

    /// Set the line timestamp
    pub fn set_timestamp(self, timestamp: Instant) -> (builder: Self)
        ensures
            builder@ == (LineView { timestamp: Some(timestamp), ..self@ }),
    {
        let mut line = self.line;
        line.set_timestamp(timestamp);
        LineBuilder { line }
    }

    /// Build the line
    pub fn build(self) -> (line: Line)
        ensures
            line@ == self@,
    {
        self.line
    }
}

impl Clone for LineBuilder {
    fn clone(&self) -> (copy: Self)
        ensures
            copy@ == self@,
    {
        LineBuilder { line: self.line.clone() }
    }
}

} // verus!
