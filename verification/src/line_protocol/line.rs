//! Lines of the line protocol.

use vstd::prelude::*;
use vstd::string::*;

use super::escape::{escape_name, escaped_name};
use super::field_name::FieldName;
use super::field_value::{is_field_text, is_writable, FieldValue, FieldValueView};
use super::measurement::Measurement;
use super::tag_name::TagName;
use super::tag_value::TagValue;
use crate::sorting::{sort_texts, text_order};
use crate::text::{chars_of, decimal, joined, push_char, push_decimal};
use crate::types::name_map::{names_with, values_with};
use crate::types::{Float64, Instant, NameMap};

verus! {

/// A line in the Influx Line Protocol
#[derive(Debug, PartialEq)]
pub struct Line {
    measurement: Measurement,
    fields: NameMap<FieldValue>,
    tags: NameMap<TagValue>,
    timestamp: Option<Instant>,
}

/// What a `Line` holds: the measurement, the names of the fields and, at
/// the same positions, their values, the names of the tags and, at the same
/// positions, their values, and the timestamp. Fields and tags stand in the
/// order in which their names were first inserted.
pub struct LineView {
    pub measurement: Seq<char>,
    pub field_names: Seq<Seq<char>>,
    pub field_values: Seq<FieldValueView>,
    pub tag_names: Seq<Seq<char>>,
    pub tag_values: Seq<Seq<char>>,
    pub timestamp: Option<Instant>,
}

/// What field values hold.
pub open spec fn field_views(values: Seq<FieldValue>) -> Seq<FieldValueView> {
    Seq::new(values.len(), |i: int| values[i]@)
}

/// What tag values hold.
pub open spec fn tag_views(values: Seq<TagValue>) -> Seq<Seq<char>> {
    Seq::new(values.len(), |i: int| values[i]@)
}

impl View for Line {
    type V = LineView;

    closed spec fn view(&self) -> LineView {
        LineView {
            measurement: self.measurement@,
            field_names: self.fields.names(),
            field_values: field_views(self.fields.values()),
            tag_names: self.tags.names(),
            tag_values: tag_views(self.tags.values()),
            timestamp: self.timestamp,
        }
    }
}

impl LineView {
    /// Whether the line can be written: every field value can, and the
    /// nanoseconds of the timestamp since the epoch fit in 64 bits.
    pub open spec fn is_writable(self) -> bool {
        &&& forall|i: int|
            0 <= i < self.field_values.len() ==> is_writable(#[trigger] self.field_values[i])
        &&& match self.timestamp {
            Some(instant) => i64::MIN <= instant.nanos_since_epoch() <= i64::MAX,
            None => true,
        }
    }

    /// The value of the field called `name`.
    pub open spec fn field(self, name: Seq<char>) -> Option<FieldValueView> {
        if self.field_names.contains(name) {
            Some(self.field_values[self.field_names.index_of(name)])
        } else {
            None
        }
    }

    /// The value of the tag called `name`.
    pub open spec fn tag(self, name: Seq<char>) -> Option<Seq<char>> {
        if self.tag_names.contains(name) {
            Some(self.tag_values[self.tag_names.index_of(name)])
        } else {
            None
        }
    }
}

/// The tags as they are written in a line: for each tag a comma, the name,
/// an equals sign and the value, name and value escaped.
pub open spec fn tags_text(names: Seq<Seq<char>>, values: Seq<Seq<char>>) -> Seq<char>
    decreases names.len(),
{
    if names.len() == 0 {
        Seq::empty()
    } else {
        tags_text(names.drop_last(), values) + seq![','] + escaped_name(names.last()) + seq!['=']
            + escaped_name(values[names.len() - 1])
    }
}

/// The timestamp as it is written at the end of a line: a space and the
/// nanoseconds since the epoch; nothing where there is no timestamp.
pub open spec fn stamp_text(timestamp: Option<Instant>) -> Seq<char> {
    match timestamp {
        Some(instant) => seq![' '] + decimal(instant.nanos_since_epoch()),
        None => Seq::empty(),
    }
}

/// Whether `text` is what is written for a field: the escaped name, an
/// equals sign and the text of the value.
pub open spec fn is_field_chunk<F: Fn(Float64) -> String>(
    name: Seq<char>,
    value: FieldValueView,
    text: Seq<char>,
    format_float: F,
) -> bool {
    exists|value_text: Seq<char>| #[trigger]
        is_field_text(value, value_text, format_float) && text == escaped_name(name) + seq!['=']
            + value_text
}

/// Whether `texts` holds, for each field of the line and in the order of
/// the fields, what is written for the field.
pub open spec fn are_field_chunks<F: Fn(Float64) -> String>(
    line: LineView,
    texts: Seq<Seq<char>>,
    format_float: F,
) -> bool {
    &&& texts.len() == line.field_names.len()
    &&& forall|i: int|
        0 <= i < texts.len() ==> is_field_chunk(
            line.field_names[i],
            line.field_values[i],
            #[trigger] texts[i],
            format_float,
        )
}

/// The line made of the texts of its fields: the escaped measurement, the
/// tags, a space, the fields in ascending order of their texts and joined
/// by commas, and the timestamp.
pub open spec fn line_text(line: LineView, field_texts: Seq<Seq<char>>) -> Seq<char> {
    escaped_name(line.measurement) + tags_text(line.tag_names, line.tag_values) + seq![' ']
        + joined(field_texts.sort_by(text_order()), seq![',']) + stamp_text(line.timestamp)
}

/// Whether `text` is the line as it is written, where `format_float` writes
/// the floating point numbers.
pub open spec fn is_line_text<F: Fn(Float64) -> String>(
    line: LineView,
    text: Seq<char>,
    format_float: F,
) -> bool {
    exists|field_texts: Seq<Seq<char>>| #[trigger]
        are_field_chunks(line, field_texts, format_float) && text == line_text(line, field_texts)
}

/// Appends the characters of `text` to `out`.
fn push_chars(out: &mut String, text: &Vec<char>)
    ensures
        final(out)@ == old(out)@ + text@,
{
    let mut i: usize = 0;
    proof {
        assert(out@ =~= old(out)@ + text@.take(0));
    }
    while i < text.len()
        invariant
            i <= text@.len(),
            out@ == old(out)@ + text@.take(i as int),
        decreases text@.len() - i,
    {
        push_char(out, text[i]);
        proof {
            assert(old(out)@ + text@.take(i as int + 1) =~= (old(out)@ + text@.take(i as int)).push(
                text@[i as int],
            ));
        }
        i += 1;
    }
    proof {
        assert(text@.take(text@.len() as int) =~= text@);
    }
}

impl Line {
    /// Create a new line for a measurement, without fields, tags or
    /// timestamp.
    pub fn new<M: Into<Measurement>>(measurement: M) -> (line: Self)
        ensures
            exists|converted: Measurement| #[trigger]
                call_ensures(<M as Into<Measurement>>::into, (measurement,), converted)
                    && line@.measurement == converted@,
            line@.field_names.len() == 0,
            line@.field_values.len() == 0,
            line@.tag_names.len() == 0,
            line@.tag_values.len() == 0,
            line@.timestamp is None,
    {
        let converted: Measurement = measurement.into();
        assert(call_ensures(<M as Into<Measurement>>::into, (measurement,), converted));
        Line { measurement: converted, fields: NameMap::new(), tags: NameMap::new(), timestamp: None }
    }

    /// Return the measurement
    pub fn measurement(&self) -> (measurement: &Measurement)
        ensures
            measurement@ == self@.measurement,
    {
        &self.measurement
    }

    /// Insert a field in the line. A field of the same name is replaced.
    pub fn insert_field<N: Into<FieldName>, V: Into<FieldValue>>(&mut self, name: N, value: V)
        ensures
            exists|field_name: FieldName, field_value: FieldValue|
                #![trigger call_ensures(<N as Into<FieldName>>::into, (name,), field_name), call_ensures(<V as Into<FieldValue>>::into, (value,), field_value)]
                call_ensures(<N as Into<FieldName>>::into, (name,), field_name) && call_ensures(
                    <V as Into<FieldValue>>::into,
                    (value,),
                    field_value,
                ) && final(self)@ == (LineView {
                    field_names: names_with(old(self)@.field_names, field_name@),
                    field_values: values_with(
                        old(self)@.field_names,
                        old(self)@.field_values,
                        field_name@,
                        field_value@,
                    ),
                    ..old(self)@
                }),
    {
        let field_name: FieldName = name.into();
        let field_value: FieldValue = value.into();
        assert(call_ensures(<N as Into<FieldName>>::into, (name,), field_name));
        assert(call_ensures(<V as Into<FieldValue>>::into, (value,), field_value));
        let ghost before = self.fields;
        self.fields.insert(field_name.into_string(), field_value);
        proof {
            assert(field_views(self.fields.values()) =~= values_with(
                before.names(),
                field_views(before.values()),
                field_name@,
                field_value@,
            ));
        }
    }

    /// Return the value of a field
    pub fn field<N: Into<FieldName>>(&self, name: N) -> (found: Option<&FieldValue>)
        ensures
            exists|field_name: FieldName| #[trigger]
                call_ensures(<N as Into<FieldName>>::into, (name,), field_name) && match found {
                    Some(value) => self@.field(field_name@) == Some(value@),
                    None => self@.field(field_name@) is None,
                },
    {
        let field_name: FieldName = name.into();
        assert(call_ensures(<N as Into<FieldName>>::into, (name,), field_name));
        match self.fields.position(field_name.as_str()) {
            Some(i) => {
                proof {
                    crate::types::name_map::lemma_index_is_position(self.fields.names(), i as int);
                }
                Some(self.fields.value_at(i))
            },
            None => None,
        }
    }

    /// Insert a tag in the line. A tag of the same name is replaced.
    pub fn insert_tag<N: Into<TagName>, V: Into<TagValue>>(&mut self, name: N, value: V)
        ensures
            exists|tag_name: TagName, tag_value: TagValue|
                #![trigger call_ensures(<N as Into<TagName>>::into, (name,), tag_name), call_ensures(<V as Into<TagValue>>::into, (value,), tag_value)]
                call_ensures(<N as Into<TagName>>::into, (name,), tag_name) && call_ensures(
                    <V as Into<TagValue>>::into,
                    (value,),
                    tag_value,
                ) && final(self)@ == (LineView {
                    tag_names: names_with(old(self)@.tag_names, tag_name@),
                    tag_values: values_with(
                        old(self)@.tag_names,
                        old(self)@.tag_values,
                        tag_name@,
                        tag_value@,
                    ),
                    ..old(self)@
                }),
    {
        let tag_name: TagName = name.into();
        let tag_value: TagValue = value.into();
        assert(call_ensures(<N as Into<TagName>>::into, (name,), tag_name));
        assert(call_ensures(<V as Into<TagValue>>::into, (value,), tag_value));
        let ghost before = self.tags;
        self.tags.insert(tag_name.into_string(), tag_value);
        proof {
            assert(tag_views(self.tags.values()) =~= values_with(
                before.names(),
                tag_views(before.values()),
                tag_name@,
                tag_value@,
            ));
        }
    }

    /// Return the value of a tag
    pub fn tag<N: Into<TagName>>(&self, name: N) -> (found: Option<&TagValue>)
        ensures
            exists|tag_name: TagName| #[trigger]
                call_ensures(<N as Into<TagName>>::into, (name,), tag_name) && match found {
                    Some(value) => self@.tag(tag_name@) == Some(value@),
                    None => self@.tag(tag_name@) is None,
                },
    {
        let tag_name: TagName = name.into();
        assert(call_ensures(<N as Into<TagName>>::into, (name,), tag_name));
        match self.tags.position(tag_name.as_str()) {
            Some(i) => {
                proof {
                    crate::types::name_map::lemma_index_is_position(self.tags.names(), i as int);
                }
                Some(self.tags.value_at(i))
            },
            None => None,
        }
    }

    /// Set the line timestamp
    pub fn set_timestamp(&mut self, timestamp: Instant)
        ensures
            final(self)@ == (LineView { timestamp: Some(timestamp), ..old(self)@ }),
    {
        self.timestamp = Some(timestamp);
    }

    /// Return the line timestamp
    pub fn timestamp(&self) -> (timestamp: Option<&Instant>)
        ensures
            match timestamp {
                Some(instant) => self@.timestamp == Some(*instant),
                None => self@.timestamp is None,
            },
    {
        self.timestamp.as_ref()
    }

    /// Whether the line can be written: every field value can, and the
    /// nanoseconds of the timestamp since the epoch fit in 64 bits.
    pub fn can_be_written(&self) -> (writable: bool)
        ensures
            writable == self@.is_writable(),
    {
        let stamp_fits = match &self.timestamp {
            Some(instant) => instant.timestamp_nanos().is_some(),
            None => true,
        };
        if !stamp_fits {
            return false;
        }
        let mut i: usize = 0;
        while i < self.fields.len()
            invariant
                i <= self.fields.names().len(),
                stamp_fits,
                forall|j: int| 0 <= j < i ==> is_writable(#[trigger] self@.field_values[j]),
            decreases self.fields.names().len() - i,
        {
            if !self.fields.value_at(i).can_be_written() {
                assert(!is_writable(self@.field_values[i as int]));
                return false;
            }
            i += 1;
        }
        true
    }

    /// The line as it is written in the line protocol: the measurement, the
    /// tags in the order of their insertion, the fields in ascending order
    /// of their texts, and the timestamp in nanoseconds. Floating point
    /// numbers are written by `format_float`.
    pub fn to_line_protocol<F: Fn(Float64) -> String>(&self, format_float: &F) -> (text: String)
        requires
            self@.is_writable(),
            forall|number: Float64| call_requires(*format_float, (number,)),
        ensures
            is_line_text(self@, text@, *format_float),
    {
        let mut chunks: Vec<Vec<char>> = Vec::new();
        let mut i: usize = 0;
        while i < self.fields.len()
            invariant
                i <= self.fields.names().len(),
                self@.is_writable(),
                forall|number: Float64| call_requires(*format_float, (number,)),
                chunks@.len() == i,
                forall|j: int|
                    0 <= j < i ==> is_field_chunk(
                        self@.field_names[j],
                        self@.field_values[j],
                        #[trigger] chunks.deep_view()[j],
                        *format_float,
                    ),
            decreases self.fields.names().len() - i,
        {
            let value = self.fields.value_at(i);
            assert(value@ == self@.field_values[i as int]);
            let mut chunk = escape_name(self.fields.name_at(i).as_str());
            push_char(&mut chunk, '=');
            let value_text = value.escape_to_line_protocol(format_float);
            chunk.append(value_text.as_str());
            let characters = chars_of(chunk.as_str());
            let ghost before = chunks.deep_view();
            chunks.push(characters);
            proof {
                assert(characters.deep_view() =~= characters@);
                assert(chunks.deep_view() =~= before.push(characters@));
                assert(is_field_text(value@, value_text@, *format_float));
                assert(characters@ =~= escaped_name(self@.field_names[i as int]) + seq!['=']
                    + value_text@);
            }
            i += 1;
        }
        let ghost field_texts = chunks.deep_view();
        let sorted = sort_texts(chunks);
        let mut text = self.measurement.escape_to_line_protocol();
        let mut t: usize = 0;
        proof {
            assert(self@.tag_names.take(0) =~= Seq::<Seq<char>>::empty());
            assert(text@ =~= escaped_name(self@.measurement) + tags_text(
                self@.tag_names.take(0),
                self@.tag_values,
            ));
        }
        while t < self.tags.len()
            invariant
                t <= self.tags.names().len(),
                text@ == escaped_name(self@.measurement) + tags_text(
                    self@.tag_names.take(t as int),
                    self@.tag_values,
                ),
            decreases self.tags.names().len() - t,
        {
            let ghost before = text@;
            push_char(&mut text, ',');
            let name = escape_name(self.tags.name_at(t).as_str());
            text.append(name.as_str());
            push_char(&mut text, '=');
            let value = self.tags.value_at(t).escape_to_line_protocol();
            text.append(value.as_str());
            proof {
                let shorter = self@.tag_names.take(t as int);
                let longer = self@.tag_names.take(t + 1);
                assert(longer.drop_last() =~= shorter);
                assert(longer.last() == self@.tag_names[t as int]);
                assert(text@ =~= escaped_name(self@.measurement) + (tags_text(
                    shorter,
                    self@.tag_values,
                ) + seq![','] + escaped_name(longer.last()) + seq!['='] + escaped_name(
                    self@.tag_values[longer.len() - 1],
                )));
            }
            t += 1;
        }
        proof {
            assert(self@.tag_names.take(self@.tag_names.len() as int) =~= self@.tag_names);
        }
        push_char(&mut text, ' ');
        let ghost head = text@;
        let ghost ordered = sorted.deep_view();
        let mut k: usize = 0;
        proof {
            assert(ordered.take(0) =~= Seq::<Seq<char>>::empty());
            assert(text@ =~= head + joined(ordered.take(0), seq![',']));
        }
        while k < sorted.len()
            invariant
                k <= sorted@.len(),
                ordered == sorted.deep_view(),
                text@ == head + joined(ordered.take(k as int), seq![',']),
            decreases sorted@.len() - k,
        {
            if k > 0 {
                push_char(&mut text, ',');
            }
            push_chars(&mut text, &sorted[k]);
            proof {
                let shorter = ordered.take(k as int);
                let longer = ordered.take(k + 1);
                assert(longer.drop_last() =~= shorter);
                assert(sorted@[k as int].deep_view() =~= sorted@[k as int]@);
                assert(longer.last() == sorted@[k as int]@);
                if k > 0 {
                    assert(text@ =~= head + (joined(shorter, seq![',']) + seq![','] + longer.last()));
                } else {
                    assert(joined(shorter, seq![',']) =~= Seq::<char>::empty());
                    assert(text@ =~= head + longer[0]);
                }
            }
            k += 1;
        }
        proof {
            assert(ordered.take(ordered.len() as int) =~= ordered);
        }
        let ghost body = text@;
        match &self.timestamp {
            Some(instant) => {
                push_char(&mut text, ' ');
                match instant.timestamp_nanos() {
                    Some(nanos) => {
                        push_decimal(&mut text, nanos);
                    },
                    None => {},
                }
                proof {
                    assert(text@ =~= body + stamp_text(self@.timestamp));
                }
            },
            None => {
                proof {
                    assert(text@ =~= body + stamp_text(self@.timestamp));
                }
            },
        }
        proof {
            assert(are_field_chunks(self@, field_texts, *format_float));
            assert(text@ =~= line_text(self@, field_texts));
        }
        text
    }
}

impl Clone for Line {
    fn clone(&self) -> (copy: Self)
        ensures
            copy@ == self@,
    {
        let copy = Line {
            measurement: self.measurement.clone(),
            fields: self.fields.clone(),
            tags: self.tags.clone(),
            timestamp: self.timestamp,
        };
        proof {
            assert(copy@.field_values =~= self@.field_values);
            assert(copy@.tag_values =~= self@.tag_values);
        }
        copy
    }
}

} // verus!
