//! Values of fields.

use vstd::prelude::*;
use vstd::std_specs::convert::FromSpecImpl;
use vstd::string::*;

use super::escape::{expanded, lemma_expanded_push};
use crate::text::{decimal, push_char, push_decimal, push_digits};
use crate::types::{Float64, Instant};

verus! {

/// Represent a field value
#[derive(Debug, PartialEq)]
pub enum FieldValue {
    /// Represent a floating point number field value
    Float(Float64),
    /// Represent a signed integer number field value
    Integer(i64),
    /// Represent an unsigned integer number field value
    UnsignedInteger(u64),
    /// Represent a string field value
    String(String),
    /// Represent a boolean field value
    Boolean(bool),
    /// Represent an instant field value
    ///
    /// The database does not natively support instants as field values, so
    /// this is represented as a nanosecond timestamp.
    Timestamp(Instant),
}

/// What a `FieldValue` holds.
pub enum FieldValueView {
    Float(Float64),
    Integer(i64),
    UnsignedInteger(u64),
    String(Seq<char>),
    Boolean(bool),
    Timestamp(Instant),
}

impl View for FieldValue {
    type V = FieldValueView;

    open spec fn view(&self) -> FieldValueView {
        match *self {
            FieldValue::Float(number) => FieldValueView::Float(number),
            FieldValue::Integer(number) => FieldValueView::Integer(number),
            FieldValue::UnsignedInteger(number) => FieldValueView::UnsignedInteger(number),
            FieldValue::String(text) => FieldValueView::String(text@),
            FieldValue::Boolean(flag) => FieldValueView::Boolean(flag),
            FieldValue::Timestamp(instant) => FieldValueView::Timestamp(instant),
        }
    }
}

impl DeepView for FieldValue {
    type V = FieldValueView;

    open spec fn deep_view(&self) -> FieldValueView {
        self@
    }
}

impl Clone for FieldValue {
    fn clone(&self) -> (copy: FieldValue)
        ensures
            copy@ == self@,
    {
        match self {
            FieldValue::Float(number) => FieldValue::Float(*number),
            FieldValue::Integer(number) => FieldValue::Integer(*number),
            FieldValue::UnsignedInteger(number) => FieldValue::UnsignedInteger(*number),
            FieldValue::String(text) => FieldValue::String(text.clone()),
            FieldValue::Boolean(flag) => FieldValue::Boolean(*flag),
            FieldValue::Timestamp(instant) => FieldValue::Timestamp(*instant),
        }
    }
}

/// A character of a string value as it is written in a line: a double
/// quote becomes two backslashes and the quote, a backslash two
/// backslashes.
pub open spec fn escaped_string_char(c: char) -> Seq<char> {
    if c == '"' {
        seq!['\\', '\\', '"']
    } else if c == '\\' {
        seq!['\\', '\\']
    } else {
        seq![c]
    }
}

/// A string value as it is written in a line: between double quotes, its
/// characters escaped.
pub open spec fn escaped_string(text: Seq<char>) -> Seq<char> {
    seq!['"'] + expanded(text, |c: char| escaped_string_char(c)) + seq!['"']
}

/// Whether a value can be written: an instant where its nanoseconds since
/// the epoch fit in 64 bits, every other value always.
pub open spec fn is_writable(value: FieldValueView) -> bool {
    match value {
        FieldValueView::Timestamp(instant) => i64::MIN <= instant.nanos_since_epoch() <= i64::MAX,
        _ => true,
    }
}

/// Whether `text` is something that `format_float` may write for `number`.
pub open spec fn is_float_text<F: Fn(Float64) -> String>(
    number: Float64,
    text: Seq<char>,
    format_float: F,
) -> bool {
    exists|written: String|
        written@ == text && #[trigger] call_ensures(format_float, (number,), written)
}

/// Whether `text` is what is written for `value` in a line, where
/// `format_float` writes the floating point numbers.
///
/// Integers are written in decimal, booleans as `true` and `false`, a
/// string as `escaped_string` says, an instant as its nanoseconds since the
/// epoch followed by `i`.
pub open spec fn is_field_text<F: Fn(Float64) -> String>(
    value: FieldValueView,
    text: Seq<char>,
    format_float: F,
) -> bool {
    match value {
        FieldValueView::Float(number) => is_float_text(number, text, format_float),
        FieldValueView::Integer(number) => text == decimal(number as int),
        FieldValueView::UnsignedInteger(number) => text == decimal(number as int),
        FieldValueView::String(string) => text == escaped_string(string),
        FieldValueView::Boolean(flag) => text == if flag {
            "true"@
        } else {
            "false"@
        },
        FieldValueView::Timestamp(instant) => text == decimal(instant.nanos_since_epoch()) + seq![
            'i',
        ],
    }
}

/// Escapes a string value for a line.
pub fn escape_string(text: &str) -> (out: String)
    ensures
        out@ == escaped_string(text@),
{
    let mut out = String::new();
    push_char(&mut out, '"');
    let ghost rule = |c: char| escaped_string_char(c);
    proof {
        assert(out@ =~= seq!['"'] + expanded(text@.take(0), rule));
    }
    for c in it: text.chars()
        invariant
            it.seq() == text@,
            rule == (|c: char| escaped_string_char(c)),
            out@ == seq!['"'] + expanded(text@.take(it.index() as int), rule),
    {
        let ghost before = out@;
        proof {
            let k = it.index() as int;
            assert(text@.take(k + 1) =~= text@.take(k).push(c));
            lemma_expanded_push(text@.take(k), c, rule);
        }
        if c == '"' {
            push_char(&mut out, '\\');
            push_char(&mut out, '\\');
        } else if c == '\\' {
            push_char(&mut out, '\\');
        }
        push_char(&mut out, c);
        proof {
            assert(out@ =~= before + escaped_string_char(c));
            assert(out@ =~= seq!['"'] + (expanded(text@.take(it.index() as int), rule)
                + escaped_string_char(c)));
        }
    }
    proof {
        assert(text@.take(text@.len() as int) =~= text@);
    }
    push_char(&mut out, '"');
    proof {
        assert(out@ =~= escaped_string(text@));
    }
    out
}

impl FieldValue {
    /// Whether the value can be written in a line.
    pub fn can_be_written(&self) -> (writable: bool)
        ensures
            writable == is_writable(self@),
    {
        match self {
            FieldValue::Timestamp(instant) => instant.timestamp_nanos().is_some(),
            _ => true,
        }
    }

    /// Escape a field value to the line protocol.
    ///
    /// Numeric and boolean values are escaped as they are; floating point
    /// numbers are written by `format_float`. Timestamps are converted to
    /// nanoseconds from epoch. Strings are enclosed in double quotes, and
    /// characters `"` and `\` are escaped.
    pub fn escape_to_line_protocol<F: Fn(Float64) -> String>(&self, format_float: &F) -> (text:
        String)
        requires
            is_writable(self@),
            forall|number: Float64| call_requires(*format_float, (number,)),
        ensures
            is_field_text(self@, text@, *format_float),
    {
        match self {
            FieldValue::Float(number) => {
                let text = format_float(*number);
                proof {
                    let witness = text;
                    assert(witness@ == text@ && call_ensures(*format_float, (*number,), witness));
                    assert(self@ == FieldValueView::Float(*number));
                    assert(is_float_text(*number, text@, *format_float));
                }
                text
            },
            FieldValue::Integer(number) => {
                let mut text = String::new();
                push_decimal(&mut text, *number);
                proof {
                    assert(text@ =~= decimal(*number as int));
                }
                text
            },
            FieldValue::UnsignedInteger(number) => {
                let mut text = String::new();
                push_digits(&mut text, *number);
                proof {
                    assert(text@ =~= decimal(*number as int));
                }
                text
            },
            FieldValue::String(string) => escape_string(string.as_str()),
            FieldValue::Boolean(flag) => if *flag {
                "true".to_owned()
            } else {
                "false".to_owned()
            },
            FieldValue::Timestamp(instant) => {
                let mut text = String::new();
                match instant.timestamp_nanos() {
                    Some(nanos) => {
                        push_decimal(&mut text, nanos);
                    },
                    None => {},
                }
                push_char(&mut text, 'i');
                proof {
                    assert(text@ =~= decimal(instant.nanos_since_epoch()) + seq!['i']);
                }
                text
            },
        }
    }
}

impl From<&str> for FieldValue {
    fn from(s: &str) -> (value: Self)
        ensures
            value@ == FieldValueView::String(s@),
    {
        FieldValue::String(s.to_owned())
    }
}

impl FromSpecImpl<&str> for FieldValue {
    open spec fn obeys_from_spec() -> bool {
        false
    }

    open spec fn from_spec(s: &str) -> Self {
        arbitrary()
    }
}

impl From<String> for FieldValue {
    fn from(s: String) -> (value: Self)
        ensures
            value == FieldValue::String(s),
    {
        FieldValue::String(s)
    }
}

impl FromSpecImpl<String> for FieldValue {
    open spec fn obeys_from_spec() -> bool {
        true
    }

    open spec fn from_spec(s: String) -> Self {
        FieldValue::String(s)
    }
}

impl From<Float64> for FieldValue {
    fn from(value: Float64) -> (converted: Self)
        ensures
            converted == FieldValue::Float(value),
    {
        FieldValue::Float(value)
    }
}

impl FromSpecImpl<Float64> for FieldValue {
    open spec fn obeys_from_spec() -> bool {
        true
    }

    open spec fn from_spec(value: Float64) -> Self {
        FieldValue::Float(value)
    }
}

impl From<i64> for FieldValue {
    fn from(value: i64) -> (converted: Self)
        ensures
            converted == FieldValue::Integer(value),
    {
        FieldValue::Integer(value)
    }
}

impl FromSpecImpl<i64> for FieldValue {
    open spec fn obeys_from_spec() -> bool {
        true
    }

    open spec fn from_spec(value: i64) -> Self {
        FieldValue::Integer(value)
    }
}

impl From<u64> for FieldValue {
    fn from(value: u64) -> (converted: Self)
        ensures
            converted == FieldValue::UnsignedInteger(value),
    {
        FieldValue::UnsignedInteger(value)
    }
}

impl FromSpecImpl<u64> for FieldValue {
    open spec fn obeys_from_spec() -> bool {
        true
    }

    open spec fn from_spec(value: u64) -> Self {
        FieldValue::UnsignedInteger(value)
    }
}

impl From<bool> for FieldValue {
    fn from(value: bool) -> (converted: Self)
        ensures
            converted == FieldValue::Boolean(value),
    {
        FieldValue::Boolean(value)
    }
}

impl FromSpecImpl<bool> for FieldValue {
    open spec fn obeys_from_spec() -> bool {
        true
    }

    open spec fn from_spec(value: bool) -> Self {
        FieldValue::Boolean(value)
    }
}

impl From<Instant> for FieldValue {
    fn from(value: Instant) -> (converted: Self)
        ensures
            converted == FieldValue::Timestamp(value),
    {
        FieldValue::Timestamp(value)
    }
}

impl FromSpecImpl<Instant> for FieldValue {
    open spec fn obeys_from_spec() -> bool {
        true
    }

    open spec fn from_spec(value: Instant) -> Self {
        FieldValue::Timestamp(value)
    }
}

} // verus!
