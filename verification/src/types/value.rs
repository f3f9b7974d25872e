//! The values that a cell of a series can hold.

use vstd::prelude::*;

use super::float::{bits_of_integer, bits_of_natural, integer_of_bits, rounded, Float64};
use super::instant::Instant;

verus! {

/// Value types supported by the database.
#[derive(Debug, PartialEq)]
pub enum Value {
    /// A floating point value.
    Float(Float64),
    /// An integer value.
    Integer(i64),
    /// An unsigned integer value.
    UnsignedInteger(u64),
    /// A string value.
    String(String),
    /// A boolean value.
    Boolean(bool),
    /// A datetime value.
    Timestamp(Instant),
}

/// What a `Value` holds, with its text as a sequence of characters.
pub enum ValueView {
    Float(Float64),
    Integer(i64),
    UnsignedInteger(u64),
    String(Seq<char>),
    Boolean(bool),
    Timestamp(Instant),
}

impl View for Value {
    type V = ValueView;

    open spec fn view(&self) -> ValueView {
        match *self {
            Value::Float(number) => ValueView::Float(number),
            Value::Integer(number) => ValueView::Integer(number),
            Value::UnsignedInteger(number) => ValueView::UnsignedInteger(number),
            Value::String(text) => ValueView::String(text@),
            Value::Boolean(flag) => ValueView::Boolean(flag),
            Value::Timestamp(instant) => ValueView::Timestamp(instant),
        }
    }
}

impl DeepView for Value {
    type V = ValueView;

    open spec fn deep_view(&self) -> ValueView {
        self@
    }
}

impl Clone for Value {
    fn clone(&self) -> (copy: Value)
        ensures
            copy@ == self@,
    {
        match self {
            Value::Float(number) => Value::Float(*number),
            Value::Integer(number) => Value::Integer(*number),
            Value::UnsignedInteger(number) => Value::UnsignedInteger(*number),
            Value::String(text) => Value::String(text.clone()),
            Value::Boolean(flag) => Value::Boolean(*flag),
            Value::Timestamp(instant) => Value::Timestamp(*instant),
        }
    }
}

/// Whether a value is a number: floating point, integer or unsigned integer.
pub open spec fn is_number(value: ValueView) -> bool {
    value is Float || value is Integer || value is UnsignedInteger
}

/// The bit pattern of the double that a number turns into: the number
/// itself where it is one, else the double nearest to the integer.
pub open spec fn float_bits_of(value: ValueView) -> nat {
    match value {
        ValueView::Float(number) => number.bits as nat,
        ValueView::Integer(number) => bits_of_integer(number as int),
        ValueView::UnsignedInteger(number) => bits_of_natural(rounded(number as nat)),
        _ => 0,
    }
}

/// The signed integer that a number turns into: the integer itself, an
/// unsigned integer read as a two's complement number of 64 bits, a double
/// without its fractional part and kept within 64 bits.
pub open spec fn integer_of(value: ValueView) -> int {
    match value {
        ValueView::Integer(number) => number as int,
        ValueView::UnsignedInteger(number) => if number <= i64::MAX {
            number as int
        } else {
            number - 0x1_0000_0000_0000_0000
        },
        ValueView::Float(number) => integer_of_bits(number.bits),
        _ => 0,
    }
}

impl Value {
    /// Whether the value is a number.
    pub fn is_numeric(&self) -> (numeric: bool)
        ensures
            numeric == is_number(self@),
    {
        match self {
            Value::Float(_) => true,
            Value::Integer(_) => true,
            Value::UnsignedInteger(_) => true,
            _ => false,
        }
    }

    /// The number as a floating point number. An integer turns into the
    /// double nearest to it.
    pub fn into_f64(self) -> (number: Float64)
        requires
            is_number(self@),
        ensures
            number.bits == float_bits_of(self@),
    {
        match self {
            Value::Float(number) => number,
            Value::Integer(number) => Float64::from_i64(number),
            Value::UnsignedInteger(number) => Float64::from_u64(number),
            _ => unreached(),
        }
    }

    /// The number as a signed integer. An unsigned integer is read as a
    /// two's complement number; a floating point number loses its
    /// fractional part and is kept within 64 bits.
    pub fn into_i64(self) -> (number: i64)
        requires
            is_number(self@),
        ensures
            number == integer_of(self@),
    {
        match self {
            Value::Integer(number) => number,
            Value::UnsignedInteger(number) => if number <= 0x7fff_ffff_ffff_ffff {
                number as i64
            } else {
                ((number - 0x8000_0000_0000_0000) as i64) + i64::MIN
            },
            Value::Float(number) => number.to_i64(),
            _ => unreached(),
        }
    }

    /// The unsigned integer that the value holds.
    pub fn into_u64(self) -> (number: u64)
        requires
            self is UnsignedInteger,
        ensures
            self@ == ValueView::UnsignedInteger(number),
    {
        match self {
            Value::UnsignedInteger(number) => number,
            _ => unreached(),
        }
    }

    /// The boolean that the value holds.
    pub fn into_boolean(self) -> (flag: bool)
        requires
            self is Boolean,
        ensures
            self@ == ValueView::Boolean(flag),
    {
        match self {
            Value::Boolean(flag) => flag,
            _ => unreached(),
        }
    }

    /// The text that the value holds.
    pub fn into_string(self) -> (text: String)
        requires
            self is String,
        ensures
            self@ == ValueView::String(text@),
    {
        match self {
            Value::String(text) => text,
            _ => unreached(),
        }
    }

    /// The instant that the value holds.
    pub fn into_timestamp(self) -> (instant: Instant)
        requires
            self is Timestamp,
        ensures
            self@ == ValueView::Timestamp(instant),
    {
        match self {
            Value::Timestamp(instant) => instant,
            _ => unreached(),
        }
    }
}

} // verus!
