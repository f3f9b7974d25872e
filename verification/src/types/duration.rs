//! Durations, and points in time given either as an instant or relative to
//! the current time.

use vstd::prelude::*;
use vstd::std_specs::convert::FromSpecImpl;
use vstd::string::*;

use super::instant::Instant;
use crate::text::{decimal, push_char, push_decimal};

verus! {

/// A time span of `chrono`, carried as it is.
#[verifier::external_type_specification]
#[verifier::external_body]
pub struct ExChronoTimeDelta(chrono::TimeDelta);

/// The whole seconds of a time span of `chrono`.
pub uninterp spec fn whole_seconds(delta: chrono::TimeDelta) -> i64;

/// Calls `chrono::TimeDelta::num_seconds`, which gives the whole seconds of
/// the time span.
#[verifier::external_body]
fn num_seconds(delta: &chrono::TimeDelta) -> (seconds: i64)
    ensures
        seconds == whole_seconds(*delta),
{
    delta.num_seconds()
}

/// A duration
///
/// Besides a number of units it can be infinite.
#[derive(Clone, Copy, Debug, PartialEq, Eq, Structural)]
pub enum Duration {
    /// A duration expressed in nanoseconds
    Nanoseconds(i64),
    /// A duration expressed in microseconds
    Microseconds(i64),
    /// A duration expressed in milliseconds
    Milliseconds(i64),
    /// A duration expressed in seconds
    Seconds(i64),
    /// A duration expressed in minutes
    Minutes(i64),
    /// A duration expressed in hours
    Hours(i64),
    /// A duration expressed in days
    Days(i64),
    /// An infinite duration
    Infinity,
}

/// The text of a duration: the number in decimal, then the unit; `inf` for
/// the infinite one.
pub open spec fn duration_text(duration: Duration) -> Seq<char> {
    match duration {
        Duration::Nanoseconds(n) => decimal(n as int) + seq!['n', 's'],
        Duration::Microseconds(n) => decimal(n as int) + seq!['u', 's'],
        Duration::Milliseconds(n) => decimal(n as int) + seq!['m', 's'],
        Duration::Seconds(n) => decimal(n as int) + seq!['s'],
        Duration::Minutes(n) => decimal(n as int) + seq!['m'],
        Duration::Hours(n) => decimal(n as int) + seq!['h'],
        Duration::Days(n) => decimal(n as int) + seq!['d'],
        Duration::Infinity => seq!['i', 'n', 'f'],
    }
}

impl Duration {
    /// The duration as it is written in a query.
    pub fn to_string(&self) -> (text: String)
        ensures
            text@ == duration_text(*self),
    {
        let mut text = String::new();
        match *self {
            Duration::Nanoseconds(n) => {
                push_decimal(&mut text, n);
                push_char(&mut text, 'n');
                push_char(&mut text, 's');
            },
            Duration::Microseconds(n) => {
                push_decimal(&mut text, n);
                push_char(&mut text, 'u');
                push_char(&mut text, 's');
            },
            Duration::Milliseconds(n) => {
                push_decimal(&mut text, n);
                push_char(&mut text, 'm');
                push_char(&mut text, 's');
            },
            Duration::Seconds(n) => {
                push_decimal(&mut text, n);
                push_char(&mut text, 's');
            },
            Duration::Minutes(n) => {
                push_decimal(&mut text, n);
                push_char(&mut text, 'm');
            },
            Duration::Hours(n) => {
                push_decimal(&mut text, n);
                push_char(&mut text, 'h');
            },
            Duration::Days(n) => {
                push_decimal(&mut text, n);
                push_char(&mut text, 'd');
            },
            Duration::Infinity => {
                push_char(&mut text, 'i');
                push_char(&mut text, 'n');
                push_char(&mut text, 'f');
            },
        }
        proof {
            assert(text@ =~= duration_text(*self));
        }
        text
    }
}

impl From<chrono::TimeDelta> for Duration {
    /// The whole seconds of the time span.
    fn from(delta: chrono::TimeDelta) -> (duration: Duration)
        ensures
            duration == Duration::Seconds(whole_seconds(delta)),
    {
        Duration::Seconds(num_seconds(&delta))
    }
}

impl FromSpecImpl<chrono::TimeDelta> for Duration {
    open spec fn obeys_from_spec() -> bool {
        true
    }

    open spec fn from_spec(delta: chrono::TimeDelta) -> Duration {
        Duration::Seconds(whole_seconds(delta))
    }
}

/// An entity which is either an instant or a duration
///
/// The database accepts durations where instants are expected, and reads
/// them as the point in time relative to the current instant.
#[derive(Clone, Copy, Debug, PartialEq, Eq, Structural)]
pub enum InstantOrDuration {
    /// An instant in time
    Instant(Instant),
    /// The instant corresponding to the current time plus a duration
    Duration(Duration),
}

/// The text of an instant or duration in a query: an instant in RFC 3339
/// form between single quotes, a duration as `duration_text` gives it.
pub open spec fn instant_or_duration_text(value: InstantOrDuration) -> Seq<char> {
    match value {
        InstantOrDuration::Instant(instant) => seq!['\''] + instant.text() + seq!['\''],
        InstantOrDuration::Duration(duration) => duration_text(duration),
    }
}

impl InstantOrDuration {
    /// The value as it is written in a query.
    pub fn to_string(&self) -> (text: String)
        ensures
            text@ == instant_or_duration_text(*self),
    {
        match *self {
            InstantOrDuration::Instant(instant) => {
                let mut text = String::new();
                push_char(&mut text, '\'');
                let date = instant.to_rfc3339();
                text.append(date.as_str());
                push_char(&mut text, '\'');
                proof {
                    assert(text@ =~= seq!['\''] + instant.text() + seq!['\'']);
                }
                text
            },
            InstantOrDuration::Duration(duration) => duration.to_string(),
        }
    }
}

impl From<Instant> for InstantOrDuration {
    fn from(instant: Instant) -> (value: InstantOrDuration)
        ensures
            value == InstantOrDuration::Instant(instant),
    {
        InstantOrDuration::Instant(instant)
    }
}

impl FromSpecImpl<Instant> for InstantOrDuration {
    open spec fn obeys_from_spec() -> bool {
        true
    }

    open spec fn from_spec(instant: Instant) -> InstantOrDuration {
        InstantOrDuration::Instant(instant)
    }
}

impl From<Duration> for InstantOrDuration {
    fn from(duration: Duration) -> (value: InstantOrDuration)
        ensures
            value == InstantOrDuration::Duration(duration),
    {
        InstantOrDuration::Duration(duration)
    }
}

impl FromSpecImpl<Duration> for InstantOrDuration {
    open spec fn obeys_from_spec() -> bool {
        true
    }

    open spec fn from_spec(duration: Duration) -> InstantOrDuration {
        InstantOrDuration::Duration(duration)
    }
}

impl From<chrono::TimeDelta> for InstantOrDuration {
    /// The duration of the whole seconds of the time span.
    fn from(delta: chrono::TimeDelta) -> (value: InstantOrDuration)
        ensures
            value == InstantOrDuration::Duration(Duration::Seconds(whole_seconds(delta))),
    {
        InstantOrDuration::Duration(Duration::Seconds(num_seconds(&delta)))
    }
}

impl FromSpecImpl<chrono::TimeDelta> for InstantOrDuration {
    open spec fn obeys_from_spec() -> bool {
        true
    }

    open spec fn from_spec(delta: chrono::TimeDelta) -> InstantOrDuration {
        InstantOrDuration::Duration(Duration::Seconds(whole_seconds(delta)))
    }
}

} // verus!
